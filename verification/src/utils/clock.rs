//! Points in time, held as seconds and nanoseconds since the Unix epoch.

use vstd::prelude::*;

verus! {

/// Whether `chrono` has a UTC date and time that lies `secs` seconds and
/// `nanos` nanoseconds after the Unix epoch: whether
/// `chrono::DateTime::from_timestamp` gives one.
pub uninterp spec fn is_utc_moment(secs: int, nanos: int) -> bool;

/// What `chrono` prints for the UTC date and time that lies `secs` seconds and
/// `nanos` nanoseconds after the Unix epoch, through the `Display` impl of
/// `chrono::DateTime`.
pub uninterp spec fn utc_text(secs: int, nanos: int) -> Seq<char>;

/// Builds the date and time with `chrono::DateTime::from_timestamp` and prints
/// it through its `Display` impl. Both are functions of the two numbers alone:
/// the zone is UTC and no locale is consulted. Numbers that name no date and
/// time give `None`.
#[verifier::external_body]
fn render_utc(secs: i64, nanos: u32) -> (text: Option<String>)
    ensures
        text is Some <==> is_utc_moment(secs as int, nanos as int),
        text matches Some(t) ==> t@ == utc_text(secs as int, nanos as int),
{
    match chrono::DateTime::from_timestamp(secs, nanos) {
        Some(moment) => Some(moment.to_string()),
        None => None,
    }
}

/// Reads the clock with `chrono::Utc::now` and takes the result apart with
/// `timestamp` and `timestamp_subsec_nanos`. `chrono` documents that
/// `from_timestamp` gives the same date and time back from these two numbers,
/// so they always name one. Which moment comes back is not determined. The
/// call panics where the system clock stands before the Unix epoch.
#[verifier::external_body]
fn read_utc_clock() -> (parts: (i64, u32))
    ensures
        is_utc_moment(parts.0 as int, parts.1 as int),
{
    let moment = chrono::Utc::now();
    (moment.timestamp(), moment.timestamp_subsec_nanos())
}

/// A UTC date and time. Every value names a moment that `chrono` has.
#[derive(Debug, Clone, Copy, PartialEq, Eq)]
pub struct Timestamp {
    secs: i64,
    nanos: u32,
}

impl Timestamp {
    #[verifier::type_invariant]
    spec fn names_a_moment(self) -> bool {
        is_utc_moment(self.secs as int, self.nanos as int)
    }

    /// Whole seconds since the Unix epoch, negative before it.
    pub closed spec fn secs(self) -> int {
        self.secs as int
    }

    /// Nanoseconds since the last whole second.
    pub closed spec fn nanos(self) -> int {
        self.nanos as int
    }

    /// The text that stands for this moment wherever it is printed or hashed.
    pub closed spec fn text(self) -> Seq<char> {
        utc_text(self.secs as int, self.nanos as int)
    }

    /// The moment given by its two numbers, if there is one.
    pub fn from_parts(secs: i64, nanos: u32) -> (made: Option<Timestamp>)
        ensures
            made is Some <==> is_utc_moment(secs as int, nanos as int),
            made matches Some(t) ==> t.secs() == secs && t.nanos() == nanos,
    {
        match render_utc(secs, nanos) {
            Some(_) => Some(Timestamp { secs, nanos }),
            None => None,
        }
    }

    /// The current moment, as the system clock gives it. Which moment that is
    /// is not determined; it is one that can be printed and given back by its
    /// two numbers.
    pub fn now() -> (moment: Timestamp)
        ensures
            is_utc_moment(moment.secs(), moment.nanos()),
    {
        let parts = read_utc_clock();
        Timestamp { secs: parts.0, nanos: parts.1 }
    }

    pub fn seconds(&self) -> (secs: i64)
        ensures
            secs == self.secs(),
    {
        self.secs
    }

    pub fn subsec_nanos(&self) -> (nanos: u32)
        ensures
            nanos == self.nanos(),
    {
        self.nanos
    }

    /// The moment as text, such as `2015-05-15 00:00:00 UTC`.
    pub fn to_string(&self) -> (text: String)
        ensures
            text@ == self.text(),
    {
        proof {
            use_type_invariant(self);
        }
        render_utc(self.secs, self.nanos).unwrap()
    }
}

/// Two timestamps with the same numbers print the same text.
pub proof fn lemma_text_determined(a: Timestamp, b: Timestamp)
    requires
        a.secs() == b.secs(),
        a.nanos() == b.nanos(),
    ensures
        a.text() == b.text(),
{
}

} // verus!
