//! The audit trail: an append-only log in which every entry carries the hash
//! of the entry before it.

use crate::engine::QueryContext;
use crate::utils::clock::Timestamp;
use crate::utils::hashing::{digest_of_text, Hasher};
use crate::utils::text::{clone_all, join, joined};
use vstd::prelude::*;

verus! {

/// One logged query. An entry is never changed once it stands in a trail.
#[derive(Debug, Clone)]
pub struct AuditEntry {
    pub timestamp: Timestamp,
    pub query: String,
    pub node_path: Vec<String>,
    pub cluster_path: Vec<String>,
    pub hash: String,
    pub previous_hash: Option<String>,
}

/// The text that is hashed for an entry: the time, the node path and the
/// cluster path, each path joined by commas, with colons between the three.
pub open spec fn entry_text(
    timestamp: Timestamp,
    node_path: Seq<Seq<char>>,
    cluster_path: Seq<Seq<char>>,
) -> Seq<char> {
    timestamp.text() + seq![':'] + joined(node_path, seq![',']) + seq![':'] + joined(
        cluster_path,
        seq![','],
    )
}

/// The hash of an entry: the hexadecimal SHA-256 digest of its text.
pub open spec fn entry_hash(
    timestamp: Timestamp,
    node_path: Seq<Seq<char>>,
    cluster_path: Seq<Seq<char>>,
) -> Seq<char> {
    digest_of_text(entry_text(timestamp, node_path, cluster_path))
}

/// The hash that an entry appended to `entries` has to name as its
/// predecessor: none for the first entry, else that of the last one.
pub open spec fn tip(entries: Seq<AuditEntry>) -> Option<Seq<char>> {
    if entries.len() == 0 {
        None
    } else {
        Some(entries.last().hash@)
    }
}

/// Every entry but the first names the hash of the entry before it.
pub open spec fn is_linked(entries: Seq<AuditEntry>) -> bool {
    forall|i: int|
        1 <= i < entries.len() ==> (#[trigger] entries[i]).previous_hash.deep_view() == Some(
            entries[i - 1].hash@,
        )
}

/// What a trail holds after queries were logged one after another: every
/// entry names the hash that was the tip when it was appended.
pub open spec fn is_logged(entries: Seq<AuditEntry>) -> bool {
    forall|i: int|
        0 <= i < entries.len() ==> (#[trigger] entries[i]).previous_hash.deep_view() == tip(
            entries.take(i),
        )
}

/// The hashes of the entries, first to last.
pub open spec fn hashes(entries: Seq<AuditEntry>) -> Seq<Seq<char>> {
    entries.map_values(|entry: AuditEntry| entry.hash@)
}

/// An entry that names the tip of a linked chain extends it to a linked chain.
pub proof fn lemma_append_keeps_chain(entries: Seq<AuditEntry>, entry: AuditEntry)
    requires
        is_linked(entries),
        entry.previous_hash.deep_view() == tip(entries),
    ensures
        is_linked(entries.push(entry)),
{
    let extended = entries.push(entry);
    assert forall|i: int| 1 <= i < extended.len() implies (#[trigger] extended[i]).previous_hash.deep_view()
        == Some(extended[i - 1].hash@) by {
        if i < entries.len() {
            assert(extended[i] == entries[i]);
        }
    }
}

/// However many queries were logged one after another, the chain is linked.
pub proof fn lemma_logged_is_linked(entries: Seq<AuditEntry>)
    requires
        is_logged(entries),
    ensures
        is_linked(entries),
{
    assert forall|i: int| 1 <= i < entries.len() implies (#[trigger] entries[i]).previous_hash.deep_view()
        == Some(entries[i - 1].hash@) by {
        assert(entries.take(i).last() == entries[i - 1]);
    }
}

/// Logging one more query keeps a trail what logging made it.
pub proof fn lemma_append_keeps_log(entries: Seq<AuditEntry>, entry: AuditEntry)
    requires
        is_logged(entries),
        entry.previous_hash.deep_view() == tip(entries),
    ensures
        is_logged(entries.push(entry)),
{
    let extended = entries.push(entry);
    assert forall|i: int| 0 <= i < extended.len() implies (#[trigger] extended[i]).previous_hash.deep_view()
        == tip(extended.take(i)) by {
        if i < entries.len() {
            assert(extended[i] == entries[i]);
            assert(extended.take(i) =~= entries.take(i));
        } else {
            assert(extended.take(i) =~= entries);
        }
    }
}

/// A chain in which some entry does not name its predecessor is not linked,
/// wherever the break is.
pub proof fn lemma_break_is_found(entries: Seq<AuditEntry>, at: int)
    requires
        1 <= at < entries.len(),
        entries[at].previous_hash.deep_view() != Some(entries[at - 1].hash@),
    ensures
        !is_linked(entries),
{
}

/// The same time and the same two paths always hash to the same text.
pub proof fn lemma_entry_hash_is_deterministic(
    first: Timestamp,
    first_nodes: Seq<Seq<char>>,
    first_clusters: Seq<Seq<char>>,
    second: Timestamp,
    second_nodes: Seq<Seq<char>>,
    second_clusters: Seq<Seq<char>>,
)
    requires
        first.secs() == second.secs(),
        first.nanos() == second.nanos(),
        first_nodes == second_nodes,
        first_clusters == second_clusters,
    ensures
        entry_hash(first, first_nodes, first_clusters) == entry_hash(
            second,
            second_nodes,
            second_clusters,
        ),
{
    crate::utils::clock::lemma_text_determined(first, second);
}

/// Whether every entry but the first names the hash of the entry before it.
pub fn chain_is_linked(entries: &[AuditEntry]) -> (linked: bool)
    ensures
        linked == is_linked(entries@),
{
    let mut i: usize = 1;
    while i < entries.len()
        invariant
            1 <= i,
            forall|j: int|
                1 <= j < i && j < entries.len() ==> (#[trigger] entries[j]).previous_hash.deep_view()
                    == Some(entries[j - 1].hash@),
        decreases entries.len() - i,
    {
        let names_predecessor = match &entries[i].previous_hash {
            Some(named) => *named == entries[i - 1].hash,
            None => false,
        };
        if !names_predecessor {
            proof {
                lemma_break_is_found(entries@, i as int);
            }
            return false;
        }
        i += 1;
    }
    true
}

pub struct AuditTrail {
    entries: Vec<AuditEntry>,
}

impl View for AuditTrail {
    type V = Seq<AuditEntry>;

    closed spec fn view(&self) -> Seq<AuditEntry> {
        self.entries@
    }
}

impl AuditTrail {
    pub fn new() -> (trail: AuditTrail)
        ensures
            trail@.len() == 0,
            is_logged(trail@),
            is_linked(trail@),
    {
        AuditTrail { entries: Vec::new() }
    }

    /// The hash under which a query with these paths is logged.
    pub fn entry_hash(timestamp: &Timestamp, node_path: &[String], cluster_path: &[String]) -> (hash:
        String)
        ensures
            hash@ == entry_hash(*timestamp, node_path.deep_view(), cluster_path.deep_view()),
    {
        proof {
            reveal_strlit(":");
            reveal_strlit(",");
            assert(":"@ =~= seq![':']);
            assert(","@ =~= seq![',']);
        }
        let mut text = timestamp.to_string();
        text.append(":");
        text.append(join(node_path, ",").as_str());
        text.append(":");
        text.append(join(cluster_path, ",").as_str());
        Hasher::hash_string(text.as_str())
    }

    /// Appends an entry for the query and returns the hashes of all entries so
    /// far, the new one last. The new entry names the hash of the entry that
    /// was last until now, so a linked trail stays linked.
    pub fn log_query(
        &mut self,
        context: &QueryContext,
        node_path: &[String],
        cluster_path: &[String],
    ) -> (audit_path: Vec<String>)
        ensures
            final(self)@.len() == old(self)@.len() + 1,
            final(self)@.drop_last() == old(self)@,
            final(self)@.last().timestamp == context.timestamp,
            final(self)@.last().query == context.query,
            final(self)@.last().node_path@ == node_path@,
            final(self)@.last().cluster_path@ == cluster_path@,
            final(self)@.last().hash@ == entry_hash(
                context.timestamp,
                node_path.deep_view(),
                cluster_path.deep_view(),
            ),
            final(self)@.last().previous_hash.deep_view() == tip(old(self)@),
            audit_path.deep_view() == hashes(final(self)@),
            audit_path@.len() == final(self)@.len(),
            is_linked(old(self)@) ==> is_linked(final(self)@),
            is_logged(old(self)@) ==> is_logged(final(self)@),
    {
        let ghost before = self.entries@;
        let previous_hash = if self.entries.len() == 0 {
            None
        } else {
            Some(self.entries[self.entries.len() - 1].hash.clone())
        };
        let hash = Self::entry_hash(&context.timestamp, node_path, cluster_path);
        let entry = AuditEntry {
            timestamp: context.timestamp,
            query: context.query.clone(),
            node_path: clone_all(node_path),
            cluster_path: clone_all(cluster_path),
            hash,
            previous_hash,
        };
        self.entries.push(entry);
        proof {
            assert(self.entries@.drop_last() =~= before);
            assert(before.push(self.entries@.last()) =~= self.entries@);
            if is_linked(before) {
                lemma_append_keeps_chain(before, self.entries@.last());
            }
            if is_logged(before) {
                lemma_append_keeps_log(before, self.entries@.last());
            }
        }
        let mut audit_path: Vec<String> = Vec::new();
        let mut i: usize = 0;
        while i < self.entries.len()
            invariant
                i <= self.entries.len(),
                audit_path.deep_view() == hashes(self.entries@.take(i as int)),
            decreases self.entries.len() - i,
        {
            let ghost listed = audit_path.deep_view();
            audit_path.push(self.entries[i].hash.clone());
            proof {
                let next = self.entries@[i as int].hash@;
                assert(audit_path.deep_view() =~= listed.push(next));
                assert(hashes(self.entries@.take(i + 1)) =~= hashes(
                    self.entries@.take(i as int),
                ).push(next));
            }
            i += 1;
        }
        proof {
            assert(self.entries@.take(self.entries.len() as int) == self.entries@);
        }
        audit_path
    }

    /// Whether the chain of hashes is unbroken from the first entry to the last.
    pub fn verify_integrity(&self) -> (intact: bool)
        ensures
            intact == is_linked(self@),
    {
        chain_is_linked(self.entries.as_slice())
    }

    pub fn get_entries(&self) -> (entries: &[AuditEntry])
        ensures
            entries@ == self@,
    {
        self.entries.as_slice()
    }
}

impl Default for AuditTrail {
    fn default() -> (trail: AuditTrail)
        ensures
            trail@.len() == 0,
            is_logged(trail@),
            is_linked(trail@),
    {
        Self::new()
    }
}

} // verus!
