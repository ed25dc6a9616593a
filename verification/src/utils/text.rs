//! Text helpers over the `Seq<char>` view of strings.

use vstd::prelude::*;

verus! {

/// `needle` occurs in `hay` as a contiguous run of characters.
pub open spec fn is_substring(hay: Seq<char>, needle: Seq<char>) -> bool {
    exists|start: int|
        0 <= start && start + needle.len() <= hay.len() && #[trigger] hay.subrange(
            start,
            start + needle.len(),
        ) == needle
}

/// Calls `str::contains` with a string pattern. std documents that it returns
/// true exactly when the pattern matches a sub-slice of the string; both being
/// valid UTF-8, that is an occurrence of the pattern's characters in a row.
#[verifier::external_body]
pub(crate) fn contains(hay: &str, needle: &str) -> (found: bool)
    ensures
        found == is_substring(hay@, needle@),
{
    hay.contains(needle)
}

/// The words of a text as `str::split_whitespace` yields them: the runs of
/// characters between whitespace, in order, whitespace being what Unicode
/// gives the property `White_Space`.
pub uninterp spec fn whitespace_words(text: Seq<char>) -> Seq<Seq<char>>;

/// Calls `str::split_whitespace` and copies the words it yields.
#[verifier::external_body]
pub(crate) fn split_words(text: &str) -> (words: Vec<String>)
    ensures
        words.deep_view() == whitespace_words(text@),
{
    text.split_whitespace().map(|word| word.to_owned()).collect()
}

/// The lowercase of a text as `str::to_lowercase` gives it, by the terms of
/// the Unicode derived core property `Lowercase`.
pub uninterp spec fn lowercase(text: Seq<char>) -> Seq<char>;

/// Calls `str::to_lowercase`.
#[verifier::external_body]
pub(crate) fn to_lowercase(text: &str) -> (lowered: String)
    ensures
        lowered@ == lowercase(text@),
{
    text.to_lowercase()
}

/// The parts written one after another with `sep` between neighbours.
pub open spec fn joined(parts: Seq<Seq<char>>, sep: Seq<char>) -> Seq<char>
    decreases parts.len(),
{
    if parts.len() == 0 {
        Seq::empty()
    } else if parts.len() == 1 {
        parts[0]
    } else {
        joined(parts.drop_last(), sep) + sep + parts.last()
    }
}

/// Joins `parts` with `sep`, as `[String]::join` does.
pub fn join(parts: &[String], sep: &str) -> (out: String)
    ensures
        out@ == joined(parts.deep_view(), sep@),
{
    let mut out = String::new();
    let mut i: usize = 0;
    while i < parts.len()
        invariant
            i <= parts.len(),
            out@ == joined(parts.deep_view().take(i as int), sep@),
        decreases parts.len() - i,
    {
        let ghost before = parts.deep_view().take(i as int);
        let ghost after = parts.deep_view().take(i + 1);
        proof {
            assert(after.drop_last() == before);
            assert(after.last() == parts[i as int]@);
        }
        if i > 0 {
            out.append(sep);
        }
        out.append(parts[i].as_str());
        proof {
            if i == 0 {
                assert(before.len() == 0);
                assert(out@ == parts[i as int]@);
            }
        }
        i += 1;
    }
    proof {
        assert(parts.deep_view().take(parts.len() as int) == parts.deep_view());
    }
    out
}

/// A copy of every item, in order.
pub fn clone_all(items: &[String]) -> (copies: Vec<String>)
    ensures
        copies@ == items@,
{
    let mut copies: Vec<String> = Vec::new();
    let mut i: usize = 0;
    while i < items.len()
        invariant
            i <= items.len(),
            copies@ == items@.take(i as int),
        decreases items.len() - i,
    {
        copies.push(items[i].clone());
        proof {
            assert(copies@ =~= items@.take(i + 1));
        }
        i += 1;
    }
    proof {
        assert(items@.take(items.len() as int) == items@);
    }
    copies
}

/// The first place in `items` that holds `wanted`, if any.
pub fn position_of(items: &[String], wanted: &str) -> (found: Option<usize>)
    ensures
        match found {
            Some(i) => i < items.len() && items[i as int]@ == wanted@ && forall|j: int|
                0 <= j < i ==> items[j]@ != wanted@,
            None => !items.deep_view().contains(wanted@),
        },
{
    let key = wanted.to_owned();
    let mut i: usize = 0;
    while i < items.len()
        invariant
            i <= items.len(),
            key@ == wanted@,
            forall|j: int| 0 <= j < i ==> items[j]@ != wanted@,
        decreases items.len() - i,
    {
        if items[i] == key {
            return Some(i);
        }
        i += 1;
    }
    proof {
        assert forall|j: int| 0 <= j < items.deep_view().len() implies items.deep_view()[j]
            != wanted@ by {
            assert(items.deep_view()[j] == items[j]@);
        }
    }
    None
}

/// The test that holds of every text but `dropped`.
pub open spec fn other_than(dropped: Seq<char>) -> spec_fn(Seq<char>) -> bool {
    |c: Seq<char>| c != dropped
}

/// `items` without every occurrence of `dropped`, the rest in order.
pub fn without(items: &[String], dropped: &str) -> (kept: Vec<String>)
    ensures
        kept.deep_view() == items.deep_view().filter(other_than(dropped@)),
{
    let key = dropped.to_owned();
    let ghost pred = other_than(dropped@);
    let mut kept: Vec<String> = Vec::new();
    let mut i: usize = 0;
    proof {
        assert(items.deep_view().take(0).filter(pred) =~= Seq::<Seq<char>>::empty());
    }
    while i < items.len()
        invariant
            i <= items.len(),
            key@ == dropped@,
            pred == other_than(dropped@),
            kept.deep_view() == items.deep_view().take(i as int).filter(pred),
        decreases items.len() - i,
    {
        let ghost seen = items.deep_view().take(i as int);
        proof {
            assert(items.deep_view().take(i + 1) =~= seen.push(items[i as int]@));
            seen.lemma_filter_push(items[i as int]@, pred);
        }
        if !(items[i] == key) {
            let ghost before = kept.deep_view();
            kept.push(items[i].clone());
            proof {
                assert(kept.deep_view() =~= before.push(items[i as int]@));
            }
        }
        i += 1;
    }
    proof {
        assert(items.deep_view().take(items.len() as int) == items.deep_view());
    }
    kept
}

/// Dropping a value from a list drops it from the list's set, and a list
/// without repeats stays one.
pub proof fn lemma_without_set(items: Seq<Seq<char>>, dropped: Seq<char>)
    ensures
        items.filter(other_than(dropped)).to_set() == items.to_set().remove(dropped),
        items.no_duplicates() ==> items.filter(other_than(dropped)).no_duplicates(),
{
    broadcast use vstd::seq_lib::group_filter_ensures;

    let pred = other_than(dropped);
    let kept = items.filter(pred);
    assert(kept.to_set() =~= items.to_set().remove(dropped)) by {
        assert forall|c: Seq<char>| kept.to_set().contains(c) <==> items.to_set().remove(
            dropped,
        ).contains(c) by {
            if kept.contains(c) {
                let k = choose|k: int| 0 <= k < kept.len() && kept[k] == c;
                assert(pred(kept[k]));
                items.lemma_filter_contains_rev(pred, c);
            }
            if items.contains(c) && c != dropped {
                let k = choose|k: int| 0 <= k < items.len() && items[k] == c;
                assert(pred(items[k]));
                assert(kept.contains(items[k]));
            }
        }
    }
    if items.no_duplicates() {
        lemma_filter_keeps_distinct(items, pred);
    }
}

/// Filtering a list without repeats leaves a list without repeats.
pub proof fn lemma_filter_keeps_distinct(items: Seq<Seq<char>>, pred: spec_fn(Seq<char>) -> bool)
    requires
        items.no_duplicates(),
    ensures
        items.filter(pred).no_duplicates(),
    decreases items.len(),
{
    broadcast use vstd::seq_lib::group_filter_ensures;

    reveal(Seq::filter);
    if items.len() > 0 {
        let front = items.drop_last();
        lemma_filter_keeps_distinct(front, pred);
        if pred(items.last()) {
            assert(items.filter(pred) == front.filter(pred).push(items.last()));
            assert(!front.contains(items.last())) by {
                if front.contains(items.last()) {
                    let k = choose|k: int| 0 <= k < front.len() && front[k] == items.last();
                    assert(items[k] == items[items.len() - 1]);
                }
            }
            assert(!front.filter(pred).contains(items.last())) by {
                if front.filter(pred).contains(items.last()) {
                    front.lemma_filter_contains_rev(pred, items.last());
                }
            }
        }
    }
}

} // verus!
