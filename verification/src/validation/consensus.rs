//! Consensus over several independently resolved paths.
//!
//! The agreement ratio of a collection of paths is the number of times its
//! most frequent identifier occurs, over the number of identifiers in all
//! paths together. It is kept as these two counts, and the threshold as a
//! fraction, so that the comparison is exact.

use crate::utils::text::position_of;
use vstd::prelude::*;

verus! {

/// The identifiers of all paths, one path after another.
pub open spec fn all_ids(paths: Seq<Seq<Seq<char>>>) -> Seq<Seq<char>>
    decreases paths.len(),
{
    if paths.len() == 0 {
        Seq::empty()
    } else {
        all_ids(paths.drop_last()) + paths.last()
    }
}

/// How often `id` occurs in `ids`.
pub open spec fn occurrences(ids: Seq<Seq<char>>, id: Seq<char>) -> nat
    decreases ids.len(),
{
    if ids.len() == 0 {
        0
    } else if ids.last() == id {
        occurrences(ids.drop_last(), id) + 1
    } else {
        occurrences(ids.drop_last(), id)
    }
}

/// The largest number of occurrences in `ids` of any of its first `upto`
/// entries.
pub open spec fn top_among(ids: Seq<Seq<char>>, upto: nat) -> nat
    decreases upto,
{
    if upto == 0 {
        0
    } else {
        let before = top_among(ids, (upto - 1) as nat);
        let here = occurrences(ids, ids[upto - 1]);
        if here > before {
            here
        } else {
            before
        }
    }
}

/// How often the most frequent identifier occurs: zero where there is none.
pub open spec fn top_count(ids: Seq<Seq<char>>) -> nat {
    top_among(ids, ids.len())
}

/// The agreement ratio, `top` over `total`, is at least
/// `numerator / denominator`.
pub open spec fn reaches(top: nat, total: nat, numerator: nat, denominator: nat) -> bool {
    top * denominator >= numerator * total
}

/// Whether a collection of paths reaches the threshold: it has to hold an
/// identifier at all, and its agreement ratio must not be below the threshold.
pub open spec fn is_consensus(
    paths: Seq<Seq<Seq<char>>>,
    numerator: nat,
    denominator: nat,
) -> bool {
    let ids = all_ids(paths);
    ids.len() > 0 && reaches(top_count(ids), ids.len(), numerator, denominator)
}

/// No entry among the first `upto` occurs more often than `top_among` says.
pub proof fn lemma_top_among_bounds(ids: Seq<Seq<char>>, upto: nat, at: int)
    requires
        0 <= at < upto <= ids.len(),
    ensures
        occurrences(ids, ids[at]) <= top_among(ids, upto),
    decreases upto,
{
    if at < upto - 1 {
        lemma_top_among_bounds(ids, (upto - 1) as nat, at);
    }
}

/// Some entry among the first `upto` occurs exactly as often as `top_among`
/// says, unless there is none.
pub proof fn lemma_top_among_is_reached(ids: Seq<Seq<char>>, upto: nat) -> (at: int)
    requires
        0 < upto <= ids.len(),
    ensures
        0 <= at < upto,
        occurrences(ids, ids[at]) == top_among(ids, upto),
    decreases upto,
{
    let here = occurrences(ids, ids[upto - 1]);
    if upto == 1 || here > top_among(ids, (upto - 1) as nat) {
        lemma_occurs_where_it_stands(ids, upto - 1);
        upto - 1
    } else {
        lemma_top_among_is_reached(ids, (upto - 1) as nat)
    }
}

/// An identifier occurs at least once in a sequence that holds it.
pub proof fn lemma_occurs_where_it_stands(ids: Seq<Seq<char>>, at: int)
    requires
        0 <= at < ids.len(),
    ensures
        occurrences(ids, ids[at]) >= 1,
    decreases ids.len(),
{
    if at < ids.len() - 1 {
        lemma_occurs_where_it_stands(ids.drop_last(), at);
    }
}

/// An identifier that a sequence does not hold occurs in it zero times.
pub proof fn lemma_absent_occurs_never(ids: Seq<Seq<char>>, id: Seq<char>)
    requires
        !ids.contains(id),
    ensures
        occurrences(ids, id) == 0,
    decreases ids.len(),
{
    if ids.len() > 0 {
        assert(ids[ids.len() - 1] != id);
        assert forall|j: int| 0 <= j < ids.drop_last().len() implies ids.drop_last()[j] != id by {
            assert(ids[j] != id);
        }
        lemma_absent_occurs_never(ids.drop_last(), id);
    }
}

/// No identifier occurs more often than there are entries.
pub proof fn lemma_occurrences_within_length(ids: Seq<Seq<char>>, id: Seq<char>)
    ensures
        occurrences(ids, id) <= ids.len(),
    decreases ids.len(),
{
    if ids.len() > 0 {
        lemma_occurrences_within_length(ids.drop_last(), id);
    }
}

/// Writing `id` over one entry changes how often `id` and the entry that
/// stood there occur, and nothing else.
pub proof fn lemma_occurrences_after_update(
    ids: Seq<Seq<char>>,
    at: int,
    id: Seq<char>,
    counted: Seq<char>,
)
    requires
        0 <= at < ids.len(),
    ensures
        occurrences(ids.update(at, id), counted) + (if ids[at] == counted {
            1nat
        } else {
            0nat
        }) == occurrences(ids, counted) + (if id == counted {
            1nat
        } else {
            0nat
        }),
    decreases ids.len(),
{
    let updated = ids.update(at, id);
    if at == ids.len() - 1 {
        assert(updated.drop_last() =~= ids.drop_last());
    } else {
        assert(updated.drop_last() =~= ids.drop_last().update(at, id));
        lemma_occurrences_after_update(ids.drop_last(), at, id, counted);
    }
}

/// The heart of the monotonicity of the agreement ratio: writing a most
/// frequent identifier over any entry does not lower the top count.
pub proof fn lemma_majority_update_keeps_top(ids: Seq<Seq<char>>, at: int, majority: Seq<char>)
    requires
        0 <= at < ids.len(),
        occurrences(ids, majority) == top_count(ids),
    ensures
        top_count(ids.update(at, majority)) >= top_count(ids),
{
    let updated = ids.update(at, majority);
    lemma_occurrences_after_update(ids, at, majority, majority);
    lemma_top_among_bounds(updated, updated.len(), at);
}

/// Writing over an entry of one path writes over one entry of all
/// identifiers taken together.
pub proof fn lemma_all_ids_after_update(
    paths: Seq<Seq<Seq<char>>>,
    path: int,
    step: int,
    id: Seq<char>,
) -> (at: int)
    requires
        0 <= path < paths.len(),
        0 <= step < paths[path].len(),
    ensures
        0 <= at < all_ids(paths).len(),
        all_ids(paths.update(path, paths[path].update(step, id))) == all_ids(paths).update(at, id),
    decreases paths.len(),
{
    let changed = paths.update(path, paths[path].update(step, id));
    let front = all_ids(paths.drop_last());
    if path == paths.len() - 1 {
        assert(changed.drop_last() =~= paths.drop_last());
        assert(all_ids(changed) =~= all_ids(paths).update(front.len() + step, id));
        front.len() + step
    } else {
        assert(changed.drop_last() =~= paths.drop_last().update(
            path,
            paths[path].update(step, id),
        ));
        let at = lemma_all_ids_after_update(paths.drop_last(), path, step, id);
        assert(all_ids(changed) =~= all_ids(paths).update(at, id));
        at
    }
}

/// The agreement ratio is monotonic: where any entry of any path is replaced
/// by an identifier that is most frequent, the number of identifiers stays
/// and the top count does not fall, so the ratio does not fall.
pub proof fn lemma_agreement_is_monotonic(
    paths: Seq<Seq<Seq<char>>>,
    path: int,
    step: int,
    majority: Seq<char>,
)
    requires
        0 <= path < paths.len(),
        0 <= step < paths[path].len(),
        occurrences(all_ids(paths), majority) == top_count(all_ids(paths)),
    ensures
        all_ids(paths.update(path, paths[path].update(step, majority))).len() == all_ids(
            paths,
        ).len(),
        top_count(all_ids(paths.update(path, paths[path].update(step, majority)))) >= top_count(
            all_ids(paths),
        ),
        forall|numerator: nat, denominator: nat|
            is_consensus(paths, numerator, denominator) ==> #[trigger] is_consensus(
                paths.update(path, paths[path].update(step, majority)),
                numerator,
                denominator,
            ),
{
    let ids = all_ids(paths);
    let at = lemma_all_ids_after_update(paths, path, step, majority);
    lemma_majority_update_keeps_top(ids, at, majority);
    let changed = all_ids(paths.update(path, paths[path].update(step, majority)));
    assert forall|numerator: nat, denominator: nat|
        is_consensus(paths, numerator, denominator) implies #[trigger] is_consensus(
        paths.update(path, paths[path].update(step, majority)),
        numerator,
        denominator,
    ) by {
        assert(top_count(changed) * denominator >= top_count(ids) * denominator)
            by (nonlinear_arith)
            requires
                top_count(changed) >= top_count(ids),
        ;
    }
}

/// `keys` and `tallies` count `ids`: every identifier of `ids` is a key
/// exactly once, and its tally is the number of its occurrences.
pub open spec fn is_tally(keys: Seq<Seq<char>>, tallies: Seq<usize>, ids: Seq<Seq<char>>) -> bool {
    &&& keys.len() == tallies.len()
    &&& keys.no_duplicates()
    &&& forall|i: int|
        0 <= i < keys.len() ==> ids.contains(#[trigger] keys[i]) && tallies[i] == occurrences(
            ids,
            keys[i],
        )
    &&& forall|p: int| 0 <= p < ids.len() ==> keys.contains(#[trigger] ids[p])
}

/// All identifiers of all paths in one list.
fn flatten(paths: &Vec<Vec<String>>) -> (ids: Vec<String>)
    ensures
        ids.deep_view() == all_ids(paths.deep_view()),
{
    let mut ids: Vec<String> = Vec::new();
    let mut p: usize = 0;
    while p < paths.len()
        invariant
            p <= paths.len(),
            ids.deep_view() == all_ids(paths.deep_view().take(p as int)),
        decreases paths.len() - p,
    {
        let path = &paths[p];
        let ghost before = ids.deep_view();
        let mut i: usize = 0;
        while i < path.len()
            invariant
                i <= path.len(),
                ids.deep_view() == before + path.deep_view().take(i as int),
            decreases path.len() - i,
        {
            let ghost sofar = ids.deep_view();
            ids.push(path[i].clone());
            proof {
                assert(ids.deep_view() =~= sofar.push(path[i as int]@));
                assert(path.deep_view().take(i + 1) =~= path.deep_view().take(i as int).push(
                    path[i as int]@,
                ));
            }
            i += 1;
        }
        proof {
            assert(path.deep_view().take(path.len() as int) == path.deep_view());
            assert(paths.deep_view().take(p + 1).drop_last() == paths.deep_view().take(p as int));
            assert(paths.deep_view().take(p + 1).last() == path.deep_view());
        }
        p += 1;
    }
    proof {
        assert(paths.deep_view().take(paths.len() as int) == paths.deep_view());
    }
    ids
}

/// Counts how often each identifier occurs.
fn tally(ids: &Vec<String>) -> (counted: (Vec<String>, Vec<usize>))
    ensures
        is_tally(counted.0.deep_view(), counted.1@, ids.deep_view()),
{
    let ghost all = ids.deep_view();
    let mut keys: Vec<String> = Vec::new();
    let mut tallies: Vec<usize> = Vec::new();
    let mut n: usize = 0;
    while n < ids.len()
        invariant
            n <= ids.len(),
            all == ids.deep_view(),
            is_tally(keys.deep_view(), tallies@, all.take(n as int)),
        decreases ids.len() - n,
    {
        let ghost seen = all.take(n as int);
        let ghost next = all.take(n + 1);
        let ghost id = all[n as int];
        let ghost old_keys = keys.deep_view();
        let ghost old_tallies = tallies@;
        proof {
            assert(next.drop_last() == seen);
            assert(next.last() == id);
            assert(id == ids[n as int]@);
            assert forall|key: Seq<char>| seen.contains(key) implies next.contains(key) by {
                let j = choose|j: int| 0 <= j < seen.len() && seen[j] == key;
                assert(next[j] == key);
            }
            assert(next.contains(id)) by {
                assert(next[n as int] == id);
            }
        }
        match position_of(keys.as_slice(), ids[n].as_str()) {
            Some(at) => {
                proof {
                    assert(old_keys[at as int] == id);
                    lemma_occurrences_within_length(seen, id);
                }
                let raised = tallies[at] + 1;
                tallies.set(at, raised);
                proof {
                    assert forall|i: int| 0 <= i < old_keys.len() implies next.contains(
                        #[trigger] old_keys[i],
                    ) && tallies@[i] == occurrences(next, old_keys[i]) by {
                        if i != at {
                            assert(old_keys[i] != old_keys[at as int]);
                        }
                    }
                    assert forall|p: int| 0 <= p < next.len() implies old_keys.contains(
                        #[trigger] next[p],
                    ) by {
                        if p < n {
                            assert(seen[p] == next[p]);
                        }
                    }
                }
            },
            None => {
                keys.push(ids[n].clone());
                tallies.push(1);
                proof {
                    assert(!seen.contains(id)) by {
                        if seen.contains(id) {
                            let p = choose|p: int| 0 <= p < seen.len() && seen[p] == id;
                            assert(old_keys.contains(seen[p]));
                        }
                    }
                    lemma_absent_occurs_never(seen, id);
                    let new_keys = keys.deep_view();
                    assert(new_keys =~= old_keys.push(id));
                    assert forall|i: int| 0 <= i < new_keys.len() implies next.contains(
                        #[trigger] new_keys[i],
                    ) && tallies@[i] == occurrences(next, new_keys[i]) by {
                        if i < old_keys.len() {
                            assert(new_keys[i] == old_keys[i]);
                            assert(old_keys.contains(old_keys[i]));
                        }
                    }
                    assert forall|p: int| 0 <= p < next.len() implies new_keys.contains(
                        #[trigger] next[p],
                    ) by {
                        if p < n {
                            assert(seen[p] == next[p]);
                            let i = choose|i: int| 0 <= i < old_keys.len() && old_keys[i] == seen[p];
                            assert(new_keys[i] == next[p]);
                        } else {
                            assert(new_keys[old_keys.len() as int] == id);
                        }
                    }
                }
            },
        }
        n += 1;
    }
    proof {
        assert(all.take(ids.len() as int) == all);
    }
    (keys, tallies)
}

/// The largest tally: how often the most frequent identifier occurs.
fn largest(tallies: &Vec<usize>, Ghost(keys): Ghost<Seq<Seq<char>>>, Ghost(ids): Ghost<
    Seq<Seq<char>>,
>) -> (top: usize)
    requires
        is_tally(keys, tallies@, ids),
    ensures
        top == top_count(ids),
{
    let mut top: usize = 0;
    let mut i: usize = 0;
    while i < tallies.len()
        invariant
            i <= tallies.len(),
            forall|j: int| 0 <= j < i ==> tallies[j] <= top,
            top == 0 || exists|j: int| 0 <= j < i && tallies[j] == top,
        decreases tallies.len() - i,
    {
        if tallies[i] > top {
            top = tallies[i];
        }
        i += 1;
    }
    proof {
        if ids.len() == 0 {
            if top != 0 {
                let j = choose|j: int| 0 <= j < tallies.len() && tallies[j] == top;
                assert(ids.contains(keys[j]));
            }
        } else {
            let at = lemma_top_among_is_reached(ids, ids.len());
            assert(keys.contains(ids[at]));
            let i = choose|i: int| 0 <= i < keys.len() && keys[i] == ids[at];
            assert(tallies[i] == top_count(ids));
            if top != 0 {
                let j = choose|j: int| 0 <= j < tallies.len() && tallies[j] == top;
                assert(ids.contains(keys[j]));
                let p = choose|p: int| 0 <= p < ids.len() && ids[p] == keys[j];
                lemma_top_among_bounds(ids, ids.len(), p);
            }
        }
    }
    top
}

/// Decides whether several independently resolved paths agree: whether their
/// most frequent identifier makes up at least the threshold's share of all
/// identifiers.
pub struct ConsensusValidator {
    numerator: u64,
    denominator: u64,
}

impl ConsensusValidator {
    /// The threshold's numerator.
    pub closed spec fn numerator(&self) -> nat {
        self.numerator as nat
    }

    /// The threshold's denominator.
    pub closed spec fn denominator(&self) -> nat {
        self.denominator as nat
    }

    /// A validator with the threshold `numerator / denominator`.
    pub fn new(numerator: u64, denominator: u64) -> (validator: ConsensusValidator)
        requires
            denominator > 0,
        ensures
            validator.numerator() == numerator,
            validator.denominator() == denominator,
    {
        ConsensusValidator { numerator, denominator }
    }

    /// The two counts behind the agreement ratio: how often the most frequent
    /// identifier occurs, and how many identifiers there are in all.
    pub fn agreement(paths: &Vec<Vec<String>>) -> (counts: (usize, usize))
        ensures
            counts.0 == top_count(all_ids(paths.deep_view())),
            counts.1 == all_ids(paths.deep_view()).len(),
    {
        let ids = flatten(paths);
        let counted = tally(&ids);
        let top = largest(&counted.1, Ghost(counted.0.deep_view()), Ghost(ids.deep_view()));
        (top, ids.len())
    }

    /// Whether the paths reach the threshold. No paths, or paths without an
    /// identifier, never do.
    pub fn validate_paths(&self, paths: Vec<Vec<String>>) -> (valid: bool)
        ensures
            valid == is_consensus(paths.deep_view(), self.numerator(), self.denominator()),
            paths@.len() == 0 ==> !valid,
    {
        if paths.len() == 0 {
            proof {
                assert(all_ids(paths.deep_view()).len() == 0);
            }
            return false;
        }
        let counts = Self::agreement(&paths);
        let top = counts.0;
        let total = counts.1;
        if total == 0 {
            return false;
        }
        proof {
            assert(top * self.denominator <= u128::MAX && self.numerator * total <= u128::MAX)
                by (nonlinear_arith)
                requires
                    top <= usize::MAX,
                    total <= usize::MAX,
                    self.denominator <= u64::MAX,
                    self.numerator <= u64::MAX,
                    usize::MAX <= u64::MAX,
            ;
        }
        (top as u128) * (self.denominator as u128) >= (self.numerator as u128) * (total as u128)
    }
}

impl Default for ConsensusValidator {
    /// The threshold 66/100.
    fn default() -> (validator: ConsensusValidator)
        ensures
            validator.numerator() == 66,
            validator.denominator() == 100,
    {
        Self::new(66, 100)
    }
}

} // verus!
