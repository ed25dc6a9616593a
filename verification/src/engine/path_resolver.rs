//! Path resolution: a breadth-first walk of the node graph, level by level.
//!
//! The walk starts at every node whose name occurs in the query and follows
//! the nodes' own parent references downwards. It keeps no record of what it
//! has visited: on a tree every node is reported once, on any other graph a
//! node is reported once for every way of reaching it. Every step scans the
//! whole node list for children, so the cost grows with the square of the
//! number of nodes.

use crate::engine::QueryContext;
use crate::entities::node::Node;
use crate::utils::text::{contains, is_substring};
use std::collections::VecDeque;
use vstd::prelude::*;

verus! {

/// A node at which the walk starts: its name occurs in the query.
pub open spec fn is_seed(node: Node, query: Seq<char>) -> bool {
    is_substring(query, node.name@)
}

/// A node that names `parent` as its parent.
pub open spec fn is_child_of(node: Node, parent: Seq<char>) -> bool {
    node.parent_id.deep_view() == Some(parent)
}

/// The identifiers of the seeds, in the order of the node list.
pub open spec fn seed_ids(nodes: Seq<Node>, query: Seq<char>) -> Seq<Seq<char>>
    decreases nodes.len(),
{
    if nodes.len() == 0 {
        Seq::empty()
    } else if is_seed(nodes.last(), query) {
        seed_ids(nodes.drop_last(), query).push(nodes.last().id@)
    } else {
        seed_ids(nodes.drop_last(), query)
    }
}

/// The identifiers of the children of `parent`, in the order of the node list.
pub open spec fn child_ids(nodes: Seq<Node>, parent: Seq<char>) -> Seq<Seq<char>>
    decreases nodes.len(),
{
    if nodes.len() == 0 {
        Seq::empty()
    } else if is_child_of(nodes.last(), parent) {
        child_ids(nodes.drop_last(), parent).push(nodes.last().id@)
    } else {
        child_ids(nodes.drop_last(), parent)
    }
}

/// The children of each of `parents` in turn.
pub open spec fn expand(nodes: Seq<Node>, parents: Seq<Seq<char>>) -> Seq<Seq<char>>
    decreases parents.len(),
{
    if parents.len() == 0 {
        Seq::empty()
    } else {
        expand(nodes, parents.drop_last()) + child_ids(nodes, parents.last())
    }
}

/// What the walk meets `depth` steps below the seeds.
pub open spec fn level(nodes: Seq<Node>, query: Seq<char>, depth: nat) -> Seq<Seq<char>>
    decreases depth,
{
    if depth == 0 {
        seed_ids(nodes, query)
    } else {
        expand(nodes, level(nodes, query, (depth - 1) as nat))
    }
}

/// The levels from the seeds down to `depth`, one after another.
pub open spec fn levels_through(nodes: Seq<Node>, query: Seq<char>, depth: nat) -> Seq<Seq<char>>
    decreases depth,
{
    if depth == 0 {
        level(nodes, query, 0)
    } else {
        levels_through(nodes, query, (depth - 1) as nat) + level(nodes, query, depth)
    }
}

/// The levels above `depth`: nothing above the seeds.
pub open spec fn levels_before(nodes: Seq<Node>, query: Seq<char>, depth: nat) -> Seq<Seq<char>> {
    if depth == 0 {
        Seq::empty()
    } else {
        levels_through(nodes, query, (depth - 1) as nat)
    }
}

/// Below an empty level every level is empty.
pub proof fn lemma_empty_level_stays_empty(
    nodes: Seq<Node>,
    query: Seq<char>,
    depth: nat,
    deeper: nat,
)
    requires
        level(nodes, query, depth).len() == 0,
        depth <= deeper,
    ensures
        level(nodes, query, deeper).len() == 0,
    decreases deeper,
{
    if depth < deeper {
        lemma_empty_level_stays_empty(nodes, query, depth, (deeper - 1) as nat);
    }
}

/// Once a level is empty the walk has seen everything it will ever see.
pub proof fn lemma_walk_ends_at_empty_level(
    nodes: Seq<Node>,
    query: Seq<char>,
    depth: nat,
    bound: nat,
)
    requires
        level(nodes, query, depth).len() == 0,
        depth <= bound + 1,
    ensures
        levels_before(nodes, query, depth) == levels_through(nodes, query, bound),
    decreases bound,
{
    if depth == bound + 1 {
    } else if bound == 0 {
        assert(levels_through(nodes, query, 0) =~= Seq::<Seq<char>>::empty());
    } else {
        lemma_empty_level_stays_empty(nodes, query, depth, bound);
        if depth == bound {
            assert(levels_through(nodes, query, bound) =~= levels_through(
                nodes,
                query,
                (bound - 1) as nat,
            ));
        } else {
            lemma_walk_ends_at_empty_level(nodes, query, depth, (bound - 1) as nat);
            assert(levels_through(nodes, query, bound) =~= levels_through(
                nodes,
                query,
                (bound - 1) as nat,
            ));
        }
    }
}

/// Every identifier on a resolved path was met at a depth within the bound.
pub proof fn lemma_depth_within_bound(nodes: Seq<Node>, query: Seq<char>, bound: nat, at: int)
    requires
        0 <= at < levels_through(nodes, query, bound).len(),
    ensures
        exists|depth: nat, within: int|
            depth <= bound && 0 <= within < level(nodes, query, depth).len() && #[trigger] level(
                nodes,
                query,
                depth,
            )[within] == levels_through(nodes, query, bound)[at],
    decreases bound,
{
    if bound == 0 {
        assert(level(nodes, query, 0)[at] == levels_through(nodes, query, 0)[at]);
    } else {
        let before = levels_through(nodes, query, (bound - 1) as nat);
        if at < before.len() {
            lemma_depth_within_bound(nodes, query, (bound - 1) as nat, at);
        } else {
            assert(level(nodes, query, bound)[at - before.len()] == levels_through(
                nodes,
                query,
                bound,
            )[at]);
        }
    }
}

/// Every node that names a parent lies one level below that parent.
pub open spec fn depths_agree(nodes: Seq<Node>) -> bool {
    forall|i: int, j: int|
        0 <= i < nodes.len() && 0 <= j < nodes.len() && is_child_of(
            #[trigger] nodes[i],
            (#[trigger] nodes[j]).id@,
        ) ==> nodes[i].depth == nodes[j].depth + 1
}

/// Every seed lies at depth zero.
pub open spec fn seeds_are_roots(nodes: Seq<Node>, query: Seq<char>) -> bool {
    forall|i: int| 0 <= i < nodes.len() && is_seed(#[trigger] nodes[i], query) ==> nodes[i].depth == 0
}

/// Some node has this identifier and lies at this depth.
pub open spec fn lies_at(nodes: Seq<Node>, id: Seq<char>, depth: nat) -> bool {
    exists|i: int| 0 <= i < nodes.len() && (#[trigger] nodes[i]).id@ == id && nodes[i].depth == depth
}

/// Every seed identifier is the identifier of a seed.
pub proof fn lemma_seed_is_a_node(nodes: Seq<Node>, query: Seq<char>, within: int) -> (at: int)
    requires
        0 <= within < seed_ids(nodes, query).len(),
    ensures
        0 <= at < nodes.len(),
        is_seed(nodes[at], query),
        nodes[at].id@ == seed_ids(nodes, query)[within],
    decreases nodes.len(),
{
    let front = nodes.drop_last();
    if is_seed(nodes.last(), query) && within == seed_ids(front, query).len() {
        nodes.len() - 1
    } else {
        let at = lemma_seed_is_a_node(front, query, within);
        assert(front[at] == nodes[at]);
        at
    }
}

/// Every child identifier is the identifier of a child.
pub proof fn lemma_child_is_a_node(nodes: Seq<Node>, parent: Seq<char>, within: int) -> (at: int)
    requires
        0 <= within < child_ids(nodes, parent).len(),
    ensures
        0 <= at < nodes.len(),
        is_child_of(nodes[at], parent),
        nodes[at].id@ == child_ids(nodes, parent)[within],
    decreases nodes.len(),
{
    let front = nodes.drop_last();
    if is_child_of(nodes.last(), parent) && within == child_ids(front, parent).len() {
        nodes.len() - 1
    } else {
        let at = lemma_child_is_a_node(front, parent, within);
        assert(front[at] == nodes[at]);
        at
    }
}

/// Every identifier of an expansion is a child of one of the parents.
pub proof fn lemma_expansion_has_a_parent(
    nodes: Seq<Node>,
    parents: Seq<Seq<char>>,
    within: int,
) -> (found: (int, int))
    requires
        0 <= within < expand(nodes, parents).len(),
    ensures
        0 <= found.0 < parents.len(),
        0 <= found.1 < child_ids(nodes, parents[found.0]).len(),
        child_ids(nodes, parents[found.0])[found.1] == expand(nodes, parents)[within],
    decreases parents.len(),
{
    let front = expand(nodes, parents.drop_last());
    if within < front.len() {
        let found = lemma_expansion_has_a_parent(nodes, parents.drop_last(), within);
        assert(parents.drop_last()[found.0] == parents[found.0]);
        found
    } else {
        (parents.len() - 1, within - front.len())
    }
}

/// Where depths agree and the seeds are roots, what the walk meets at a level
/// is a node that lies at the depth of that level.
pub proof fn lemma_level_lies_at_its_depth(
    nodes: Seq<Node>,
    query: Seq<char>,
    depth: nat,
    within: int,
)
    requires
        depths_agree(nodes),
        seeds_are_roots(nodes, query),
        0 <= within < level(nodes, query, depth).len(),
    ensures
        lies_at(nodes, level(nodes, query, depth)[within], depth),
    decreases depth,
{
    if depth == 0 {
        let at = lemma_seed_is_a_node(nodes, query, within);
        assert(nodes[at].depth == 0);
    } else {
        let above = level(nodes, query, (depth - 1) as nat);
        let found = lemma_expansion_has_a_parent(nodes, above, within);
        let child = lemma_child_is_a_node(nodes, above[found.0], found.1);
        lemma_level_lies_at_its_depth(nodes, query, (depth - 1) as nat, found.0);
        let parent = choose|i: int|
            0 <= i < nodes.len() && (#[trigger] nodes[i]).id@ == above[found.0] && nodes[i].depth
                == depth - 1;
        assert(is_child_of(nodes[child], nodes[parent].id@));
        assert(nodes[child].depth == depth);
    }
}

/// Where depths agree and the seeds are roots, no identifier on a resolved
/// path is that of a node deeper than the bound.
pub proof fn lemma_resolved_nodes_within_bound(
    nodes: Seq<Node>,
    query: Seq<char>,
    bound: nat,
    at: int,
)
    requires
        depths_agree(nodes),
        seeds_are_roots(nodes, query),
        0 <= at < levels_through(nodes, query, bound).len(),
    ensures
        exists|depth: nat|
            depth <= bound && #[trigger] lies_at(
                nodes,
                levels_through(nodes, query, bound)[at],
                depth,
            ),
{
    lemma_depth_within_bound(nodes, query, bound, at);
    let (depth, within) = choose|depth: nat, within: int|
        depth <= bound && 0 <= within < level(nodes, query, depth).len() && #[trigger] level(
            nodes,
            query,
            depth,
        )[within] == levels_through(nodes, query, bound)[at];
    lemma_level_lies_at_its_depth(nodes, query, depth, within);
}

/// No two nodes have the same identifier.
pub open spec fn ids_are_distinct(nodes: Seq<Node>) -> bool {
    forall|i: int, j: int|
        0 <= i < j < nodes.len() ==> (#[trigger] nodes[i]).id@ != (#[trigger] nodes[j]).id@
}

/// No seed names a parent.
pub open spec fn seeds_are_parentless(nodes: Seq<Node>, query: Seq<char>) -> bool {
    forall|i: int|
        0 <= i < nodes.len() && is_seed(#[trigger] nodes[i], query) ==> nodes[i].parent_id is None
}

/// Among nodes with distinct identifiers no seed is listed twice.
pub proof fn lemma_seeds_are_distinct(nodes: Seq<Node>, query: Seq<char>)
    requires
        ids_are_distinct(nodes),
    ensures
        seed_ids(nodes, query).no_duplicates(),
    decreases nodes.len(),
{
    if nodes.len() > 0 {
        let front = nodes.drop_last();
        assert(ids_are_distinct(front)) by {
            assert forall|i: int, j: int| 0 <= i < j < front.len() implies (
            #[trigger] front[i]).id@ != (#[trigger] front[j]).id@ by {
                assert(front[i] == nodes[i] && front[j] == nodes[j]);
            }
        }
        lemma_seeds_are_distinct(front, query);
        if is_seed(nodes.last(), query) {
            let found = seed_ids(front, query);
            assert forall|w: int| 0 <= w < found.len() implies found[w] != nodes.last().id@ by {
                let at = lemma_seed_is_a_node(front, query, w);
                assert(front[at] == nodes[at]);
                assert(nodes[nodes.len() - 1] == nodes.last());
            }
        }
    }
}

/// Among nodes with distinct identifiers no child of a parent is listed
/// twice.
pub proof fn lemma_children_are_distinct(nodes: Seq<Node>, parent: Seq<char>)
    requires
        ids_are_distinct(nodes),
    ensures
        child_ids(nodes, parent).no_duplicates(),
    decreases nodes.len(),
{
    if nodes.len() > 0 {
        let front = nodes.drop_last();
        assert(ids_are_distinct(front)) by {
            assert forall|i: int, j: int| 0 <= i < j < front.len() implies (
            #[trigger] front[i]).id@ != (#[trigger] front[j]).id@ by {
                assert(front[i] == nodes[i] && front[j] == nodes[j]);
            }
        }
        lemma_children_are_distinct(front, parent);
        if is_child_of(nodes.last(), parent) {
            let found = child_ids(front, parent);
            assert forall|w: int| 0 <= w < found.len() implies found[w] != nodes.last().id@ by {
                let at = lemma_child_is_a_node(front, parent, w);
                assert(front[at] == nodes[at]);
                assert(nodes[nodes.len() - 1] == nodes.last());
            }
        }
    }
}

/// Among nodes with distinct identifiers two nodes with the same identifier
/// are one node.
proof fn lemma_same_id_same_node(nodes: Seq<Node>, first: int, second: int)
    requires
        ids_are_distinct(nodes),
        0 <= first < nodes.len(),
        0 <= second < nodes.len(),
        nodes[first].id@ == nodes[second].id@,
    ensures
        first == second,
{
    if first < second {
        assert(nodes[first].id@ != nodes[second].id@);
    } else if second < first {
        assert(nodes[second].id@ != nodes[first].id@);
    }
}

/// Among nodes with distinct identifiers the children of distinct parents
/// are listed once in all.
pub proof fn lemma_expansion_is_distinct(nodes: Seq<Node>, parents: Seq<Seq<char>>)
    requires
        ids_are_distinct(nodes),
        parents.no_duplicates(),
    ensures
        expand(nodes, parents).no_duplicates(),
    decreases parents.len(),
{
    if parents.len() > 0 {
        let front = parents.drop_last();
        let before = expand(nodes, front);
        let last = child_ids(nodes, parents.last());
        lemma_expansion_is_distinct(nodes, front);
        lemma_children_are_distinct(nodes, parents.last());
        assert forall|i: int, j: int| 0 <= i < before.len() && 0 <= j < last.len() implies before[i]
            != last[j] by {
            let found = lemma_expansion_has_a_parent(nodes, front, i);
            let one = lemma_child_is_a_node(nodes, front[found.0], found.1);
            let other = lemma_child_is_a_node(nodes, parents.last(), j);
            assert(front[found.0] == parents[found.0]);
            assert(parents[found.0] != parents[parents.len() - 1]);
            if before[i] == last[j] {
                lemma_same_id_same_node(nodes, one, other);
            }
        }
        vstd::seq_lib::lemma_no_dup_in_concat(before, last);
    }
}

/// Among nodes with distinct identifiers no level lists an identifier twice.
pub proof fn lemma_level_is_distinct(nodes: Seq<Node>, query: Seq<char>, depth: nat)
    requires
        ids_are_distinct(nodes),
    ensures
        level(nodes, query, depth).no_duplicates(),
    decreases depth,
{
    if depth == 0 {
        lemma_seeds_are_distinct(nodes, query);
    } else {
        lemma_level_is_distinct(nodes, query, (depth - 1) as nat);
        lemma_expansion_is_distinct(nodes, level(nodes, query, (depth - 1) as nat));
    }
}

/// Among nodes with distinct identifiers whose seeds name no parent, no
/// identifier stands on two levels.
pub proof fn lemma_levels_are_disjoint(
    nodes: Seq<Node>,
    query: Seq<char>,
    upper: nat,
    lower: nat,
    above: int,
    below: int,
)
    requires
        ids_are_distinct(nodes),
        seeds_are_parentless(nodes, query),
        upper < lower,
        0 <= above < level(nodes, query, upper).len(),
        0 <= below < level(nodes, query, lower).len(),
    ensures
        level(nodes, query, upper)[above] != level(nodes, query, lower)[below],
    decreases upper,
{
    let high = level(nodes, query, upper);
    let low = level(nodes, query, lower);
    if high[above] == low[below] {
        let low_parents = level(nodes, query, (lower - 1) as nat);
        let low_found = lemma_expansion_has_a_parent(nodes, low_parents, below);
        let low_node = lemma_child_is_a_node(nodes, low_parents[low_found.0], low_found.1);
        if upper == 0 {
            let seed = lemma_seed_is_a_node(nodes, query, above);
            lemma_same_id_same_node(nodes, seed, low_node);
        } else {
            let high_parents = level(nodes, query, (upper - 1) as nat);
            let high_found = lemma_expansion_has_a_parent(nodes, high_parents, above);
            let high_node = lemma_child_is_a_node(
                nodes,
                high_parents[high_found.0],
                high_found.1,
            );
            lemma_same_id_same_node(nodes, high_node, low_node);
            lemma_levels_are_disjoint(
                nodes,
                query,
                (upper - 1) as nat,
                (lower - 1) as nat,
                high_found.0,
                low_found.0,
            );
        }
    }
}

/// On a forest walked from its roots no node is reported twice: where the
/// nodes have distinct identifiers and no seed names a parent, a resolved
/// path holds no identifier twice.
pub proof fn lemma_forest_is_walked_once(nodes: Seq<Node>, query: Seq<char>, bound: nat)
    requires
        ids_are_distinct(nodes),
        seeds_are_parentless(nodes, query),
    ensures
        levels_through(nodes, query, bound).no_duplicates(),
    decreases bound,
{
    lemma_level_is_distinct(nodes, query, bound);
    if bound > 0 {
        let before = levels_through(nodes, query, (bound - 1) as nat);
        let last = level(nodes, query, bound);
        lemma_forest_is_walked_once(nodes, query, (bound - 1) as nat);
        assert forall|i: int, j: int| 0 <= i < before.len() && 0 <= j < last.len() implies before[i]
            != last[j] by {
            lemma_depth_within_bound(nodes, query, (bound - 1) as nat, i);
            let (depth, within) = choose|depth: nat, within: int|
                depth <= bound - 1 && 0 <= within < level(nodes, query, depth).len()
                    && #[trigger] level(nodes, query, depth)[within] == before[i];
            lemma_levels_are_disjoint(nodes, query, depth, bound, within, j);
        }
        vstd::seq_lib::lemma_no_dup_in_concat(before, last);
    }
}

/// What stands in the work queue: identifiers with the depth they were met at.
spec fn tagged(ids: Seq<Seq<char>>, depth: nat) -> Seq<(Seq<char>, nat)> {
    ids.map_values(|id: Seq<char>| (id, depth))
}

/// The work queue as identifiers and depths.
spec fn queue_model(queue: Seq<(String, u128)>) -> Seq<(Seq<char>, nat)> {
    queue.map_values(|entry: (String, u128)| (entry.0@, entry.1 as nat))
}

pub struct PathResolver {
    max_depth: usize,
}

impl PathResolver {
    /// The deepest level that is still reported.
    pub closed spec fn max_depth(&self) -> nat {
        self.max_depth as nat
    }

    /// A resolver that reports the seeds and 32 levels below them.
    pub fn new() -> (resolver: PathResolver)
        ensures
            resolver.max_depth() == 32,
    {
        PathResolver { max_depth: 32 }
    }

    /// A resolver that reports the seeds and `max_depth` levels below them.
    pub fn with_max_depth(max_depth: usize) -> (resolver: PathResolver)
        ensures
            resolver.max_depth() == max_depth,
    {
        PathResolver { max_depth }
    }

    /// The identifiers met by a breadth-first walk from the nodes whose name
    /// occurs in the query, down to the deepest level that is reported.
    ///
    /// The walk works through a first-in-first-out queue and gives up as soon
    /// as it takes an entry from below the bound out of the queue. Depths in
    /// the queue never fall, so nothing within the bound is waiting behind
    /// such an entry: the path is exactly the levels down to the bound.
    pub fn resolve(&self, context: &QueryContext, nodes: &[Node]) -> (path: Vec<String>)
        ensures
            path.deep_view() == levels_through(nodes@, context.query@, self.max_depth()),
    {
        let ghost all = nodes@;
        let ghost query = context.query@;
        let ghost bound = self.max_depth();
        let mut path: Vec<String> = Vec::new();
        let mut queue: VecDeque<(String, u128)> = VecDeque::new();

        let mut s: usize = 0;
        while s < nodes.len()
            invariant
                s <= nodes.len(),
                all == nodes@,
                query == context.query@,
                queue_model(queue@) == tagged(seed_ids(all.take(s as int), query), 0),
            decreases nodes.len() - s,
        {
            proof {
                assert(all.take(s + 1).drop_last() == all.take(s as int));
                assert(all.take(s + 1).last() == all[s as int]);
            }
            if contains(context.query.as_str(), nodes[s].name.as_str()) {
                let ghost waiting = queue@;
                let ghost found = seed_ids(all.take(s as int), query);
                queue.push_back((nodes[s].id.clone(), 0));
                proof {
                    assert(queue@ == waiting.push(queue@.last()));
                    assert(queue_model(queue@) =~= queue_model(waiting).push((all[s as int].id@, 0)));
                    assert(tagged(found.push(all[s as int].id@), 0) =~= tagged(found, 0).push(
                        (all[s as int].id@, 0),
                    ));
                }
            }
            s += 1;
        }
        proof {
            assert(all.take(nodes.len() as int) == all);
            assert(path.deep_view() =~= Seq::<Seq<char>>::empty());
            assert(level(all, query, 0).take(0) =~= Seq::<Seq<char>>::empty());
            assert(level(all, query, 0).skip(0) =~= level(all, query, 0));
            assert(tagged(expand(all, Seq::<Seq<char>>::empty()), 1) =~= Seq::<
                (Seq<char>, nat),
            >::empty());
        }

        let ghost mut d: nat = 0;
        let ghost mut k: int = 0;
        loop
            invariant_except_break
                all == nodes@,
                query == context.query@,
                bound == self.max_depth(),
                d <= bound + 1,
                0 <= k <= level(all, query, d).len(),
                k == 0 || k < level(all, query, d).len(),
                d == bound + 1 ==> k == 0,
                path.deep_view() == levels_before(all, query, d) + level(all, query, d).take(k),
                queue_model(queue@) == tagged(level(all, query, d).skip(k), d) + tagged(
                    expand(all, level(all, query, d).take(k)),
                    d + 1,
                ),
            ensures
                path.deep_view() == levels_through(all, query, bound),
            decreases bound + 1 - d, level(all, query, d).len() - k,
        {
            let ghost here = level(all, query, d);
            let ghost waiting = queue_model(queue@);
            let ghost path_before = path.deep_view();
            match queue.pop_front() {
                None => {
                    proof {
                        assert(waiting.len() == 0);
                        assert(tagged(here.skip(k), d).len() == 0);
                        assert(here.len() == 0);
                        assert(here.take(k) =~= Seq::<Seq<char>>::empty());
                        lemma_walk_ends_at_empty_level(all, query, d, bound);
                        assert(path.deep_view() =~= levels_before(all, query, d));
                    }
                    break ;
                },
                Some(entry) => {
                    let node_id = entry.0;
                    let depth = entry.1;
                    proof {
                        assert(waiting.len() > 0);
                        assert(waiting[0] == (node_id@, depth as nat));
                        if here.len() == 0 {
                            assert(here.take(k) =~= Seq::<Seq<char>>::empty());
                            assert(waiting =~= Seq::<(Seq<char>, nat)>::empty());
                        }
                        assert(k < here.len());
                        assert(tagged(here.skip(k), d)[0] == (here[k], d));
                        assert(node_id@ == here[k]);
                        assert(depth == d);
                    }
                    if depth > self.max_depth as u128 {
                        proof {
                            assert(d == bound + 1);
                            assert(k == 0);
                            assert(here.take(0) =~= Seq::<Seq<char>>::empty());
                            assert(path.deep_view() =~= levels_through(all, query, bound));
                        }
                        break ;
                    }
                    path.push(node_id.clone());
                    let ghost rest = tagged(here.skip(k + 1), d) + tagged(
                        expand(all, here.take(k)),
                        d + 1,
                    );
                    proof {
                        assert(path.deep_view() =~= path_before.push(node_id@));
                        assert(path.deep_view() =~= levels_before(all, query, d) + here.take(
                            k + 1,
                        ));
                        assert(queue_model(queue@) =~= waiting.subrange(1, waiting.len() as int));
                        assert(queue_model(queue@) =~= rest);
                    }
                    let mut j: usize = 0;
                    while j < nodes.len()
                        invariant
                            j <= nodes.len(),
                            all == nodes@,
                            depth == d,
                            d <= bound,
                            bound <= usize::MAX,
                            queue_model(queue@) == rest + tagged(
                                child_ids(all.take(j as int), node_id@),
                                d + 1,
                            ),
                        decreases nodes.len() - j,
                    {
                        proof {
                            assert(all.take(j + 1).drop_last() == all.take(j as int));
                            assert(all.take(j + 1).last() == all[j as int]);
                        }
                        let is_child = match &nodes[j].parent_id {
                            Some(parent) => *parent == node_id,
                            None => false,
                        };
                        if is_child {
                            let ghost waiting = queue@;
                            let ghost found = child_ids(all.take(j as int), node_id@);
                            let ghost child = (all[j as int].id@, (d + 1) as nat);
                            queue.push_back((nodes[j].id.clone(), depth + 1));
                            proof {
                                assert(queue@ == waiting.push(queue@.last()));
                                assert(queue_model(queue@) =~= queue_model(waiting).push(child));
                                assert(tagged(found.push(all[j as int].id@), d + 1) =~= tagged(
                                    found,
                                    d + 1,
                                ).push(child));
                                assert(queue_model(queue@) =~= rest + tagged(
                                    child_ids(all.take(j + 1), node_id@),
                                    d + 1,
                                ));
                            }
                        }
                        j += 1;
                    }
                    proof {
                        assert(all.take(nodes.len() as int) == all);
                        assert(here.take(k + 1).drop_last() == here.take(k));
                        assert(here.take(k + 1).last() == here[k]);
                        assert(expand(all, here.take(k + 1)) == expand(all, here.take(k))
                            + child_ids(all, here[k]));
                        assert(queue_model(queue@) =~= tagged(here.skip(k + 1), d) + tagged(
                            expand(all, here.take(k + 1)),
                            d + 1,
                        ));
                        if k + 1 < here.len() {
                            k = k + 1;
                        } else {
                            let below = level(all, query, d + 1);
                            assert(here.take(k + 1) =~= here);
                            assert(below == expand(all, here));
                            assert(here.skip(k + 1) =~= Seq::<Seq<char>>::empty());
                            assert(below.skip(0) =~= below);
                            assert(below.take(0) =~= Seq::<Seq<char>>::empty());
                            assert(queue_model(queue@) =~= tagged(below.skip(0), d + 1) + tagged(
                                expand(all, below.take(0)),
                                d + 2,
                            ));
                            assert(levels_before(all, query, d + 1) =~= levels_before(
                                all,
                                query,
                                d,
                            ) + here);
                            assert(path.deep_view() =~= levels_before(all, query, d + 1)
                                + below.take(0));
                            d = d + 1;
                            k = 0;
                        }
                    }
                },
            }
        }
        path
    }
}

impl Default for PathResolver {
    fn default() -> (resolver: PathResolver)
        ensures
            resolver.max_depth() == 32,
    {
        Self::new()
    }
}

} // verus!
