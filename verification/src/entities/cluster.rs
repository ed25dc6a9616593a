//! Clusters: named groups of nodes.
//!
//! A cluster's cohesion is the mean distance over the pairs of its members
//! that are both known. Every such pair counts with the distance one, so the
//! record keeps the number of pairs: the cohesion is one where there is a
//! pair and zero where there is none, as with no member or a single one.

use crate::entities::node::Node;
use crate::utils::clock::Timestamp;
use crate::utils::ident::{fresh_id, is_uuid_text};
use crate::utils::text::{lemma_without_set, other_than, position_of, without};
use vstd::prelude::*;

verus! {

#[derive(Debug, Clone)]
pub enum ClusterType {
    Functional,
    Architectural,
    Semantic,
    Temporal,
    Custom(String),
}

/// `properties` pairs a key with a JSON text.
#[derive(Debug, Clone)]
pub struct ClusterMetadata {
    pub creation_time: Timestamp,
    pub member_count: usize,
    pub properties: Vec<(String, String)>,
}

/// A group of nodes. `node_ids` is a set kept as a list: the order is that of
/// insertion and no identifier is listed twice.
#[derive(Debug, Clone)]
pub struct Cluster {
    pub id: String,
    pub name: String,
    pub node_ids: Vec<String>,
    pub linked_pairs: u128,
    pub cluster_type: ClusterType,
    pub metadata: ClusterMetadata,
}

/// Some node in `nodes` has the identifier `id`.
pub open spec fn is_known(nodes: Seq<Node>, id: Seq<char>) -> bool {
    exists|i: int| 0 <= i < nodes.len() && (#[trigger] nodes[i]).id@ == id
}

/// How many of `members` are known among `nodes`.
pub open spec fn known_members(members: Seq<Seq<char>>, nodes: Seq<Node>) -> nat
    decreases members.len(),
{
    if members.len() == 0 {
        0
    } else if is_known(nodes, members.last()) {
        known_members(members.drop_last(), nodes) + 1
    } else {
        known_members(members.drop_last(), nodes)
    }
}

/// The number of pairs that can be formed of `count` things.
pub open spec fn pairs_of(count: nat) -> nat {
    (count * (count - 1) / 2) as nat
}

/// Whether some node in `nodes` has the identifier `id`.
fn knows(nodes: &[Node], id: &String) -> (known: bool)
    ensures
        known == is_known(nodes@, id@),
{
    let mut i: usize = 0;
    while i < nodes.len()
        invariant
            i <= nodes.len(),
            forall|j: int| 0 <= j < i ==> (#[trigger] nodes[j]).id@ != id@,
        decreases nodes.len() - i,
    {
        if nodes[i].id == *id {
            return true;
        }
        i += 1;
    }
    false
}

impl Cluster {
    /// The identifiers of the members, as a set.
    pub open spec fn member_set(&self) -> Set<Seq<char>> {
        self.node_ids.deep_view().to_set()
    }

    /// No member is listed twice, and the member count is the number of
    /// members.
    pub open spec fn wf(&self) -> bool {
        &&& self.node_ids.deep_view().no_duplicates()
        &&& self.metadata.member_count == self.node_ids@.len()
    }

    /// A cluster as `new` leaves it, whatever its identity and age: no
    /// members, no pairs, no properties.
    pub open spec fn is_vacant(&self) -> bool {
        &&& self.node_ids@.len() == 0
        &&& self.linked_pairs == 0
        &&& self.metadata.member_count == 0
        &&& self.metadata.properties@.len() == 0
    }

    /// An empty cluster with a fresh random identifier, created now.
    pub fn new(name: String, cluster_type: ClusterType) -> (cluster: Cluster)
        ensures
            is_uuid_text(cluster.id@),
            cluster.name == name,
            cluster.cluster_type == cluster_type,
            cluster.is_vacant(),
            cluster.wf(),
    {
        Self::with_id_at(fresh_id(), Timestamp::now(), name, cluster_type)
    }

    /// An empty cluster with the identifier and the time of creation given.
    pub fn with_id_at(id: String, creation_time: Timestamp, name: String, cluster_type: ClusterType) -> (cluster:
        Cluster)
        ensures
            cluster.id == id,
            cluster.metadata.creation_time == creation_time,
            cluster.name == name,
            cluster.cluster_type == cluster_type,
            cluster.is_vacant(),
            cluster.wf(),
    {
        Cluster {
            id,
            name,
            node_ids: Vec::new(),
            linked_pairs: 0,
            cluster_type,
            metadata: ClusterMetadata { creation_time, member_count: 0, properties: Vec::new() },
        }
    }

    /// Makes `node_id` a member unless it is one already, and sets the member
    /// count to the number of members.
    pub fn add_node(&mut self, node_id: String)
        ensures
            final(self).member_set() == old(self).member_set().insert(node_id@),
            final(self).node_ids.deep_view() == if old(self).node_ids.deep_view().contains(
                node_id@,
            ) {
                old(self).node_ids.deep_view()
            } else {
                old(self).node_ids.deep_view().push(node_id@)
            },
            final(self).metadata.member_count == final(self).node_ids@.len(),
            old(self).node_ids.deep_view().no_duplicates() ==> final(self).wf(),
            *final(self) == (Cluster {
                node_ids: final(self).node_ids,
                metadata: ClusterMetadata {
                    member_count: final(self).metadata.member_count,
                    ..old(self).metadata
                },
                ..*old(self)
            }),
    {
        let ghost before = self.node_ids.deep_view();
        match position_of(self.node_ids.as_slice(), node_id.as_str()) {
            Some(at) => {
                proof {
                    assert(before[at as int] == node_id@);
                    assert(before.to_set() =~= before.to_set().insert(node_id@));
                }
            },
            None => {
                self.node_ids.push(node_id);
                proof {
                    assert(self.node_ids.deep_view() =~= before.push(node_id@));
                    before.lemma_push_to_set_commute(node_id@);
                }
            },
        }
        self.metadata.member_count = self.node_ids.len();
    }

    /// Takes `node_id` out of the members, the others keeping their order,
    /// and sets the member count to the number of members.
    pub fn remove_node(&mut self, node_id: &str)
        ensures
            final(self).node_ids.deep_view() == old(self).node_ids.deep_view().filter(
                other_than(node_id@),
            ),
            final(self).member_set() == old(self).member_set().remove(node_id@),
            final(self).metadata.member_count == final(self).node_ids@.len(),
            old(self).node_ids.deep_view().no_duplicates() ==> final(self).wf(),
            *final(self) == (Cluster {
                node_ids: final(self).node_ids,
                metadata: ClusterMetadata {
                    member_count: final(self).metadata.member_count,
                    ..old(self).metadata
                },
                ..*old(self)
            }),
    {
        let kept = without(self.node_ids.as_slice(), node_id);
        proof {
            lemma_without_set(self.node_ids.deep_view(), node_id@);
        }
        self.node_ids = kept;
        self.metadata.member_count = self.node_ids.len();
    }

    /// Counts the pairs of members that are both known among `nodes`: of the
    /// members that are known, every two form a pair.
    pub fn compute_cohesion(&mut self, nodes: &[Node])
        ensures
            final(self).linked_pairs == pairs_of(
                known_members(old(self).node_ids.deep_view(), nodes@),
            ),
            *final(self) == (Cluster { linked_pairs: final(self).linked_pairs, ..*old(self) }),
    {
        let ghost members = self.node_ids.deep_view();
        let mut known: usize = 0;
        let mut i: usize = 0;
        while i < self.node_ids.len()
            invariant
                i <= self.node_ids.len(),
                members == self.node_ids.deep_view(),
                known == known_members(members.take(i as int), nodes@),
                known <= i,
            decreases self.node_ids.len() - i,
        {
            proof {
                assert(members.take(i + 1).drop_last() == members.take(i as int));
                assert(members.take(i + 1).last() == self.node_ids[i as int]@);
            }
            if knows(nodes, &self.node_ids[i]) {
                known += 1;
            }
            i += 1;
        }
        proof {
            assert(members.take(self.node_ids.len() as int) == members);
        }
        if known == 0 {
            self.linked_pairs = 0;
        } else {
            proof {
                assert(known * (known - 1) <= u128::MAX) by (nonlinear_arith)
                    requires
                        1 <= known <= u64::MAX,
                ;
            }
            self.linked_pairs = (known as u128) * ((known - 1) as u128) / 2;
        }
    }
}

} // verus!
