//! Dual-path validation: a node path held against a cluster path.

use crate::utils::text::position_of;
use vstd::prelude::*;

verus! {

/// What is said of a node path and a cluster path of the given lengths.
pub open spec fn verdict(node_steps: nat, cluster_steps: nat) -> Seq<char> {
    if node_steps == 0 && cluster_steps == 0 {
        "INVALID: No paths provided"@
    } else if node_steps >= cluster_steps {
        "VALID: Dual path consensus established"@
    } else {
        "WARNING: Cluster path exceeds node path"@
    }
}

/// Some identifier stands on both paths.
pub open spec fn share_an_element(first: Seq<Seq<char>>, second: Seq<Seq<char>>) -> bool {
    exists|id: Seq<char>| first.contains(id) && second.contains(id)
}

pub struct DualPathValidator;

impl DualPathValidator {
    pub fn new() -> DualPathValidator {
        DualPathValidator
    }

    /// The verdict on a node path and a cluster path: invalid where both are
    /// empty, valid where the node path is at least as long as the cluster
    /// path, a warning otherwise.
    pub fn validate(&self, node_path: &[String], cluster_path: &[String]) -> (status: String)
        ensures
            status@ == verdict(node_path@.len(), cluster_path@.len()),
    {
        if node_path.len() == 0 && cluster_path.len() == 0 {
            "INVALID: No paths provided".to_owned()
        } else if node_path.len() >= cluster_path.len() {
            "VALID: Dual path consensus established".to_owned()
        } else {
            "WARNING: Cluster path exceeds node path".to_owned()
        }
    }

    /// Whether the two paths have an identifier in common. Two paths of which
    /// one is empty have none.
    pub fn cross_validate(&self, path1: &[String], path2: &[String]) -> (agree: bool)
        ensures
            agree == share_an_element(path1.deep_view(), path2.deep_view()),
            path1@.len() == 0 || path2@.len() == 0 ==> !agree,
    {
        let mut i: usize = 0;
        while i < path1.len()
            invariant
                i <= path1.len(),
                forall|j: int|
                    0 <= j < i ==> !path2.deep_view().contains(#[trigger] path1.deep_view()[j]),
            decreases path1.len() - i,
        {
            match position_of(path2, path1[i].as_str()) {
                Some(at) => {
                    proof {
                        let id = path1[i as int]@;
                        assert(path1.deep_view()[i as int] == id);
                        assert(path2.deep_view()[at as int] == id);
                        assert(path1.deep_view().contains(id) && path2.deep_view().contains(id));
                    }
                    return true;
                },
                None => {
                    proof {
                        assert(path1.deep_view()[i as int] == path1[i as int]@);
                    }
                },
            }
            i += 1;
        }
        proof {
            if share_an_element(path1.deep_view(), path2.deep_view()) {
                let id = choose|id: Seq<char>|
                    path1.deep_view().contains(id) && path2.deep_view().contains(id);
                let j = choose|j: int|
                    0 <= j < path1.deep_view().len() && path1.deep_view()[j] == id;
                assert(!path2.deep_view().contains(path1.deep_view()[j]));
            }
        }
        false
    }
}

} // verus!
