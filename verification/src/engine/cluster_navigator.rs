//! Cluster navigation: the clusters whose name occurs in the query.

use crate::engine::store::{cluster_records, cluster_values, walks};
use crate::engine::QueryContext;
use crate::entities::cluster::Cluster;
use crate::utils::text::{contains, is_substring};
use dashmap::DashMap;
use vstd::prelude::*;

verus! {

/// The identifiers of those of `clusters` whose name occurs in `query`, in
/// the order of `clusters`.
pub open spec fn matching_cluster_ids(clusters: Seq<Cluster>, query: Seq<char>) -> Seq<Seq<char>>
    decreases clusters.len(),
{
    if clusters.len() == 0 {
        Seq::empty()
    } else if is_substring(query, clusters.last().name@) {
        matching_cluster_ids(clusters.drop_last(), query).push(clusters.last().id@)
    } else {
        matching_cluster_ids(clusters.drop_last(), query)
    }
}

pub struct ClusterNavigator {
    visited_clusters: Vec<String>,
}

impl ClusterNavigator {
    /// The clusters marked as visited, in the order in which they were marked.
    pub closed spec fn visited(&self) -> Seq<Seq<char>> {
        self.visited_clusters.deep_view()
    }

    pub fn new() -> (navigator: ClusterNavigator)
        ensures
            navigator.visited().len() == 0,
    {
        ClusterNavigator { visited_clusters: Vec::new() }
    }

    /// The cluster path of a query over a map of clusters, read live: the
    /// identifier of every cluster whose name occurs in the query, in the
    /// order in which the map happens to be walked. Every cluster is looked at
    /// once; there is no bound on depth and no tie-break.
    pub fn navigate(&self, context: &QueryContext, clusters: &DashMap<String, Cluster>) -> (path:
        Vec<String>)
        ensures
            exists|walk: Seq<Cluster>| #[trigger]
                walks(walk, cluster_records(*clusters)) && path.deep_view()
                    == matching_cluster_ids(walk, context.query@),
    {
        let walk = cluster_values(clusters);
        self.navigate_listed(context, walk.as_slice())
    }

    /// The cluster path of a query over clusters that are listed already: the
    /// identifier of every cluster whose name occurs in the query, in the
    /// order of the list.
    pub fn navigate_listed(&self, context: &QueryContext, clusters: &[Cluster]) -> (path: Vec<
        String,
    >)
        ensures
            path.deep_view() == matching_cluster_ids(clusters@, context.query@),
    {
        let ghost all = clusters@;
        let mut path: Vec<String> = Vec::new();
        let mut i: usize = 0;
        while i < clusters.len()
            invariant
                i <= clusters.len(),
                all == clusters@,
                path.deep_view() == matching_cluster_ids(all.take(i as int), context.query@),
            decreases clusters.len() - i,
        {
            proof {
                assert(all.take(i + 1).drop_last() == all.take(i as int));
                assert(all.take(i + 1).last() == all[i as int]);
            }
            if contains(context.query.as_str(), clusters[i].name.as_str()) {
                let ghost found = path.deep_view();
                path.push(clusters[i].id.clone());
                proof {
                    assert(path.deep_view() =~= found.push(all[i as int].id@));
                }
            }
            i += 1;
        }
        proof {
            assert(all.take(clusters.len() as int) == all);
        }
        path
    }

    /// The clusters marked as visited, in the order in which they were marked.
    pub fn visited_clusters(&self) -> (visited: &[String])
        ensures
            visited.deep_view() == self.visited(),
    {
        self.visited_clusters.as_slice()
    }

    /// Notes that a cluster was visited.
    pub fn mark_visited(&mut self, cluster_id: String)
        ensures
            final(self).visited() == old(self).visited().push(cluster_id@),
    {
        let ghost before = self.visited_clusters.deep_view();
        self.visited_clusters.push(cluster_id);
        proof {
            assert(self.visited_clusters.deep_view() =~= before.push(cluster_id@));
        }
    }
}

impl Default for ClusterNavigator {
    fn default() -> (navigator: ClusterNavigator)
        ensures
            navigator.visited().len() == 0,
    {
        Self::new()
    }
}

} // verus!
