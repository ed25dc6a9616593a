use dashmap::DashMap;
use neuro_node_path_engine::engine::{ClusterNavigator, QueryContext};
use neuro_node_path_engine::entities::cluster::ClusterType;
use neuro_node_path_engine::entities::Cluster;
use neuro_node_path_engine::utils::clock::Timestamp;

fn context(query: &str) -> QueryContext {
    QueryContext {
        query: query.to_string(),
        language: "en".to_string(),
        timestamp: Timestamp::from_parts(1431648000, 0).unwrap(),
        request_id: "request".to_string(),
    }
}

fn cluster(id: &str, name: &str) -> Cluster {
    Cluster::with_id_at(
        id.to_string(),
        Timestamp::from_parts(1431648000, 0).unwrap(),
        name.to_string(),
        ClusterType::Functional,
    )
}

#[test]
fn listed_clusters_are_matched_in_their_order() {
    let clusters = vec![
        cluster("c1", "parser"),
        cluster("c2", "network"),
        cluster("c3", "storage"),
        cluster("c4", "pars"),
    ];
    let navigator = ClusterNavigator::new();
    let path = navigator.navigate_listed(&context("storage of the parser"), &clusters);
    assert_eq!(path, vec!["c1", "c3", "c4"]);
}

#[test]
fn cluster_name_must_occur_literally() {
    let clusters = vec![cluster("c1", "Parser")];
    let navigator = ClusterNavigator::new();
    assert!(navigator
        .navigate_listed(&context("the parser"), &clusters)
        .is_empty());
    assert_eq!(
        navigator.navigate_listed(&context("theParsers"), &clusters),
        vec!["c1"]
    );
}

#[test]
fn cluster_without_a_name_always_matches() {
    let clusters = vec![cluster("c1", "")];
    let navigator = ClusterNavigator::new();
    assert_eq!(
        navigator.navigate_listed(&context("anything"), &clusters),
        vec!["c1"]
    );
}

#[test]
fn no_cluster_no_path() {
    let navigator = ClusterNavigator::new();
    assert!(navigator.navigate_listed(&context("A"), &[]).is_empty());
    let clusters: DashMap<String, Cluster> = DashMap::new();
    assert!(navigator.navigate(&context("A"), &clusters).is_empty());
}

#[test]
fn map_of_clusters_is_walked_whole() {
    let clusters: DashMap<String, Cluster> = DashMap::new();
    for i in 0..20 {
        let name = if i % 2 == 0 { "even" } else { "odd" };
        clusters.insert(format!("c{:02}", i), cluster(&format!("c{:02}", i), name));
    }
    let navigator = ClusterNavigator::new();
    let mut path = navigator.navigate(&context("only the even ones"), &clusters);
    path.sort();
    let expected: Vec<String> = (0..20)
        .filter(|i| i % 2 == 0)
        .map(|i| format!("c{:02}", i))
        .collect();
    assert_eq!(path, expected);
}

#[test]
fn cluster_is_reported_by_its_identifier_not_its_key() {
    let clusters: DashMap<String, Cluster> = DashMap::new();
    clusters.insert("key".to_string(), cluster("identifier", "match"));
    let navigator = ClusterNavigator::new();
    assert_eq!(
        navigator.navigate(&context("a match"), &clusters),
        vec!["identifier"]
    );
}

#[test]
fn visited_clusters_are_kept_in_order() {
    let mut navigator = ClusterNavigator::new();
    assert!(navigator.visited_clusters().is_empty());
    navigator.mark_visited("c2".to_string());
    navigator.mark_visited("c1".to_string());
    navigator.mark_visited("c2".to_string());
    assert_eq!(navigator.visited_clusters(), ["c2", "c1", "c2"]);
    assert!(ClusterNavigator::default().visited_clusters().is_empty());
}
