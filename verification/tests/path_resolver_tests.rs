use neuro_node_path_engine::engine::{PathResolver, QueryContext};
use neuro_node_path_engine::entities::node::NodeType;
use neuro_node_path_engine::entities::Node;
use neuro_node_path_engine::utils::clock::Timestamp;

fn context(query: &str) -> QueryContext {
    QueryContext {
        query: query.to_string(),
        language: "en".to_string(),
        timestamp: Timestamp::from_parts(1431648000, 0).unwrap(),
        request_id: "request".to_string(),
    }
}

fn node(id: &str, name: &str, parent: Option<&str>) -> Node {
    let mut node = Node::with_id(
        id.to_string(),
        name.to_string(),
        NodeType::Module,
        String::new(),
    );
    node.parent_id = parent.map(|p| p.to_string());
    node
}

#[test]
fn chain_of_three_is_walked_from_its_root() {
    let nodes = vec![
        node("A", "A", None),
        node("B", "B", Some("A")),
        node("C", "C", Some("B")),
    ];
    let path = PathResolver::new().resolve(&context("A"), &nodes);
    assert_eq!(path, vec!["A", "B", "C"]);
}

#[test]
fn walk_is_breadth_first() {
    let nodes = vec![
        node("root", "root", None),
        node("left", "L", Some("root")),
        node("right", "R", Some("root")),
        node("left-child", "LC", Some("left")),
        node("right-child", "RC", Some("right")),
    ];
    let path = PathResolver::new().resolve(&context("the root of it"), &nodes);
    assert_eq!(
        path,
        vec!["root", "left", "right", "left-child", "right-child"]
    );
}

#[test]
fn children_come_in_the_order_of_the_node_list() {
    let nodes = vec![
        node("second", "x", Some("top")),
        node("top", "top", None),
        node("first", "y", Some("top")),
    ];
    let path = PathResolver::new().resolve(&context("top"), &nodes);
    assert_eq!(path, vec!["top", "second", "first"]);
}

#[test]
fn every_seed_starts_a_walk() {
    let nodes = vec![
        node("1", "alpha", None),
        node("2", "beta", None),
        node("3", "gamma", Some("2")),
        node("4", "delta", Some("1")),
    ];
    let path = PathResolver::new().resolve(&context("beta and alpha"), &nodes);
    assert_eq!(path, vec!["1", "2", "4", "3"]);
}

#[test]
fn no_seed_no_path() {
    let nodes = vec![node("A", "A", None), node("B", "B", Some("A"))];
    let path = PathResolver::new().resolve(&context("nothing"), &nodes);
    assert!(path.is_empty());
    let none: Vec<Node> = Vec::new();
    assert!(PathResolver::new().resolve(&context("A"), &none).is_empty());
}

#[test]
fn name_must_occur_literally() {
    let nodes = vec![node("A", "Alpha", None)];
    assert!(PathResolver::new()
        .resolve(&context("alpha"), &nodes)
        .is_empty());
    assert_eq!(
        PathResolver::new().resolve(&context("xAlphax"), &nodes),
        vec!["A"]
    );
}

#[test]
fn node_without_a_name_is_always_a_seed() {
    let nodes = vec![node("anonymous", "", None)];
    let path = PathResolver::new().resolve(&context("whatever"), &nodes);
    assert_eq!(path, vec!["anonymous"]);
    let path = PathResolver::new().resolve(&context(""), &nodes);
    assert_eq!(path, vec!["anonymous"]);
}

#[test]
fn seed_that_is_also_a_child_is_reported_twice() {
    let nodes = vec![node("A", "A", None), node("B", "B", Some("A"))];
    let path = PathResolver::new().resolve(&context("A B"), &nodes);
    assert_eq!(path, vec!["A", "B", "B"]);
}

fn chain(length: usize) -> Vec<Node> {
    let mut nodes = Vec::new();
    for i in 0..length {
        let parent = if i == 0 {
            None
        } else {
            Some(format!("n{}", i - 1))
        };
        let name = if i == 0 { "start" } else { "-" };
        let mut link = Node::with_id(
            format!("n{}", i),
            name.to_string(),
            NodeType::Function,
            String::new(),
        );
        link.parent_id = parent;
        nodes.push(link);
    }
    nodes
}

#[test]
fn default_bound_reports_the_seeds_and_32_levels() {
    let nodes = chain(40);
    let path = PathResolver::new().resolve(&context("start"), &nodes);
    assert_eq!(path.len(), 33);
    assert_eq!(path[0], "n0");
    assert_eq!(path[32], "n32");
    assert_eq!(
        PathResolver::default().resolve(&context("start"), &nodes),
        path
    );
}

#[test]
fn chain_shorter_than_the_bound_is_reported_whole() {
    let nodes = chain(33);
    let path = PathResolver::new().resolve(&context("start"), &nodes);
    assert_eq!(path.len(), 33);
    let nodes = chain(5);
    let path = PathResolver::new().resolve(&context("start"), &nodes);
    assert_eq!(path, vec!["n0", "n1", "n2", "n3", "n4"]);
}

#[test]
fn configured_bound_cuts_the_walk() {
    let nodes = chain(10);
    let seeds_only = PathResolver::with_max_depth(0).resolve(&context("start"), &nodes);
    assert_eq!(seeds_only, vec!["n0"]);
    let three_levels = PathResolver::with_max_depth(3).resolve(&context("start"), &nodes);
    assert_eq!(three_levels, vec!["n0", "n1", "n2", "n3"]);
    let unbounded = PathResolver::with_max_depth(usize::MAX).resolve(&context("start"), &nodes);
    assert_eq!(unbounded.len(), 10);
}

#[test]
fn bound_cuts_every_branch_at_the_same_depth() {
    let nodes = vec![
        node("a0", "seed", None),
        node("b0", "seed", None),
        node("a1", "-", Some("a0")),
        node("b1", "-", Some("b0")),
        node("a2", "-", Some("a1")),
        node("b2", "-", Some("b1")),
    ];
    let path = PathResolver::with_max_depth(1).resolve(&context("seed"), &nodes);
    assert_eq!(path, vec!["a0", "b0", "a1", "b1"]);
}

#[test]
fn cycle_is_walked_until_the_bound() {
    let nodes = vec![node("loop", "loop", Some("loop"))];
    let path = PathResolver::new().resolve(&context("loop"), &nodes);
    assert_eq!(path.len(), 33);
    assert!(path.iter().all(|id| id == "loop"));
    let pair = vec![node("x", "x", Some("y")), node("y", "-", Some("x"))];
    let path = PathResolver::with_max_depth(4).resolve(&context("x"), &pair);
    assert_eq!(path, vec!["x", "y", "x", "y", "x"]);
}

#[test]
fn child_set_of_the_parent_plays_no_part() {
    let mut parent = node("P", "P", None);
    parent.add_child("stranger".to_string());
    let nodes = vec![parent, node("stranger", "-", None), node("C", "-", Some("P"))];
    let path = PathResolver::new().resolve(&context("P"), &nodes);
    assert_eq!(path, vec!["P", "C"]);
}

#[test]
fn reported_nodes_lie_within_the_bound() {
    let mut nodes = chain(12);
    for (depth, link) in nodes.iter_mut().enumerate() {
        link.depth = depth;
    }
    for bound in [0, 1, 5, 11, 32] {
        let path = PathResolver::with_max_depth(bound).resolve(&context("start"), &nodes);
        assert_eq!(path.len(), std::cmp::min(bound + 1, 12));
        for id in &path {
            let reported = nodes.iter().find(|n| &n.id == id).unwrap();
            assert!(reported.depth <= bound);
        }
    }
}

#[test]
fn forest_walked_from_its_roots_reports_no_node_twice() {
    let nodes = vec![
        node("r1", "root", None),
        node("r2", "root", None),
        node("a", "-", Some("r1")),
        node("b", "-", Some("r1")),
        node("c", "-", Some("r2")),
        node("d", "-", Some("a")),
        node("e", "-", Some("c")),
        node("f", "-", Some("e")),
    ];
    let path = PathResolver::new().resolve(&context("root"), &nodes);
    assert_eq!(path, vec!["r1", "r2", "a", "b", "c", "d", "e", "f"]);
    let mut seen = path.clone();
    seen.sort();
    seen.dedup();
    assert_eq!(seen.len(), path.len());
}
