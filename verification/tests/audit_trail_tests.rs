use neuro_node_path_engine::engine::audit_trail::{chain_is_linked, AuditEntry};
use neuro_node_path_engine::engine::{AuditTrail, QueryContext};
use neuro_node_path_engine::utils::clock::Timestamp;
use neuro_node_path_engine::utils::Hasher;

fn strings(items: &[&str]) -> Vec<String> {
    items.iter().map(|item| item.to_string()).collect()
}

fn context(query: &str, secs: i64) -> QueryContext {
    QueryContext {
        query: query.to_string(),
        language: "en".to_string(),
        timestamp: Timestamp::from_parts(secs, 0).unwrap(),
        request_id: "request".to_string(),
    }
}

#[test]
fn entry_hash_is_the_digest_of_time_and_paths() {
    let moment = Timestamp::from_parts(1431648000, 0).unwrap();
    let hash = AuditTrail::entry_hash(&moment, &strings(&["A", "B", "C"]), &strings(&[]));
    assert_eq!(
        hash,
        "17915bcfe3e70eb427b612872b747f6541e9f93ed61c3451fc9e8f14038beb49"
    );
    assert_eq!(hash, Hasher::hash_string("2015-05-15 00:00:00 UTC:A,B,C:"));
    let hash = AuditTrail::entry_hash(&moment, &strings(&["a"]), &strings(&["c", "d"]));
    assert_eq!(
        hash,
        "aa5b10038d3b1d43c4ea81c00d1cd7162796413270cf14385711bc3c7ec3cab4"
    );
    let hash = AuditTrail::entry_hash(&moment, &strings(&[]), &strings(&[]));
    assert_eq!(
        hash,
        "257a0e1ed717c459a44fe3e2a5d6cd541e77534f79bd81010d118cca967de9f1"
    );
}

#[test]
fn entry_hash_takes_the_fraction_of_the_second_in() {
    let moment = Timestamp::from_parts(1431648000, 500_000_000).unwrap();
    let hash = AuditTrail::entry_hash(&moment, &strings(&["n1"]), &strings(&["c1"]));
    assert_eq!(
        hash,
        "971a28dd4044692b77eb94504338d9609b0a9389ac64c88655aeb5b4faee5ccd"
    );
}

#[test]
fn same_triple_hashes_the_same() {
    let first = Timestamp::from_parts(1700000000, 123).unwrap();
    let second = Timestamp::from_parts(1700000000, 123).unwrap();
    let nodes = strings(&["n1", "n2"]);
    let clusters = strings(&["c1"]);
    assert_eq!(
        AuditTrail::entry_hash(&first, &nodes, &clusters),
        AuditTrail::entry_hash(&second, &nodes.clone(), &clusters.clone())
    );
}

#[test]
fn another_triple_hashes_otherwise() {
    let moment = Timestamp::from_parts(1700000000, 0).unwrap();
    let later = Timestamp::from_parts(1700000001, 0).unwrap();
    let base = AuditTrail::entry_hash(&moment, &strings(&["a", "b"]), &strings(&["c"]));
    assert_ne!(
        base,
        AuditTrail::entry_hash(&later, &strings(&["a", "b"]), &strings(&["c"]))
    );
    assert_ne!(
        base,
        AuditTrail::entry_hash(&moment, &strings(&["a"]), &strings(&["b", "c"]))
    );
    assert_ne!(
        base,
        AuditTrail::entry_hash(&moment, &strings(&["b", "a"]), &strings(&["c"]))
    );
}

#[test]
fn new_trail_is_empty_and_intact() {
    let trail = AuditTrail::new();
    assert!(trail.get_entries().is_empty());
    assert!(trail.verify_integrity());
    assert!(AuditTrail::default().get_entries().is_empty());
}

#[test]
fn first_entry_has_no_predecessor() {
    let mut trail = AuditTrail::new();
    let path = trail.log_query(&context("q", 1431648000), &strings(&["A", "B", "C"]), &[]);
    assert_eq!(
        path,
        vec!["17915bcfe3e70eb427b612872b747f6541e9f93ed61c3451fc9e8f14038beb49"]
    );
    let entries = trail.get_entries();
    assert_eq!(entries.len(), 1);
    assert_eq!(entries[0].previous_hash, None);
    assert_eq!(entries[0].hash, path[0]);
    assert_eq!(entries[0].query, "q");
    assert_eq!(entries[0].node_path, strings(&["A", "B", "C"]));
    assert!(entries[0].cluster_path.is_empty());
    assert_eq!(entries[0].timestamp.seconds(), 1431648000);
    assert!(trail.verify_integrity());
}

#[test]
fn audit_path_grows_by_one_hash_with_every_query() {
    let mut trail = AuditTrail::new();
    let mut previous: Vec<String> = Vec::new();
    for i in 0..5 {
        let nodes = strings(&["n"]);
        let path = trail.log_query(&context("q", 1700000000 + i), &nodes, &[]);
        assert_eq!(path.len(), previous.len() + 1);
        assert_eq!(&path[..previous.len()], &previous[..]);
        previous = path;
    }
    assert_eq!(trail.get_entries().len(), 5);
}

#[test]
fn every_entry_names_the_hash_before_it() {
    let mut trail = AuditTrail::new();
    for i in 0..4 {
        trail.log_query(&context("q", 1700000000 + i), &strings(&["n"]), &strings(&["c"]));
        assert!(trail.verify_integrity());
    }
    let entries = trail.get_entries();
    for i in 1..entries.len() {
        assert_eq!(
            entries[i].previous_hash.as_ref(),
            Some(&entries[i - 1].hash)
        );
    }
    assert!(chain_is_linked(entries));
}

#[test]
fn same_query_logged_twice_gives_the_same_hash_twice() {
    let mut trail = AuditTrail::new();
    trail.log_query(&context("q", 1700000000), &strings(&["n"]), &[]);
    let path = trail.log_query(&context("q", 1700000000), &strings(&["n"]), &[]);
    assert_eq!(path[0], path[1]);
    assert_eq!(trail.get_entries()[1].previous_hash, Some(path[0].clone()));
    assert!(trail.verify_integrity());
}

fn logged(count: i64) -> Vec<AuditEntry> {
    let mut trail = AuditTrail::new();
    for i in 0..count {
        trail.log_query(&context("q", 1700000000 + i), &strings(&["n"]), &[]);
    }
    trail.get_entries().to_vec()
}

#[test]
fn broken_link_is_found_wherever_it_is() {
    for broken in 1..4 {
        let mut entries = logged(4);
        assert!(chain_is_linked(&entries));
        entries[broken].previous_hash = Some("0000".to_string());
        assert!(!chain_is_linked(&entries));
    }
}

#[test]
fn missing_link_is_a_broken_link() {
    let mut entries = logged(3);
    entries[2].previous_hash = None;
    assert!(!chain_is_linked(&entries));
}

#[test]
fn changed_hash_breaks_the_link_after_it() {
    let mut entries = logged(3);
    entries[1].hash = "tampered".to_string();
    assert!(!chain_is_linked(&entries));
    let mut entries = logged(3);
    entries[2].hash = "tampered".to_string();
    assert!(chain_is_linked(&entries));
}

#[test]
fn first_entry_is_held_to_nothing() {
    let mut entries = logged(2);
    entries[0].previous_hash = Some("anything".to_string());
    assert!(chain_is_linked(&entries));
    assert!(chain_is_linked(&entries[..1]));
    assert!(chain_is_linked(&[]));
}

#[test]
fn removed_entry_breaks_the_chain() {
    let mut entries = logged(4);
    entries.remove(1);
    assert!(!chain_is_linked(&entries));
    let mut entries = logged(4);
    entries.swap(1, 2);
    assert!(!chain_is_linked(&entries));
}
