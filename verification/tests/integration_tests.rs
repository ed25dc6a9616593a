use neuro_node_path_engine::{EngineConfig, KnotenlexikonStore, NeuroNodePathEngine};

#[test]
fn test_engine_initialization() {
    let config = EngineConfig::default();
    let mut engine = NeuroNodePathEngine::new(config);
    let result = engine.query("anything");
    assert_eq!(result.query, "anything");
    assert!(result.node_path.is_empty());
}

#[test]
fn test_knotenlexikon_store() {
    let store = KnotenlexikonStore::new();
    let entry = store.get_entry("neuro_node_path_engine");
    assert!(entry.is_some());

    let entry = entry.unwrap();
    assert_eq!(entry.english_label, "NeuroNodePath Engine");
    assert_eq!(entry.german_label, "NeuroKnotenpfad-Suchmaschine");
}

#[test]
fn test_lemma_search() {
    let store = KnotenlexikonStore::new();
    let results = store.search_by_german("Knoten");
    assert!(!results.is_empty());
}
