use neuro_node_path_engine::i18n::lemma_store::LemmaEntry;
use neuro_node_path_engine::i18n::{KnotenlexikonStore, LemmaDefinition, Translator};

fn entry(id: &str, german: &str, english: &str) -> LemmaEntry {
    LemmaEntry {
        canonical_id: id.to_string(),
        german_label: german.to_string(),
        english_label: english.to_string(),
        german_definition: format!("Definition von {}", german),
        english_definition: format!("definition of {}", english),
        pronunciation_de: String::new(),
        word_type: String::new(),
        related_concepts: Vec::new(),
    }
}

fn ids(found: &[&LemmaEntry]) -> Vec<String> {
    found.iter().map(|e| e.canonical_id.clone()).collect()
}

#[test]
fn new_store_holds_the_four_default_entries() {
    let store = KnotenlexikonStore::new();
    assert_eq!(
        ids(&store.get_all_entries()),
        vec![
            "neuro_node_path_engine",
            "neuro_node_path",
            "cluster_path",
            "neuro_channel_interface"
        ]
    );
    let path = store.get_entry("cluster_path").unwrap();
    assert_eq!(path.german_label, "Clusterpfad");
    assert_eq!(path.english_label, "ClusterPath");
    assert_eq!(
        path.german_definition,
        "Ein Pfad durch thematisch zusammenhängende Cluster"
    );
    assert_eq!(
        path.english_definition,
        "A path through thematically related clusters"
    );
    assert_eq!(path.pronunciation_de, "KLUS-ter-pfaat");
    assert_eq!(path.word_type, "masculine, der Clusterpfad");
    assert_eq!(path.related_concepts, vec!["cluster", "neuro_node_path"]);
    let engine = store.get_entry("neuro_node_path_engine").unwrap();
    assert_eq!(engine.related_concepts.len(), 5);
    assert_eq!(engine.related_concepts[4], "dual_path_validation");
}

#[test]
fn default_store_is_empty() {
    let store = KnotenlexikonStore::default();
    assert!(store.get_all_entries().is_empty());
    assert!(store.get_entry("neuro_node_path").is_none());
    assert!(store.search_by_german("").is_empty());
}

#[test]
fn unknown_identifier_finds_nothing() {
    let store = KnotenlexikonStore::new();
    assert!(store.get_entry("unknown").is_none());
    assert!(store.get_entry("").is_none());
    assert!(store.get_entry("Cluster_Path").is_none());
}

#[test]
fn added_entry_is_found_and_stands_last() {
    let mut store = KnotenlexikonStore::new();
    store.add_entry(entry("audit_path", "Prüfpfad", "AuditPath"));
    assert_eq!(store.get_entry("audit_path").unwrap().german_label, "Prüfpfad");
    let all = ids(&store.get_all_entries());
    assert_eq!(all.len(), 5);
    assert_eq!(all[4], "audit_path");
}

#[test]
fn entry_for_a_known_identifier_takes_the_place_of_the_old_one() {
    let mut store = KnotenlexikonStore::new();
    store.add_entry(entry("neuro_node_path", "Pfad", "Path"));
    let all = store.get_all_entries();
    assert_eq!(all.len(), 4);
    assert_eq!(all[1].canonical_id, "neuro_node_path");
    assert_eq!(all[1].german_label, "Pfad");
    assert_eq!(store.get_entry("neuro_node_path").unwrap().english_label, "Path");
}

#[test]
fn german_search_looks_at_label_and_definition() {
    let store = KnotenlexikonStore::new();
    assert_eq!(
        ids(&store.search_by_german("Knoten")),
        vec!["neuro_node_path_engine", "neuro_node_path"]
    );
    assert_eq!(
        ids(&store.search_by_german("Schnittstelle")),
        vec!["neuro_channel_interface"]
    );
    assert_eq!(ids(&store.search_by_german("Cluster")), vec!["cluster_path"]);
    assert_eq!(
        ids(&store.search_by_german("knotenpfad")),
        vec!["neuro_node_path"]
    );
    assert!(store.search_by_german("KNOTEN").is_empty());
    assert!(store.search_by_german("traceable").is_empty());
    assert_eq!(store.search_by_german("").len(), 4);
}

#[test]
fn english_search_looks_at_label_and_definition() {
    let store = KnotenlexikonStore::new();
    assert_eq!(
        ids(&store.search_by_english("nodes")),
        vec!["neuro_node_path_engine", "neuro_node_path"]
    );
    assert_eq!(
        ids(&store.search_by_english("ClusterPath")),
        vec!["cluster_path"]
    );
    assert_eq!(
        ids(&store.search_by_english("neural channels")),
        vec!["neuro_channel_interface"]
    );
    assert!(store.search_by_english("Knotenpfad").is_empty());
}

#[test]
fn definition_is_built_step_by_step() {
    let lemma = LemmaDefinition::new(
        "node".to_string(),
        "node".to_string(),
        "Knoten".to_string(),
    );
    assert_eq!(lemma.canonical_id, "node");
    assert_eq!(lemma.term_en, "node");
    assert_eq!(lemma.term_de, "Knoten");
    assert_eq!(lemma.definition_en, "");
    assert_eq!(lemma.definition_de, "");
    assert_eq!(lemma.category, "");
    assert!(lemma.examples.is_empty());
    let mut lemma = lemma
        .with_definitions("a vertex".to_string(), "eine Ecke".to_string())
        .with_category("graph".to_string());
    assert_eq!(lemma.definition_en, "a vertex");
    assert_eq!(lemma.definition_de, "eine Ecke");
    assert_eq!(lemma.category, "graph");
    assert_eq!(lemma.term_de, "Knoten");
    lemma.add_example("first".to_string());
    lemma.add_example("second".to_string());
    assert_eq!(lemma.examples, vec!["first", "second"]);
    assert_eq!(lemma.category, "graph");
}

#[test]
fn translator_knows_the_default_terms() {
    let translator = Translator::new();
    let expected = [
        ("neural", "neural"),
        ("cluster", "Cluster"),
        ("node", "Knoten"),
        ("path", "Pfad"),
        ("interface", "Schnittstelle"),
        ("audit", "Überprüfung"),
        ("validation", "Validierung"),
        ("channel", "Kanal"),
        ("repository", "Quelle"),
    ];
    for (term, target) in expected {
        assert_eq!(
            translator.translate("en", "de", term),
            Some(target.to_string())
        );
    }
    assert_eq!(
        Translator::default().translate("en", "de", "node"),
        Some("Knoten".to_string())
    );
}

#[test]
fn translation_is_found_by_all_three_of_its_keys() {
    let translator = Translator::new();
    assert_eq!(translator.translate("de", "en", "node"), None);
    assert_eq!(translator.translate("en", "fr", "node"), None);
    assert_eq!(translator.translate("en", "de", "Node"), None);
    assert_eq!(translator.translate("en", "de", "Knoten"), None);
    assert_eq!(translator.translate("", "", ""), None);
}

#[test]
fn later_translation_overrides_the_earlier_one() {
    let mut translator = Translator::new();
    translator.add_translation("en", "de", "repository", "Repositorium");
    translator.add_translation("de", "en", "Knoten", "node");
    assert_eq!(
        translator.translate("en", "de", "repository"),
        Some("Repositorium".to_string())
    );
    assert_eq!(
        translator.translate("de", "en", "Knoten"),
        Some("node".to_string())
    );
    assert_eq!(
        translator.translate("en", "de", "node"),
        Some("Knoten".to_string())
    );
    translator.add_translation("en", "de", "repository", "Quelle");
    assert_eq!(
        translator.translate("en", "de", "repository"),
        Some("Quelle".to_string())
    );
}
