use neuro_node_path_engine::entities::node::NodeType;
use neuro_node_path_engine::entities::Node;
use neuro_node_path_engine::repository::model_loader::{ModelLoader, ModelShape};
use neuro_node_path_engine::repository::{
    CodeAnalyzer, CodeRepository, Indexer, RepositoryError, WalkedEntry,
};

fn node(id: &str, name: &str, node_type: NodeType) -> Node {
    Node::with_id(id.to_string(), name.to_string(), node_type, String::new())
}

fn ids(found: &[&Node]) -> Vec<String> {
    found.iter().map(|n| n.id.clone()).collect()
}

#[test]
fn node_type_is_labelled_in_lowercase() {
    assert_eq!(NodeType::Repository.to_string(), "repository");
    assert_eq!(NodeType::File.to_string(), "file");
    assert_eq!(NodeType::Function.to_string(), "function");
    assert_eq!(NodeType::Struct.to_string(), "struct");
    assert_eq!(NodeType::Module.to_string(), "module");
    assert_eq!(NodeType::Protocol.to_string(), "protocol");
    assert_eq!(NodeType::Model.to_string(), "model");
    assert_eq!(NodeType::Interface.to_string(), "interface");
    assert_eq!(NodeType::Custom("Widget".to_string()).to_string(), "Widget");
    assert_eq!(NodeType::Custom(String::new()).to_string(), "");
}

#[test]
fn nodes_are_found_by_the_label_of_their_type() {
    let mut indexer = Indexer::new();
    indexer.index_node(node("1", "main", NodeType::Function));
    indexer.index_node(node("2", "lib", NodeType::File));
    indexer.index_node(node("3", "helper", NodeType::Function));
    indexer.index_node(node("4", "gadget", NodeType::Custom("widget".to_string())));
    assert_eq!(ids(&indexer.search_by_type("function")), vec!["1", "3"]);
    assert_eq!(ids(&indexer.search_by_type("file")), vec!["2"]);
    assert_eq!(ids(&indexer.search_by_type("widget")), vec!["4"]);
    assert!(indexer.search_by_type("struct").is_empty());
    assert!(indexer.search_by_type("Function").is_empty());
    assert!(Indexer::default().search_by_type("file").is_empty());
}

#[test]
fn custom_type_shares_the_group_of_its_label() {
    let mut indexer = Indexer::new();
    indexer.index_node(node("1", "a", NodeType::File));
    indexer.index_node(node("2", "b", NodeType::Custom("file".to_string())));
    assert_eq!(ids(&indexer.search_by_type("file")), vec!["1", "2"]);
}

#[test]
fn nodes_are_found_by_a_part_of_their_name() {
    let mut indexer = Indexer::new();
    indexer.index_node(node("1", "parse_query", NodeType::Function));
    indexer.index_node(node("2", "query", NodeType::Module));
    indexer.index_node(node("3", "parse_model", NodeType::Function));
    indexer.index_node(node("4", "Model", NodeType::Struct));
    assert_eq!(ids(&indexer.search_by_name("query")), vec!["1", "2"]);
    assert_eq!(ids(&indexer.search_by_name("parse")), vec!["1", "3"]);
    assert_eq!(ids(&indexer.search_by_name("odel")), vec!["3", "4"]);
    assert!(indexer.search_by_name("QUERY").is_empty());
    assert_eq!(ids(&indexer.search_by_name("")), vec!["1", "3", "2", "4"]);
}

#[test]
fn analyzer_finds_functions_structures_and_modules() {
    let code = "mod parser;\npub struct Engine {}\nenum Kind {}\npub fn run() {}\nfn helper() {}\npub async fn fetch() {}\n";
    let found = CodeAnalyzer::new().analyze_code(code);
    assert_eq!(
        found,
        vec![
            ("async_function".to_string(), vec!["fetch".to_string()]),
            (
                "function".to_string(),
                vec!["run".to_string(), "helper".to_string()]
            ),
            (
                "data_structure".to_string(),
                vec!["Engine".to_string(), "Kind".to_string()]
            ),
            ("module".to_string(), vec!["parser".to_string()]),
        ]
    );
}

#[test]
fn analyzer_looks_at_the_start_of_a_line_only() {
    let code = "    fn indented() {}\nimpl X { fn method() {} }\n// fn commented() {}\nasync fn top() {}\npub mod public;\ntrait Shape {}";
    let found = CodeAnalyzer::default().analyze_code(code);
    assert_eq!(
        found,
        vec![
            ("async_function".to_string(), vec!["top".to_string()]),
            ("data_structure".to_string(), vec!["Shape".to_string()]),
        ]
    );
}

#[test]
fn analyzer_finds_nothing_in_prose() {
    assert!(CodeAnalyzer::new().analyze_code("").is_empty());
    assert!(CodeAnalyzer::new()
        .analyze_code("no code here\njust words")
        .is_empty());
}

#[test]
fn model_is_an_object_or_an_array() {
    assert!(ModelLoader::validate_model(ModelShape::Object));
    assert!(ModelLoader::validate_model(ModelShape::Array));
    assert!(!ModelLoader::validate_model(ModelShape::Null));
    assert!(!ModelLoader::validate_model(ModelShape::Bool));
    assert!(!ModelLoader::validate_model(ModelShape::Number));
    assert!(!ModelLoader::validate_model(ModelShape::String));
}

#[test]
fn repository_needs_its_root_to_exist() {
    let opened = CodeRepository::new("/srv/repo".to_string(), true);
    assert_eq!(opened.unwrap().get_root_path(), "/srv/repo");
    let missing = CodeRepository::new("/srv/gone".to_string(), false);
    match missing {
        Err(RepositoryError::MissingRoot { root_path }) => assert_eq!(root_path, "/srv/gone"),
        Ok(_) => panic!("a repository without a root"),
    }
}

#[test]
fn scan_keeps_the_files_whose_path_is_text() {
    let repository = CodeRepository::new("/srv/repo".to_string(), true).unwrap();
    let walk = vec![
        Some(WalkedEntry {
            path: Some("/srv/repo".to_string()),
            is_file: false,
        }),
        Some(WalkedEntry {
            path: Some("/srv/repo/a.rs".to_string()),
            is_file: true,
        }),
        None,
        Some(WalkedEntry {
            path: None,
            is_file: true,
        }),
        Some(WalkedEntry {
            path: Some("/srv/repo/src".to_string()),
            is_file: false,
        }),
        Some(WalkedEntry {
            path: Some("/srv/repo/src/b.rs".to_string()),
            is_file: true,
        }),
    ];
    assert_eq!(
        repository.scan_files(walk),
        vec!["/srv/repo/a.rs", "/srv/repo/src/b.rs"]
    );
    assert!(repository.scan_files(Vec::new()).is_empty());
    assert!(repository.scan_files(vec![None, None]).is_empty());
}
