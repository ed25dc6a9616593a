use neuro_node_path_engine::engine::{QueryContext, QueryProcessor};
use neuro_node_path_engine::utils::clock::Timestamp;

fn context(query: &str) -> QueryContext {
    QueryContext {
        query: query.to_string(),
        language: "en".to_string(),
        timestamp: Timestamp::from_parts(1431648000, 0).unwrap(),
        request_id: "request".to_string(),
    }
}

fn labels(tokens: &[(String, Vec<String>)]) -> Vec<&str> {
    tokens.iter().map(|(label, _)| label.as_str()).collect()
}

#[test]
fn query_touches_the_categories_whose_keywords_it_holds() {
    let processor = QueryProcessor::new();
    let tokens = processor.parse_query(&context("neural clustering patterns in async module"));
    assert_eq!(labels(&tokens), vec!["neural_keyword", "cluster_keyword"]);
}

#[test]
fn category_lists_the_whole_query() {
    let processor = QueryProcessor::new();
    let query = "the shortest route";
    let tokens = processor.parse_query(&context(query));
    assert_eq!(
        tokens,
        vec![("path_keyword".to_string(), vec![query.to_string()])]
    );
}

#[test]
fn keywords_are_matched_without_regard_to_case() {
    let processor = QueryProcessor::default();
    let tokens = processor.parse_query(&context("NEURO Path CHANNEL ClUsT"));
    assert_eq!(
        labels(&tokens),
        vec![
            "neural_keyword",
            "cluster_keyword",
            "path_keyword",
            "channel_keyword"
        ]
    );
}

#[test]
fn keywords_are_matched_inside_words() {
    let processor = QueryProcessor::new();
    let tokens = processor.parse_query(&context("pathological interfaces"));
    assert_eq!(labels(&tokens), vec!["path_keyword", "channel_keyword"]);
}

#[test]
fn query_without_keywords_touches_nothing() {
    let processor = QueryProcessor::new();
    assert!(processor.parse_query(&context("hello world")).is_empty());
    assert!(processor.parse_query(&context("")).is_empty());
    assert!(processor.parse_query(&context("neur clus pat chan")).is_empty());
}

#[test]
fn entities_are_the_long_words_in_lowercase() {
    let processor = QueryProcessor::new();
    assert_eq!(
        processor.extract_entities("Find the Neural PATH now"),
        vec!["find", "neural", "path"]
    );
}

#[test]
fn words_of_three_bytes_are_dropped() {
    let processor = QueryProcessor::new();
    assert_eq!(
        processor.extract_entities("a an the four fives"),
        vec!["four", "fives"]
    );
    assert!(processor.extract_entities("one two").is_empty());
}

#[test]
fn words_are_split_at_any_whitespace() {
    let processor = QueryProcessor::new();
    assert_eq!(
        processor.extract_entities("  alpha\tbeta\n\ngamma\u{00a0}delta  "),
        vec!["alpha", "beta", "gamma", "delta"]
    );
    assert!(processor.extract_entities("").is_empty());
    assert!(processor.extract_entities(" \t\n").is_empty());
}

#[test]
fn length_is_counted_in_bytes() {
    let processor = QueryProcessor::new();
    assert_eq!(processor.extract_entities("äö üß"), vec!["äö", "üß"]);
    assert!(processor.extract_entities("äb").is_empty());
}

#[test]
fn lowercase_follows_unicode() {
    let processor = QueryProcessor::new();
    assert_eq!(
        processor.extract_entities("ÜBERPRÜFUNG ΑΒΓΔ"),
        vec!["überprüfung", "αβγδ"]
    );
}
