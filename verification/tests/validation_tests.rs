use neuro_node_path_engine::validation::{ConsensusValidator, DualPathValidator};

fn strings(items: &[&str]) -> Vec<String> {
    items.iter().map(|item| item.to_string()).collect()
}

fn paths(items: &[&[&str]]) -> Vec<Vec<String>> {
    items.iter().map(|path| strings(path)).collect()
}

#[test]
fn no_paths_are_invalid() {
    let verdict = DualPathValidator::new().validate(&[], &[]);
    assert_eq!(verdict, "INVALID: No paths provided");
}

#[test]
fn node_path_alone_is_valid() {
    let verdict = DualPathValidator::new().validate(&strings(&["a"]), &[]);
    assert_eq!(verdict, "VALID: Dual path consensus established");
}

#[test]
fn cluster_path_alone_is_a_warning() {
    let verdict = DualPathValidator::new().validate(&[], &strings(&["c"]));
    assert_eq!(verdict, "WARNING: Cluster path exceeds node path");
}

#[test]
fn longer_node_path_is_valid() {
    let verdict = DualPathValidator::new().validate(&strings(&["a", "b"]), &strings(&["c"]));
    assert_eq!(verdict, "VALID: Dual path consensus established");
}

#[test]
fn paths_of_equal_length_are_valid() {
    let verdict = DualPathValidator::new().validate(&strings(&["a"]), &strings(&["c"]));
    assert_eq!(verdict, "VALID: Dual path consensus established");
}

#[test]
fn longer_cluster_path_is_a_warning() {
    let verdict = DualPathValidator::new().validate(&strings(&["a"]), &strings(&["c", "d"]));
    assert_eq!(verdict, "WARNING: Cluster path exceeds node path");
}

#[test]
fn disjoint_paths_do_not_cross_validate() {
    let validator = DualPathValidator::new();
    assert!(!validator.cross_validate(&strings(&["a", "b"]), &strings(&["c"])));
}

#[test]
fn empty_path_never_cross_validates() {
    let validator = DualPathValidator::new();
    assert!(!validator.cross_validate(&[], &[]));
    assert!(!validator.cross_validate(&strings(&["a"]), &[]));
    assert!(!validator.cross_validate(&[], &strings(&["a"])));
}

#[test]
fn shared_element_cross_validates() {
    let validator = DualPathValidator::new();
    assert!(validator.cross_validate(&strings(&["a", "b"]), &strings(&["c", "b"])));
    assert!(validator.cross_validate(&strings(&["a"]), &strings(&["a"])));
    assert!(validator.cross_validate(&strings(&["x", "y", "z"]), &strings(&["z"])));
    assert!(!validator.cross_validate(&strings(&["a"]), &strings(&["A"])));
}

#[test]
fn agreement_counts_the_most_frequent_identifier() {
    let counts = ConsensusValidator::agreement(&paths(&[&["X", "Y", "Z"], &["X", "Y", "W"]]));
    assert_eq!(counts, (2, 6));
    let counts = ConsensusValidator::agreement(&paths(&[&["X", "X", "Y"], &["X"]]));
    assert_eq!(counts, (3, 4));
    let counts = ConsensusValidator::agreement(&paths(&[&["a", "b", "c"]]));
    assert_eq!(counts, (1, 3));
    let counts = ConsensusValidator::agreement(&paths(&[&["b", "a", "b", "a", "b"]]));
    assert_eq!(counts, (3, 5));
}

#[test]
fn agreement_of_nothing_is_nothing() {
    assert_eq!(ConsensusValidator::agreement(&paths(&[])), (0, 0));
    assert_eq!(ConsensusValidator::agreement(&paths(&[&[], &[]])), (0, 0));
}

#[test]
fn two_paths_that_share_two_of_three_stay_below_two_thirds() {
    let validator = ConsensusValidator::default();
    assert!(!validator.validate_paths(paths(&[&["X", "Y", "Z"], &["X", "Y", "W"]])));
    assert!(ConsensusValidator::new(1, 3).validate_paths(paths(&[&["X", "Y", "Z"], &["X", "Y", "W"]])));
    assert!(!ConsensusValidator::new(34, 100).validate_paths(paths(&[&["X", "Y", "Z"], &["X", "Y", "W"]])));
}

#[test]
fn four_of_six_reach_the_default_threshold() {
    let validator = ConsensusValidator::default();
    let four_of_six = paths(&[&["X", "X", "Z"], &["X", "X", "W"]]);
    assert_eq!(ConsensusValidator::agreement(&four_of_six), (4, 6));
    assert!(validator.validate_paths(four_of_six));
}

#[test]
fn threshold_is_met_exactly() {
    assert!(ConsensusValidator::new(2, 3).validate_paths(paths(&[&["a", "a", "b"]])));
    assert!(!ConsensusValidator::new(2, 3).validate_paths(paths(&[&["a", "a", "b", "c"]])));
    assert!(ConsensusValidator::new(1, 2).validate_paths(paths(&[&["a", "a", "b", "c"]])));
    assert!(ConsensusValidator::new(66, 100).validate_paths(paths(&[&["a", "a", "b"]])));
    assert!(!ConsensusValidator::new(67, 100).validate_paths(paths(&[&["a", "a", "b"]])));
}

#[test]
fn unanimous_paths_reach_every_threshold_up_to_one() {
    let unanimous = paths(&[&["a"], &["a"], &["a"]]);
    assert!(ConsensusValidator::new(1, 1).validate_paths(unanimous.clone()));
    assert!(ConsensusValidator::new(0, 1).validate_paths(unanimous.clone()));
    assert!(!ConsensusValidator::new(2, 1).validate_paths(unanimous));
}

#[test]
fn no_paths_never_reach_a_threshold() {
    assert!(!ConsensusValidator::default().validate_paths(paths(&[])));
    assert!(!ConsensusValidator::new(0, 1).validate_paths(paths(&[])));
}

#[test]
fn paths_without_identifiers_never_reach_a_threshold() {
    assert!(!ConsensusValidator::default().validate_paths(paths(&[&[]])));
    assert!(!ConsensusValidator::new(0, 1).validate_paths(paths(&[&[], &[]])));
}

#[test]
fn writing_the_majority_over_an_entry_does_not_lower_the_ratio() {
    let given = paths(&[&["X", "Y", "Z"], &["X", "Y", "W"]]);
    let (top, total) = ConsensusValidator::agreement(&given);
    for path in 0..given.len() {
        for step in 0..given[path].len() {
            for majority in ["X", "Y"] {
                let mut changed = given.clone();
                changed[path][step] = majority.to_string();
                let (new_top, new_total) = ConsensusValidator::agreement(&changed);
                assert_eq!(new_total, total);
                assert!(new_top >= top);
            }
        }
    }
}

#[test]
fn writing_a_minority_over_an_entry_can_lower_the_ratio() {
    let given = paths(&[&["X", "X", "Y"]]);
    assert_eq!(ConsensusValidator::agreement(&given), (2, 3));
    let changed = paths(&[&["Y", "X", "Z"]]);
    assert_eq!(ConsensusValidator::agreement(&changed), (1, 3));
}
