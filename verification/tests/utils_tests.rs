use neuro_node_path_engine::utils::clock::Timestamp;
use neuro_node_path_engine::utils::text::{clone_all, join, position_of, without};
use neuro_node_path_engine::utils::Hasher;

fn strings(items: &[&str]) -> Vec<String> {
    items.iter().map(|item| item.to_string()).collect()
}

#[test]
fn digest_of_known_texts() {
    assert_eq!(
        Hasher::hash_string(""),
        "e3b0c44298fc1c149afbf4c8996fb92427ae41e4649b934ca495991b7852b855"
    );
    assert_eq!(
        Hasher::hash_string("abc"),
        "ba7816bf8f01cfea414140de5dae2223b00361a396177a9cb410ff61f20015ad"
    );
    assert_eq!(
        Hasher::hash_string("test_data"),
        "e7d87b738825c33824cf3fd32b7314161fc8c425129163ff5e7260fc7288da36"
    );
}

#[test]
fn digest_of_text_hashes_its_utf8_bytes() {
    assert_eq!(
        Hasher::hash_string("Überprüfung"),
        "15ec3a6c6e4dae1f716f39c16ddc3acd17697f471fcb1aedb2ab7b76c8a7ee17"
    );
    assert_eq!(
        Hasher::hash_string("Überprüfung"),
        Hasher::hash_bytes("Überprüfung".as_bytes())
    );
}

#[test]
fn digest_of_known_bytes() {
    assert_eq!(
        Hasher::hash_bytes(&[0, 1, 2, 255]),
        "3d1f57c984978ef98a18378c8166c1cb8ede02c03eeb6aee7e2f121dfeee3e56"
    );
}

#[test]
fn digest_is_64_lowercase_hex_digits() {
    let digest = Hasher::hash_bytes(&[7, 7, 7]);
    assert_eq!(digest.len(), 64);
    assert!(digest
        .chars()
        .all(|c| c.is_ascii_digit() || ('a'..='f').contains(&c)));
}

#[test]
fn verify_hash_rejects_another_digest() {
    let digest = Hasher::hash_string("abc");
    assert!(Hasher::verify_hash("abc", &digest));
    assert!(!Hasher::verify_hash("abd", &digest));
    assert!(!Hasher::verify_hash("abc", "abc"));
    assert!(!Hasher::verify_hash("abc", &digest.to_uppercase()));
}

#[test]
fn join_puts_the_separator_between_neighbours() {
    assert_eq!(join(&strings(&[]), ","), "");
    assert_eq!(join(&strings(&["a"]), ","), "a");
    assert_eq!(join(&strings(&["a", "b", "c"]), ","), "a,b,c");
    assert_eq!(join(&strings(&["", ""]), ","), ",");
    assert_eq!(join(&strings(&["x", "y"]), " - "), "x - y");
}

#[test]
fn position_of_finds_the_first_occurrence() {
    let items = strings(&["a", "b", "a"]);
    assert_eq!(position_of(&items, "a"), Some(0));
    assert_eq!(position_of(&items, "b"), Some(1));
    assert_eq!(position_of(&items, "c"), None);
}

#[test]
fn without_drops_every_occurrence() {
    let items = strings(&["a", "b", "a", "c"]);
    assert_eq!(without(&items, "a"), strings(&["b", "c"]));
    assert_eq!(without(&items, "z"), items);
}

#[test]
fn clone_all_copies_in_order() {
    let items = strings(&["one", "two"]);
    assert_eq!(clone_all(&items), items);
}

#[test]
fn timestamp_prints_as_utc_date_and_time() {
    let moment = Timestamp::from_parts(1431648000, 0).unwrap();
    assert_eq!(moment.to_string(), "2015-05-15 00:00:00 UTC");
    assert_eq!(moment.seconds(), 1431648000);
    assert_eq!(moment.subsec_nanos(), 0);
    let epoch = Timestamp::from_parts(0, 0).unwrap();
    assert_eq!(epoch.to_string(), "1970-01-01 00:00:00 UTC");
}

#[test]
fn timestamp_prints_fractions_of_a_second() {
    let millis = Timestamp::from_parts(1431648000, 500_000_000).unwrap();
    assert_eq!(millis.to_string(), "2015-05-15 00:00:00.500 UTC");
    let nanos = Timestamp::from_parts(1431648000, 1).unwrap();
    assert_eq!(nanos.to_string(), "2015-05-15 00:00:00.000000001 UTC");
}

#[test]
fn timestamp_before_the_epoch() {
    let moment = Timestamp::from_parts(-1, 0).unwrap();
    assert_eq!(moment.to_string(), "1969-12-31 23:59:59 UTC");
}

#[test]
fn timestamp_that_names_no_moment() {
    assert!(Timestamp::from_parts(0, 2_000_000_000).is_none());
    assert!(Timestamp::from_parts(0, 1_500_000_000).is_none());
    assert!(Timestamp::from_parts(i64::MAX, 0).is_none());
    assert!(Timestamp::from_parts(i64::MIN, 0).is_none());
}

#[test]
fn timestamp_of_a_leap_second() {
    let moment = Timestamp::from_parts(59, 1_500_000_000).unwrap();
    assert_eq!(moment.to_string(), "1970-01-01 00:00:60.500 UTC");
}

#[test]
fn now_is_a_moment_of_this_century() {
    let moment = Timestamp::now();
    assert!(moment.seconds() > 1_600_000_000);
    assert!(moment.subsec_nanos() < 2_000_000_000);
    assert!(moment.to_string().ends_with(" UTC"));
    let again = Timestamp::from_parts(moment.seconds(), moment.subsec_nanos()).unwrap();
    assert_eq!(again, moment);
}
