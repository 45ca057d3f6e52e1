//! Tests for the observation archive: identifier validation and the record
//! round trip.

use mcp_context_rust::observations::{is_valid_observation_id, ObservationStore};

#[test]
fn archive_round_trip_of_large_output() {
    let store = ObservationStore::new("/tmp/archive".to_string());
    let content = "x".repeat(10 * 1024);
    let (obs_id, file_name, record) = store.save("analyze_project", &content);
    assert_eq!(obs_id.len(), 36);
    assert_eq!(file_name, format!("{obs_id}.json"));
    let got = store.get(&obs_id, Some(&record)).unwrap().unwrap();
    assert_eq!(got, content);
}

#[test]
fn get_rejects_traversal_before_any_file_access() {
    let store = ObservationStore::new("/tmp/archive".to_string());
    assert!(store.get("../../etc/passwd", None).is_err());
    assert!(store.get("a/b", None).is_err());
    assert!(store.get("a\\b", None).is_err());
    assert!(store.get("..", None).is_err());
    assert!(store.get("not-a-uuid", None).is_err());
    assert!(store.get("", None).is_err());
}

#[test]
fn get_of_unknown_well_formed_id_is_empty_not_error() {
    let store = ObservationStore::new("/tmp/archive".to_string());
    let r = store.get("550e8400-e29b-41d4-a716-446655440000", None);
    assert!(matches!(r, Ok(None)));
}

#[test]
fn get_of_corrupt_record_is_error() {
    let store = ObservationStore::new("/tmp/archive".to_string());
    let garbage = "{\"obs_id\":oops".to_string();
    assert!(store
        .get("550e8400-e29b-41d4-a716-446655440000", Some(&garbage))
        .is_err());
}

#[test]
fn observation_id_syntax() {
    assert!(is_valid_observation_id("550e8400-e29b-41d4-a716-446655440000"));
    assert!(is_valid_observation_id("550E8400-E29B-41D4-A716-446655440000"));
    assert!(!is_valid_observation_id("550e8400e29b41d4a716446655440000"));
    assert!(!is_valid_observation_id("550e8400-e29b-41d4-a716-44665544000g"));
    assert!(!is_valid_observation_id("550e8400-e29b-41d4-a716-4466554400000"));
}

#[test]
fn file_name_derivation_validates_first() {
    let name =
        ObservationStore::observation_file_name("550e8400-e29b-41d4-a716-446655440000").unwrap();
    assert_eq!(name, "550e8400-e29b-41d4-a716-446655440000.json");
    assert!(ObservationStore::observation_file_name("../../etc/passwd").is_err());
}
