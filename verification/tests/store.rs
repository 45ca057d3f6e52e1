//! Tests for the pattern store: validation, identity, and the deterministic
//! relevance ranking.

use mcp_context_rust::error::TrainingError;
use mcp_context_rust::patterns::PatternStore;
use mcp_context_rust::types::CodePattern;

fn pattern(id: &str, framework: &str, category: &str, tags: &[&str]) -> CodePattern {
    CodePattern {
        id: id.to_string(),
        category: category.to_string(),
        framework: framework.to_string(),
        version: "1".to_string(),
        title: format!("pattern {id}"),
        description: String::new(),
        code: "fn demo() {}".to_string(),
        tags: tags.iter().map(|t| t.to_string()).collect(),
        usage_count: 0,
        relevance_score: 50,
        created_at: 100,
        updated_at: 100,
    }
}

#[test]
fn add_find_remove() {
    let mut store = PatternStore::new();
    store.add(pattern("p-1", "react", "hooks", &["state"])).unwrap();
    store.add(pattern("p-2", "react", "hooks", &["effect"])).unwrap();
    let found = store.find("p-2").unwrap();
    assert_eq!(found.id, "p-2");
    assert!(matches!(
        store.find("p-9"),
        Err(TrainingError::PatternNotFound(_))
    ));
    store.remove("p-1").unwrap();
    assert!(store.find("p-1").is_err());
    assert!(matches!(
        store.remove("p-1"),
        Err(TrainingError::PatternNotFound(_))
    ));
}

#[test]
fn duplicate_id_is_rejected() {
    let mut store = PatternStore::new();
    store.add(pattern("p-1", "react", "hooks", &[])).unwrap();
    let err = store.add(pattern("p-1", "vue", "other", &[])).unwrap_err();
    assert!(matches!(err, TrainingError::DuplicatePattern(id) if id == "p-1"));
}

#[test]
fn traversal_identifiers_are_rejected() {
    let mut store = PatternStore::new();
    assert!(matches!(
        store.add(pattern("p-1", "bad..framework", "c", &[])),
        Err(TrainingError::PathTraversal(_))
    ));
    assert!(matches!(
        store.add(pattern("bad/id", "react", "c", &[])),
        Err(TrainingError::InvalidPatternId { .. })
    ));
    assert!(matches!(
        store.add(pattern("p-1", "react", "bad\\category", &[])),
        Err(TrainingError::InvalidCategory { .. })
    ));
    assert!(matches!(
        store.add(pattern("p-1", "re/act", "c", &[])),
        Err(TrainingError::InvalidFrameworkName { .. })
    ));
    assert!(store.find("p-1").is_err());
}

#[test]
fn search_ranks_by_score_then_ties() {
    let mut store = PatternStore::new();
    // framework match (100) beats category-in-tags (10) beats tag overlap
    store.add(pattern("p-tags", "vue", "other", &["a", "b"])).unwrap();
    store.add(pattern("p-framework", "react", "other", &[])).unwrap();
    store.add(pattern("p-category", "vue", "hooks", &[])).unwrap();
    let tags: Vec<String> = vec!["hooks".to_string(), "a".to_string(), "b".to_string()];
    let got = store.search("react", &tags);
    let ids: Vec<&str> = got.iter().map(|p| p.id.as_str()).collect();
    assert_eq!(ids, vec!["p-framework", "p-category", "p-tags"]);
}

#[test]
fn search_breaks_ties_by_usage_then_update_then_id() {
    let mut store = PatternStore::new();
    let mut a = pattern("a", "x", "c", &[]);
    let mut b = pattern("b", "x", "c", &[]);
    let mut c = pattern("c", "x", "c", &[]);
    a.usage_count = 1;
    b.usage_count = 2;
    c.usage_count = 1;
    a.updated_at = 50;
    c.updated_at = 60;
    store.add(a).unwrap();
    store.add(b).unwrap();
    store.add(c).unwrap();
    let got = store.search("x", &vec![]);
    let ids: Vec<&str> = got.iter().map(|p| p.id.as_str()).collect();
    assert_eq!(ids, vec!["b", "c", "a"]);
}

#[test]
fn search_is_deterministic() {
    let mut store = PatternStore::new();
    for i in 0..15 {
        store
            .add(pattern(&format!("p-{i}"), "react", "hooks", &["state"]))
            .unwrap();
    }
    let tags: Vec<String> = vec!["state".to_string()];
    let first = store.search("react", &tags);
    let second = store.search("react", &tags);
    assert_eq!(first.len(), 10); // bounded result
    let ids1: Vec<&str> = first.iter().map(|p| p.id.as_str()).collect();
    let ids2: Vec<&str> = second.iter().map(|p| p.id.as_str()).collect();
    assert_eq!(ids1, ids2);
    // total order on ids decides among full ties: ascending
    assert_eq!(ids1[0], "p-0");
    assert_eq!(ids1[1], "p-1");
}

#[test]
fn update_replaces_only_existing_patterns() {
    let mut store = PatternStore::new();
    store.add(pattern("p-1", "react", "hooks", &[])).unwrap();
    let mut replacement = pattern("p-1", "react", "hooks", &["new-tag"]);
    replacement.title = "renamed".to_string();
    store.update(replacement).unwrap();
    assert_eq!(store.find("p-1").unwrap().title, "renamed");
    assert!(matches!(
        store.update(pattern("p-2", "react", "hooks", &[])),
        Err(TrainingError::PatternNotFound(_))
    ));
}

#[test]
fn record_usage_advances_count_and_update_time() {
    let mut store = PatternStore::new();
    store.add(pattern("p-1", "react", "hooks", &[])).unwrap();
    store.record_usage("p-1", 777).unwrap();
    let got = store.find("p-1").unwrap();
    assert_eq!(got.usage_count, 1);
    assert_eq!(got.updated_at, 777);
    assert!(store.record_usage("missing", 1).is_err());
}
