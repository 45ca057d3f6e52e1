//! Tests for string helpers: truncation and hashing.

use mcp_context_rust::strutil::truncate_string;
use mcp_context_rust::utils::hash_string;

#[test]
fn test_truncate_string_short() {
    assert_eq!(truncate_string("hello", 10), "hello");
}

#[test]
fn test_truncate_string_exact() {
    assert_eq!(truncate_string("hello", 5), "hello");
}

#[test]
fn test_truncate_string_long() {
    assert_eq!(truncate_string("hello world", 8), "hello...");
}

#[test]
fn test_truncate_string_unicode() {
    // Multi-byte UTF-8 characters (Japanese), seven characters in all
    let japanese = "こんにちは世界";
    assert_eq!(truncate_string(japanese, 10), japanese);
    assert_eq!(truncate_string(japanese, 6), "こんに...");
}

#[test]
fn test_truncate_string_emoji() {
    let emoji = "🦀🔥💻"; // three characters, each four bytes
    assert_eq!(truncate_string(emoji, 5), emoji);
    assert_eq!(truncate_string(emoji, 2), "🦀🔥"); // too short for "..."
}

#[test]
fn test_truncate_string_min_length() {
    assert_eq!(truncate_string("hello", 3), "hel");
    assert_eq!(truncate_string("hello", 1), "h");
}

#[test]
fn test_hash_string() {
    let hash = hash_string("test");
    assert_eq!(hash.len(), 64); // SHA-256 produces 64 hex characters
}

#[test]
fn test_hash_string_known_value() {
    assert_eq!(
        hash_string(""),
        "e3b0c44298fc1c149afbf4c8996fb92427ae41e4649b934ca495991b7852b855"
    );
}
