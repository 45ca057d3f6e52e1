//! Tests for the shared data model and error types.

use mcp_context_rust::error::{AnalysisError, ConfigError, McpError, TrainingError};
use mcp_context_rust::types::{ProjectType, SeverityLevel, SymbolKind};

#[test]
fn test_project_type_display() {
    assert_eq!(ProjectType::Rust.as_str(), "rust");
    assert_eq!(ProjectType::Node.as_str(), "node");
    assert_eq!(ProjectType::Unknown.as_str(), "unknown");
}

#[test]
fn test_severity_level_display() {
    assert_eq!(SeverityLevel::Info.name(), "info");
    assert_eq!(SeverityLevel::Warning.name(), "warning");
    assert_eq!(SeverityLevel::Error.name(), "error");
}

#[test]
fn test_severity_level_ordering() {
    assert!(SeverityLevel::Info < SeverityLevel::Warning);
    assert!(SeverityLevel::Warning < SeverityLevel::Error);
}

#[test]
fn test_symbol_kind_display() {
    assert_eq!(SymbolKind::Class.name(), "class");
    assert_eq!(SymbolKind::Trait.name(), "trait");
    assert_eq!(SymbolKind::Other("custom".to_string()).name(), "custom");
}

#[test]
fn test_severity_icons() {
    assert_eq!(SeverityLevel::Info.rank(), 0);
    assert_eq!(SeverityLevel::Warning.rank(), 1);
    assert_eq!(SeverityLevel::Error.rank(), 2);
    assert!(!SeverityLevel::Info.icon().is_empty());
}

#[test]
fn test_analysis_error_display() {
    let err = AnalysisError::PathNotFound("/test/path".to_string());
    assert!(err.message().contains("/test/path"));
}

#[test]
fn test_training_error_display() {
    let err = TrainingError::InvalidFrameworkName {
        name: "test..name".to_string(),
        reason: "contains ..".to_string(),
    };
    assert!(err.message().contains("test..name"));
}

#[test]
fn test_analysis_error_messages() {
    let err = AnalysisError::NoProjectFile {
        path: "/somewhere".to_string(),
        expected: "Cargo.toml".to_string(),
    };
    let msg = err.message();
    assert!(msg.contains("/somewhere"));
    assert!(msg.contains("Cargo.toml"));
    let err = AnalysisError::ParseError {
        file_type: "toml".to_string(),
        path: "/p/Cargo.toml".to_string(),
        reason: "bad".to_string(),
    };
    assert_eq!(
        err.message(),
        "Failed to parse toml file at /p/Cargo.toml: bad"
    );
    let err = AnalysisError::NotADirectory("/a/file".to_string());
    assert_eq!(err.message(), "Path is not a directory: /a/file");
    let err = AnalysisError::FileReadError {
        path: "/x".to_string(),
        reason: "denied".to_string(),
    };
    assert_eq!(err.message(), "Failed to read file /x: denied");
    let err = AnalysisError::UnsupportedType("cobol".to_string());
    assert_eq!(err.message(), "Unsupported project type: cobol");
}

#[test]
fn test_training_error_messages() {
    let err = TrainingError::PatternNotFound("p-1".to_string());
    assert_eq!(err.message(), "Pattern not found: p-1");
    let err = TrainingError::DuplicatePattern("p-1".to_string());
    assert_eq!(err.message(), "Pattern with ID 'p-1' already exists");
    let err = TrainingError::PathTraversal("../x".to_string());
    assert!(err.message().contains("../x"));
    assert!(err.message().contains("Path traversal"));
    let err = TrainingError::SaveError {
        path: "/db".to_string(),
        reason: "full".to_string(),
    };
    assert_eq!(err.message(), "Failed to save patterns to /db: full");
    let err = TrainingError::LoadError {
        path: "/db".to_string(),
        reason: "gone".to_string(),
    };
    assert_eq!(err.message(), "Failed to load patterns from /db: gone");
}

#[test]
fn test_config_and_mcp_error_messages() {
    let err = ConfigError::MissingField("catalog".to_string());
    assert_eq!(err.message(), "Missing required configuration field: catalog");
    let err = McpError::Config(ConfigError::InvalidFormat("not json".to_string()));
    assert_eq!(err.message(), "Configuration error: Invalid configuration format: not json");
    let err = McpError::Io("file not found".to_string());
    assert_eq!(err.message(), "I/O error: file not found");
    let err: McpError = String::from("boom").into();
    assert_eq!(err.message(), "boom");
}
