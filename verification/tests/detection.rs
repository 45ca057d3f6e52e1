//! Tests for the project type detection policy.

use mcp_context_rust::detect::detect_project_type;
use mcp_context_rust::error::AnalysisError;
use mcp_context_rust::types::ProjectType;

fn names(list: &[&str]) -> Vec<String> {
    list.iter().map(|s| s.to_string()).collect()
}

#[test]
fn detects_each_ecosystem_marker() {
    let cases: Vec<(&str, ProjectType)> = vec![
        ("Cargo.toml", ProjectType::Rust),
        ("package.json", ProjectType::Node),
        ("pyproject.toml", ProjectType::Python),
        ("setup.py", ProjectType::Python),
        ("requirements.txt", ProjectType::Python),
        ("App.csproj", ProjectType::DotNet),
        ("Solution.sln", ProjectType::DotNet),
        ("go.mod", ProjectType::Go),
        ("pom.xml", ProjectType::Java),
        ("build.gradle", ProjectType::Java),
        ("composer.json", ProjectType::Php),
    ];
    for (marker, expected) in cases {
        let listing = names(&["README.md", marker, "src"]);
        let got = detect_project_type("/p", &listing).unwrap();
        assert_eq!(got, expected, "marker {marker}");
    }
}

#[test]
fn detection_follows_fixed_priority() {
    let listing = names(&["composer.json", "go.mod", "package.json", "Cargo.toml"]);
    assert_eq!(detect_project_type("/p", &listing).unwrap(), ProjectType::Rust);
    let listing = names(&["composer.json", "pom.xml", "go.mod"]);
    assert_eq!(detect_project_type("/p", &listing).unwrap(), ProjectType::Go);
}

#[test]
fn directory_with_only_cargo_toml_is_rust() {
    let listing = names(&["Cargo.toml"]);
    assert_eq!(detect_project_type("/p", &listing).unwrap(), ProjectType::Rust);
}

#[test]
fn no_marker_fails_with_no_project_file() {
    let listing = names(&["README.md", "notes.txt"]);
    let err = detect_project_type("/somewhere", &listing).unwrap_err();
    match err {
        AnalysisError::NoProjectFile { path, expected } => {
            assert_eq!(path, "/somewhere");
            assert!(expected.contains("Cargo.toml"));
            assert!(expected.contains("composer.json"));
        }
        other => panic!("unexpected error: {}", other.message()),
    }
}

#[test]
fn csproj_suffix_matches_anywhere_in_name() {
    let listing = names(&["My.App.csproj"]);
    assert_eq!(detect_project_type("/p", &listing).unwrap(), ProjectType::DotNet);
    let listing = names(&["csproj"]);
    assert!(detect_project_type("/p", &listing).is_err());
}
