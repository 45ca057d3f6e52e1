//! Tests for the persisted project context: the document round trip, the
//! timestamp-preservation discipline, and the Markdown rendering.

use mcp_context_rust::rustscp::{DepSummary, ExtCount, FileStats, PatternRef, ProjectContext};
use mcp_context_rust::types::{
    AnalysisResult, Project, ProjectMetadata, ProjectType, SourceFile, Statistics,
};

fn sample_context() -> ProjectContext {
    ProjectContext {
        version: 1,
        name: "TestProject".to_string(),
        project_type: "dotnet".to_string(),
        framework: Some("net10.0".to_string()),
        dependencies: vec![DepSummary {
            name: "Dapper".to_string(),
            version: "2.1.66".to_string(),
            dev: false,
        }],
        stats: FileStats {
            total_files: 100,
            by_extension: vec![
                ExtCount { extension: "cs".to_string(), count: 60 },
                ExtCount { extension: "razor".to_string(), count: 40 },
            ],
        },
        matched_patterns: vec![],
        created_at: 1_700_000_000,
        updated_at: 1_700_000_000,
    }
}

#[test]
fn test_roundtrip_serialize() {
    let ctx = sample_context();
    let json = ctx.to_json();
    let parsed = ProjectContext::load(Some(&json)).unwrap().unwrap();
    assert_eq!(parsed.name, "TestProject");
    assert_eq!(parsed.stats.total_files, 100);
}

#[test]
fn roundtrip_preserves_every_field() {
    let ctx = ProjectContext {
        version: 3,
        name: "weird \"name\" with \\ and \n control \t chars".to_string(),
        project_type: "rust".to_string(),
        framework: None,
        dependencies: vec![DepSummary {
            name: "serde".to_string(),
            version: "1.0".to_string(),
            dev: true,
        }],
        stats: FileStats {
            total_files: 2,
            by_extension: vec![ExtCount { extension: "rs".to_string(), count: 2 }],
        },
        matched_patterns: vec![PatternRef {
            id: "p-1".to_string(),
            title: "Builder".to_string(),
            category: "construction".to_string(),
            score: 87,
        }],
        created_at: -62_135_596_800,
        updated_at: 4_102_444_800,
    };
    let json = ctx.to_json();
    let parsed = ProjectContext::load(Some(&json)).unwrap().unwrap();
    assert_eq!(parsed.version, ctx.version);
    assert_eq!(parsed.name, ctx.name);
    assert_eq!(parsed.project_type, ctx.project_type);
    assert_eq!(parsed.framework, ctx.framework);
    assert_eq!(parsed.dependencies.len(), 1);
    assert_eq!(parsed.dependencies[0].name, "serde");
    assert_eq!(parsed.dependencies[0].version, "1.0");
    assert!(parsed.dependencies[0].dev);
    assert_eq!(parsed.stats.total_files, 2);
    assert_eq!(parsed.stats.by_extension.len(), 1);
    assert_eq!(parsed.stats.by_extension[0].extension, "rs");
    assert_eq!(parsed.stats.by_extension[0].count, 2);
    assert_eq!(parsed.matched_patterns.len(), 1);
    assert_eq!(parsed.matched_patterns[0].id, "p-1");
    assert_eq!(parsed.matched_patterns[0].score, 87);
    assert_eq!(parsed.created_at, ctx.created_at);
    assert_eq!(parsed.updated_at, ctx.updated_at);
}

#[test]
fn load_of_absent_file_is_empty_not_error() {
    assert!(matches!(ProjectContext::load(None), Ok(None)));
}

#[test]
fn load_of_corrupt_file_is_error_not_default() {
    let garbage = "{not a context}".to_string();
    assert!(ProjectContext::load(Some(&garbage)).is_err());
    let truncated = sample_context().to_json()[..40].to_string();
    assert!(ProjectContext::load(Some(&truncated)).is_err());
}

#[test]
fn save_twice_preserves_created_at() {
    let mut first = sample_context();
    let doc1 = first.save(None, 1_000).unwrap();
    assert_eq!(first.created_at, 1_700_000_000);
    assert_eq!(first.updated_at, 1_000);

    let mut second = sample_context();
    second.name = "Renamed".to_string();
    second.created_at = 9_999_999; // overwritten by the preserved stamp
    let doc2 = second.save(Some(&doc1), 2_000).unwrap();
    assert_eq!(second.created_at, 1_700_000_000);
    assert_eq!(second.updated_at, 2_000);

    let reloaded = ProjectContext::load(Some(&doc2)).unwrap().unwrap();
    assert_eq!(reloaded.created_at, 1_700_000_000);
    assert_eq!(reloaded.updated_at, 2_000);
    assert_eq!(reloaded.name, "Renamed");
}

#[test]
fn save_over_corrupt_context_fails() {
    let mut ctx = sample_context();
    let garbage = "][".to_string();
    assert!(ctx.save(Some(&garbage), 5).is_err());
    assert_eq!(ctx.updated_at, 1_700_000_000);
}

fn rust_analysis() -> AnalysisResult {
    AnalysisResult {
        project: Project {
            path: "/proj".to_string(),
            name: "demo".to_string(),
            project_type: ProjectType::Rust,
            version: Some("0.1.0".to_string()),
            dependencies: vec![],
            files: vec![
                SourceFile {
                    path: "/proj/src/main.rs".to_string(),
                    language: "rs".to_string(),
                    size_bytes: 10,
                    symbols: vec![],
                },
                SourceFile {
                    path: "/proj/src/lib.rs".to_string(),
                    language: "rs".to_string(),
                    size_bytes: 20,
                    symbols: vec![],
                },
            ],
            metadata: ProjectMetadata {
                rust_edition: Some("2021".to_string()),
                ..Default::default()
            },
        },
        patterns: vec![],
        suggestions: vec![],
        statistics: Statistics::default(),
    }
}

#[test]
fn analyze_rust_project_renders_rust_type_line() {
    let analysis = rust_analysis();
    let ctx = ProjectContext::from_analysis(&analysis);
    assert_eq!(ctx.project_type, "rust");
    assert_eq!(ctx.framework.as_deref(), Some("2021"));
    assert_eq!(ctx.stats.total_files, 2);
    assert_eq!(ctx.stats.by_extension.len(), 1);
    assert_eq!(ctx.stats.by_extension[0].extension, "rs");
    assert_eq!(ctx.stats.by_extension[0].count, 2);
    assert_eq!(ctx.created_at, ctx.updated_at);
    let md = ctx.format_for_claude();
    let second_line = md.lines().nth(2).unwrap();
    assert!(second_line.contains("rust"));
}

#[test]
fn markdown_rendering_is_exact() {
    let ctx = ProjectContext {
        version: 1,
        name: "demo".to_string(),
        project_type: "rust".to_string(),
        framework: None,
        dependencies: vec![
            DepSummary { name: "a".to_string(), version: "1".to_string(), dev: false },
            DepSummary { name: "b".to_string(), version: "2".to_string(), dev: true },
        ],
        stats: FileStats {
            total_files: 3,
            by_extension: vec![
                ExtCount { extension: "toml".to_string(), count: 1 },
                ExtCount { extension: "rs".to_string(), count: 2 },
            ],
        },
        matched_patterns: vec![PatternRef {
            id: "p-9".to_string(),
            title: "Errors".to_string(),
            category: "handling".to_string(),
            score: 95,
        }],
        created_at: 0,
        updated_at: 0,
    };
    let md = ctx.format_for_claude();
    assert_eq!(
        md,
        "# Project: demo\n\n\
         **Type:** rust | **Framework:** n/a\n\
         **Files:** 3 total (.rs: 2, .toml: 1)\n\
         \n## Dependencies (1)\n\n\
         - a (1)\n\
         \n## Matched Patterns (1)\n\n\
         - **Errors** [handling] (score: 0.95)\n\
         \n---\n_Last updated: 1970-01-01 00:00 UTC_\n"
    );
}

#[test]
fn breakdown_sorts_by_count_then_extension() {
    let ctx = ProjectContext {
        version: 1,
        name: "x".to_string(),
        project_type: "node".to_string(),
        framework: Some("18".to_string()),
        dependencies: vec![],
        stats: FileStats {
            total_files: 5,
            by_extension: vec![
                ExtCount { extension: "ts".to_string(), count: 2 },
                ExtCount { extension: "js".to_string(), count: 2 },
                ExtCount { extension: "json".to_string(), count: 1 },
            ],
        },
        matched_patterns: vec![],
        created_at: 0,
        updated_at: 0,
    };
    let md = ctx.format_for_claude();
    assert!(md.contains("(.js: 2, .ts: 2, .json: 1)"));
}
