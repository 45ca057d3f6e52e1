//! Core data model: project types, patterns, suggestions, and statistics.

use vstd::prelude::*;

verus! {

use vstd::std_specs::cmp::PartialOrdSpec;

// ============================================================================
// Generic multi-language project types
// ============================================================================

/// Detected project type based on which manifest file is present.
#[derive(Debug, Clone, Copy, PartialEq, Eq, Structural, Hash)]
pub enum ProjectType {
    /// .NET projects (.csproj, .sln)
    DotNet,
    /// Rust projects (Cargo.toml)
    Rust,
    /// Node.js projects (package.json)
    Node,
    /// Python projects (pyproject.toml, setup.py, requirements.txt)
    Python,
    /// Go projects (go.mod)
    Go,
    /// Java projects (pom.xml, build.gradle)
    Java,
    /// PHP projects (composer.json)
    Php,
    /// Unknown project type
    Unknown,
}

/// The lowercase display label of a project type.
pub open spec fn project_type_label(t: ProjectType) -> Seq<char> {
    match t {
        ProjectType::DotNet => "dotnet"@,
        ProjectType::Rust => "rust"@,
        ProjectType::Node => "node"@,
        ProjectType::Python => "python"@,
        ProjectType::Go => "go"@,
        ProjectType::Java => "java"@,
        ProjectType::Php => "php"@,
        ProjectType::Unknown => "unknown"@,
    }
}

impl ProjectType {
    /// Returns the lowercase string representation of the project type.
    pub fn as_str(&self) -> (r: &'static str)
        ensures
            r@ == project_type_label(*self),
    {
        match self {
            ProjectType::DotNet => "dotnet",
            ProjectType::Rust => "rust",
            ProjectType::Node => "node",
            ProjectType::Python => "python",
            ProjectType::Go => "go",
            ProjectType::Java => "java",
            ProjectType::Php => "php",
            ProjectType::Unknown => "unknown",
        }
    }
}

impl Default for ProjectType {
    /// The defensive fallback type; `analyze` itself never returns it.
    fn default() -> (r: Self)
        ensures
            r == ProjectType::Unknown,
    {
        ProjectType::Unknown
    }
}

/// Generic project representation that works for any language.
#[derive(Debug)]
pub struct Project {
    /// Path to the project root directory
    pub path: String,
    /// Project name
    pub name: String,
    /// Detected project type
    pub project_type: ProjectType,
    /// Project version (if available)
    pub version: Option<String>,
    /// Project dependencies, in manifest discovery order
    pub dependencies: Vec<Dependency>,
    /// Source files in the project
    pub files: Vec<SourceFile>,
    /// Language-specific metadata
    pub metadata: ProjectMetadata,
}

/// Generic dependency representation.
#[derive(Debug)]
pub struct Dependency {
    /// Package/crate name
    pub name: String,
    /// Version specifier
    pub version: String,
    /// Whether this is a development-only dependency
    pub dev_only: bool,
}

/// Generic source file representation.
#[derive(Debug)]
pub struct SourceFile {
    /// Path to the file
    pub path: String,
    /// Programming language (file extension)
    pub language: String,
    /// File size in bytes
    pub size_bytes: u64,
    /// Extracted symbols (classes, functions, etc.)
    pub symbols: Vec<Symbol>,
}

/// Generic symbol (class, function, interface, etc.); children form a tree.
#[derive(Debug)]
pub struct Symbol {
    /// Symbol name
    pub name: String,
    /// Symbol kind
    pub kind: SymbolKind,
    /// Visibility/access modifiers
    pub modifiers: Vec<String>,
    /// Child symbols (methods, fields, etc.)
    pub children: Vec<Symbol>,
}

/// Kind of symbol in source code.
#[derive(Debug)]
pub enum SymbolKind {
    Class,
    Interface,
    Function,
    Method,
    Property,
    Field,
    Enum,
    Struct,
    Module,
    /// Rust trait
    Trait,
    /// Rust impl block
    Impl,
    /// React/Vue/Blazor component
    Component,
    /// Other symbol type, named by the ecosystem
    Other(String),
}

/// The lowercase display label of a symbol kind.
pub open spec fn symbol_kind_label(k: SymbolKind) -> Seq<char> {
    match k {
        SymbolKind::Class => "class"@,
        SymbolKind::Interface => "interface"@,
        SymbolKind::Function => "function"@,
        SymbolKind::Method => "method"@,
        SymbolKind::Property => "property"@,
        SymbolKind::Field => "field"@,
        SymbolKind::Enum => "enum"@,
        SymbolKind::Struct => "struct"@,
        SymbolKind::Module => "module"@,
        SymbolKind::Trait => "trait"@,
        SymbolKind::Impl => "impl"@,
        SymbolKind::Component => "component"@,
        SymbolKind::Other(s) => s@,
    }
}

impl SymbolKind {
    /// The display name of the kind; an `Other` kind displays as its own name.
    pub fn name(&self) -> (r: String)
        ensures
            r@ == symbol_kind_label(*self),
    {
        match self {
            SymbolKind::Class => String::from_str("class"),
            SymbolKind::Interface => String::from_str("interface"),
            SymbolKind::Function => String::from_str("function"),
            SymbolKind::Method => String::from_str("method"),
            SymbolKind::Property => String::from_str("property"),
            SymbolKind::Field => String::from_str("field"),
            SymbolKind::Enum => String::from_str("enum"),
            SymbolKind::Struct => String::from_str("struct"),
            SymbolKind::Module => String::from_str("module"),
            SymbolKind::Trait => String::from_str("trait"),
            SymbolKind::Impl => String::from_str("impl"),
            SymbolKind::Component => String::from_str("component"),
            SymbolKind::Other(s) => s.clone(),
        }
    }
}

/// Language-specific metadata for projects.
///
/// At most one "framework version" field is treated as authoritative per
/// project; the context synthesizer resolves the ambiguity by priority order.
#[derive(Debug, Default)]
pub struct ProjectMetadata {
    /// For .NET: target framework (net8.0, etc.)
    pub target_framework: Option<String>,
    /// For Node: node version
    pub node_version: Option<String>,
    /// For Python: python version
    pub python_version: Option<String>,
    /// For Rust: edition (2021, etc.)
    pub rust_edition: Option<String>,
    /// Entry point file
    pub entry_point: Option<String>,
    /// Build command
    pub build_command: Option<String>,
    /// Additional key-value metadata
    pub extra: Vec<(String, String)>,
}

// ============================================================================
// Legacy .NET-specific types (kept for compatibility)
// ============================================================================

/// Represents a .NET project (legacy type for backwards compatibility).
#[derive(Debug)]
pub struct DotNetProject {
    pub path: String,
    pub name: String,
    pub target_framework: String,
    pub language_version: String,
    pub packages: Vec<NuGetPackage>,
    pub project_references: Vec<String>,
    pub files: Vec<CSharpFile>,
}

/// NuGet package reference.
#[derive(Debug)]
pub struct NuGetPackage {
    pub name: String,
    pub version: String,
}

/// C# source file information.
#[derive(Debug)]
pub struct CSharpFile {
    pub path: String,
    pub namespace: Option<String>,
    pub usings: Vec<String>,
    pub classes: Vec<ClassInfo>,
    pub interfaces: Vec<InterfaceInfo>,
}

/// Class information from C# analysis.
#[derive(Debug)]
pub struct ClassInfo {
    pub name: String,
    pub modifiers: Vec<String>,
    pub base_class: Option<String>,
    pub interfaces: Vec<String>,
    pub methods: Vec<MethodInfo>,
    pub properties: Vec<PropertyInfo>,
}

/// Interface information from C# analysis.
#[derive(Debug)]
pub struct InterfaceInfo {
    pub name: String,
    pub methods: Vec<MethodInfo>,
}

/// Method information from C# analysis.
#[derive(Debug)]
pub struct MethodInfo {
    pub name: String,
    pub return_type: String,
    pub parameters: Vec<Parameter>,
    pub modifiers: Vec<String>,
    pub is_async: bool,
}

/// Parameter information.
#[derive(Debug)]
pub struct Parameter {
    pub name: String,
    pub param_type: String,
}

/// Property information from C# analysis.
#[derive(Debug)]
pub struct PropertyInfo {
    pub name: String,
    pub prop_type: String,
    pub has_getter: bool,
    pub has_setter: bool,
}

// ============================================================================
// Pattern and training types
// ============================================================================

/// Code pattern for training and suggestions.
///
/// Patterns are reusable code examples that can be searched and suggested
/// based on the project context. Identity is `id`, unique within a store.
#[derive(Debug)]
pub struct CodePattern {
    /// Unique identifier
    pub id: String,
    /// Category (e.g., "lifecycle", "error-handling")
    pub category: String,
    /// Target framework (e.g., "blazor-server", "react")
    pub framework: String,
    /// Framework version
    pub version: String,
    /// Pattern title
    pub title: String,
    /// Pattern description
    pub description: String,
    /// Code example
    pub code: String,
    /// Tags for search
    pub tags: Vec<String>,
    /// Number of times this pattern was used
    pub usage_count: usize,
    /// Relevance in hundredths: 0 stands for 0.00, 100 for 1.00
    pub relevance_score: u32,
    /// When the pattern was created (Unix seconds)
    pub created_at: i64,
    /// When the pattern was last updated (Unix seconds)
    pub updated_at: i64,
}

/// The mathematical value of a [`CodePattern`]: every field as a plain
/// sequence or integer.
#[verifier::ext_equal]
pub struct PatternV {
    pub id: Seq<char>,
    pub category: Seq<char>,
    pub framework: Seq<char>,
    pub version: Seq<char>,
    pub title: Seq<char>,
    pub description: Seq<char>,
    pub code: Seq<char>,
    pub tags: Seq<Seq<char>>,
    pub usage_count: int,
    pub relevance_score: int,
    pub created_at: int,
    pub updated_at: int,
}

impl View for CodePattern {
    type V = PatternV;

    open spec fn view(&self) -> PatternV {
        PatternV {
            id: self.id@,
            category: self.category@,
            framework: self.framework@,
            version: self.version@,
            title: self.title@,
            description: self.description@,
            code: self.code@,
            tags: self.tags.deep_view(),
            usage_count: self.usage_count as int,
            relevance_score: self.relevance_score as int,
            created_at: self.created_at as int,
            updated_at: self.updated_at as int,
        }
    }
}

impl DeepView for CodePattern {
    type V = PatternV;

    open spec fn deep_view(&self) -> PatternV {
        self.view()
    }
}

impl Clone for CodePattern {
    /// A clone carries the value of every field over unchanged.
    fn clone(&self) -> (r: Self)
        ensures
            r@ == self@,
    {
        let tags = clone_strings(&self.tags);
        proof {
            assert(tags.deep_view() =~= self.tags.deep_view());
        }
        let r = CodePattern {
            id: self.id.clone(),
            category: self.category.clone(),
            framework: self.framework.clone(),
            version: self.version.clone(),
            title: self.title.clone(),
            description: self.description.clone(),
            code: self.code.clone(),
            tags,
            usage_count: self.usage_count,
            relevance_score: self.relevance_score,
            created_at: self.created_at,
            updated_at: self.updated_at,
        };
        proof {
            assert(r@ =~= self@);
        }
        r
    }
}

/// Clones a vector of strings, keeping every element equal.
pub fn clone_strings(v: &Vec<String>) -> (r: Vec<String>)
    ensures
        r@ =~= v@,
{
    let mut r: Vec<String> = Vec::new();
    let mut i: usize = 0;
    while i < v.len()
        invariant
            i <= v.len(),
            r@ =~= v@.take(i as int),
        decreases v.len() - i,
    {
        r.push(v[i].clone());
        proof {
            assert(r@ =~= v@.take(i as int + 1));
        }
        i = i + 1;
    }
    proof {
        assert(v@.take(v.len() as int) =~= v@);
    }
    r
}

// ============================================================================
// Analysis result types
// ============================================================================

/// Result of analyzing a project; the input the context synthesizer consumes.
#[derive(Debug)]
pub struct AnalysisResult {
    /// The analyzed project
    pub project: Project,
    /// Relevant patterns found, already ranked
    pub patterns: Vec<CodePattern>,
    /// Suggestions for improvement
    pub suggestions: Vec<Suggestion>,
    /// Project statistics
    pub statistics: Statistics,
}

/// Legacy analysis result for .NET (kept for compatibility).
#[derive(Debug)]
pub struct DotNetAnalysisResult {
    pub project: DotNetProject,
    pub patterns: Vec<CodePattern>,
    pub suggestions: Vec<Suggestion>,
    pub statistics: Statistics,
}

/// Code suggestion with severity level.
#[derive(Debug)]
pub struct Suggestion {
    /// Severity level of the suggestion
    pub severity: SeverityLevel,
    /// Category of the suggestion
    pub category: String,
    /// Suggestion message
    pub message: String,
    /// Related file (if applicable)
    pub file: Option<String>,
    /// Line number (if applicable)
    pub line: Option<usize>,
}

/// Severity level for suggestions, totally ordered: Info < Warning < Error.
#[derive(Debug, Clone, Copy, PartialEq, Eq, Structural, Hash)]
pub enum SeverityLevel {
    /// Informational suggestion
    Info,
    /// Warning that should be addressed
    Warning,
    /// Error that must be fixed
    Error,
}

/// Numeric rank of a severity level; the total order goes by this rank.
pub open spec fn severity_rank(s: SeverityLevel) -> int {
    match s {
        SeverityLevel::Info => 0,
        SeverityLevel::Warning => 1,
        SeverityLevel::Error => 2,
    }
}

/// The lowercase display label of a severity level.
pub open spec fn severity_label(s: SeverityLevel) -> Seq<char> {
    match s {
        SeverityLevel::Info => "info"@,
        SeverityLevel::Warning => "warning"@,
        SeverityLevel::Error => "error"@,
    }
}

impl SeverityLevel {
    /// Numeric rank: Info is 0, Warning is 1, Error is 2.
    pub fn rank(&self) -> (r: u8)
        ensures
            r as int == severity_rank(*self),
    {
        match self {
            SeverityLevel::Info => 0,
            SeverityLevel::Warning => 1,
            SeverityLevel::Error => 2,
        }
    }

    /// The lowercase display name of the severity level.
    pub fn name(&self) -> (r: &'static str)
        ensures
            r@ == severity_label(*self),
    {
        match self {
            SeverityLevel::Info => "info",
            SeverityLevel::Warning => "warning",
            SeverityLevel::Error => "error",
        }
    }

    /// Returns an emoji icon for the severity level.
    pub fn icon(&self) -> (r: &'static str) {
        match self {
            SeverityLevel::Info => "ℹ️",
            SeverityLevel::Warning => "⚠️",
            SeverityLevel::Error => "❌",
        }
    }
}

impl PartialOrd for SeverityLevel {
    /// Severity levels compare by rank.
    fn partial_cmp(&self, other: &Self) -> (r: Option<core::cmp::Ordering>) {
        let a = self.rank();
        let b = other.rank();
        if a < b {
            Some(core::cmp::Ordering::Less)
        } else if a == b {
            Some(core::cmp::Ordering::Equal)
        } else {
            Some(core::cmp::Ordering::Greater)
        }
    }
}

impl vstd::std_specs::cmp::PartialOrdSpecImpl for SeverityLevel {
    open spec fn obeys_partial_cmp_spec() -> bool {
        true
    }

    open spec fn partial_cmp_spec(&self, other: &Self) -> Option<core::cmp::Ordering> {
        if severity_rank(*self) < severity_rank(*other) {
            Some(core::cmp::Ordering::Less)
        } else if severity_rank(*self) == severity_rank(*other) {
            Some(core::cmp::Ordering::Equal)
        } else {
            Some(core::cmp::Ordering::Greater)
        }
    }
}

/// Severity levels form a total order by rank, with Info < Warning < Error.
///
/// Comparisons never fail (the order is total), exactly one of `<`, `==`, `>`
/// holds for each pair, and the two named inequalities hold.
pub proof fn lemma_severity_total_order(a: SeverityLevel, b: SeverityLevel)
    ensures
        a.partial_cmp_spec(&b) is Some,
        a.partial_cmp_spec(&b) == Some(core::cmp::Ordering::Less) <==> severity_rank(a)
            < severity_rank(b),
        a.partial_cmp_spec(&b) == Some(core::cmp::Ordering::Equal) <==> a == b,
        a.partial_cmp_spec(&b) == Some(core::cmp::Ordering::Greater) <==> severity_rank(b)
            < severity_rank(a),
        severity_rank(SeverityLevel::Info) < severity_rank(SeverityLevel::Warning)
            < severity_rank(SeverityLevel::Error),
{
}

/// Project statistics summary.
#[derive(Debug, Default)]
pub struct Statistics {
    /// Total number of source files
    pub total_files: usize,
    /// Total number of classes/types
    pub total_classes: usize,
    /// Total number of methods/functions
    pub total_methods: usize,
    /// Total lines of code
    pub total_lines: usize,
    /// Framework version
    pub framework_version: String,
    /// Number of dependencies
    pub package_count: usize,
}

} // verus!
