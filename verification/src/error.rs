//! Typed errors for analysis, pattern training, and configuration.
//!
//! Every error carries enough context (path, expected alternatives, reason)
//! to render directly to an operator, and each enum has a verified
//! `message` method in place of `Display`.

use vstd::prelude::*;

verus! {

/// Errors that can occur during project analysis.
#[derive(Debug)]
pub enum AnalysisError {
    /// Project path does not exist
    PathNotFound(String),
    /// Path is not a directory
    NotADirectory(String),
    /// No project file found (Cargo.toml, package.json, etc.)
    NoProjectFile { path: String, expected: String },
    /// Failed to parse a project file
    ParseError { file_type: String, path: String, reason: String },
    /// File read error
    FileReadError { path: String, reason: String },
    /// Unsupported project type
    UnsupportedType(String),
}

/// The operator-facing message of an analysis error.
pub open spec fn analysis_error_message(e: AnalysisError) -> Seq<char> {
    match e {
        AnalysisError::PathNotFound(p) => "Project path does not exist: "@ + p@,
        AnalysisError::NotADirectory(p) => "Path is not a directory: "@ + p@,
        AnalysisError::NoProjectFile { path, expected } => "No project file found in "@ + path@
            + ". Expected one of: "@ + expected@,
        AnalysisError::ParseError { file_type, path, reason } => "Failed to parse "@ + file_type@
            + " file at "@ + path@ + ": "@ + reason@,
        AnalysisError::FileReadError { path, reason } => "Failed to read file "@ + path@ + ": "@
            + reason@,
        AnalysisError::UnsupportedType(t) => "Unsupported project type: "@ + t@,
    }
}

impl AnalysisError {
    /// Renders the error for an operator.
    pub fn message(&self) -> (r: String)
        ensures
            r@ == analysis_error_message(*self),
    {
        match self {
            AnalysisError::PathNotFound(p) => {
                let mut m = String::from_str("Project path does not exist: ");
                m.append(p.as_str());
                m
            },
            AnalysisError::NotADirectory(p) => {
                let mut m = String::from_str("Path is not a directory: ");
                m.append(p.as_str());
                m
            },
            AnalysisError::NoProjectFile { path, expected } => {
                let mut m = String::from_str("No project file found in ");
                m.append(path.as_str());
                m.append(". Expected one of: ");
                m.append(expected.as_str());
                m
            },
            AnalysisError::ParseError { file_type, path, reason } => {
                let mut m = String::from_str("Failed to parse ");
                m.append(file_type.as_str());
                m.append(" file at ");
                m.append(path.as_str());
                m.append(": ");
                m.append(reason.as_str());
                m
            },
            AnalysisError::FileReadError { path, reason } => {
                let mut m = String::from_str("Failed to read file ");
                m.append(path.as_str());
                m.append(": ");
                m.append(reason.as_str());
                m
            },
            AnalysisError::UnsupportedType(t) => {
                let mut m = String::from_str("Unsupported project type: ");
                m.append(t.as_str());
                m
            },
        }
    }
}

/// Errors that can occur during pattern training/management.
#[derive(Debug)]
pub enum TrainingError {
    /// Invalid framework name (security validation failed)
    InvalidFrameworkName { name: String, reason: String },
    /// Invalid pattern ID
    InvalidPatternId { id: String, reason: String },
    /// Invalid category name
    InvalidCategory { name: String, reason: String },
    /// Pattern not found
    PatternNotFound(String),
    /// Duplicate pattern ID
    DuplicatePattern(String),
    /// Failed to save patterns
    SaveError { path: String, reason: String },
    /// Failed to load patterns
    LoadError { path: String, reason: String },
    /// Path traversal attempt detected
    PathTraversal(String),
}

/// The operator-facing message of a training error.
pub open spec fn training_error_message(e: TrainingError) -> Seq<char> {
    match e {
        TrainingError::InvalidFrameworkName { name, reason } => "Invalid framework name '"@ + name@
            + "': "@ + reason@,
        TrainingError::InvalidPatternId { id, reason } => "Invalid pattern ID '"@ + id@ + "': "@
            + reason@,
        TrainingError::InvalidCategory { name, reason } => "Invalid category name '"@ + name@
            + "': "@ + reason@,
        TrainingError::PatternNotFound(id) => "Pattern not found: "@ + id@,
        TrainingError::DuplicatePattern(id) => "Pattern with ID '"@ + id@ + "' already exists"@,
        TrainingError::SaveError { path, reason } => "Failed to save patterns to "@ + path@ + ": "@
            + reason@,
        TrainingError::LoadError { path, reason } => "Failed to load patterns from "@ + path@
            + ": "@ + reason@,
        TrainingError::PathTraversal(s) => "Security error: Path traversal attempt detected for '"@
            + s@ + "'"@,
    }
}

impl TrainingError {
    /// Renders the error for an operator.
    pub fn message(&self) -> (r: String)
        ensures
            r@ == training_error_message(*self),
    {
        match self {
            TrainingError::InvalidFrameworkName { name, reason } => {
                let mut m = String::from_str("Invalid framework name '");
                m.append(name.as_str());
                m.append("': ");
                m.append(reason.as_str());
                m
            },
            TrainingError::InvalidPatternId { id, reason } => {
                let mut m = String::from_str("Invalid pattern ID '");
                m.append(id.as_str());
                m.append("': ");
                m.append(reason.as_str());
                m
            },
            TrainingError::InvalidCategory { name, reason } => {
                let mut m = String::from_str("Invalid category name '");
                m.append(name.as_str());
                m.append("': ");
                m.append(reason.as_str());
                m
            },
            TrainingError::PatternNotFound(id) => {
                let mut m = String::from_str("Pattern not found: ");
                m.append(id.as_str());
                m
            },
            TrainingError::DuplicatePattern(id) => {
                let mut m = String::from_str("Pattern with ID '");
                m.append(id.as_str());
                m.append("' already exists");
                m
            },
            TrainingError::SaveError { path, reason } => {
                let mut m = String::from_str("Failed to save patterns to ");
                m.append(path.as_str());
                m.append(": ");
                m.append(reason.as_str());
                m
            },
            TrainingError::LoadError { path, reason } => {
                let mut m = String::from_str("Failed to load patterns from ");
                m.append(path.as_str());
                m.append(": ");
                m.append(reason.as_str());
                m
            },
            TrainingError::PathTraversal(s) => {
                let mut m = String::from_str("Security error: Path traversal attempt detected for '");
                m.append(s.as_str());
                m.append("'");
                m
            },
        }
    }
}

/// Configuration errors.
#[derive(Debug)]
pub enum ConfigError {
    /// Config file not found
    FileNotFound(String),
    /// Invalid configuration format
    InvalidFormat(String),
    /// Missing required field
    MissingField(String),
    /// Invalid value for a field
    InvalidValue { field: String, reason: String },
}

/// The operator-facing message of a configuration error.
pub open spec fn config_error_message(e: ConfigError) -> Seq<char> {
    match e {
        ConfigError::FileNotFound(p) => "Configuration file not found: "@ + p@,
        ConfigError::InvalidFormat(s) => "Invalid configuration format: "@ + s@,
        ConfigError::MissingField(s) => "Missing required configuration field: "@ + s@,
        ConfigError::InvalidValue { field, reason } => "Invalid value for '"@ + field@ + "': "@
            + reason@,
    }
}

impl ConfigError {
    /// Renders the error for an operator.
    pub fn message(&self) -> (r: String)
        ensures
            r@ == config_error_message(*self),
    {
        match self {
            ConfigError::FileNotFound(p) => {
                let mut m = String::from_str("Configuration file not found: ");
                m.append(p.as_str());
                m
            },
            ConfigError::InvalidFormat(s) => {
                let mut m = String::from_str("Invalid configuration format: ");
                m.append(s.as_str());
                m
            },
            ConfigError::MissingField(s) => {
                let mut m = String::from_str("Missing required configuration field: ");
                m.append(s.as_str());
                m
            },
            ConfigError::InvalidValue { field, reason } => {
                let mut m = String::from_str("Invalid value for '");
                m.append(field.as_str());
                m.append("': ");
                m.append(reason.as_str());
                m
            },
        }
    }
}

/// Main error type of the library. Underlying I/O and JSON failures are
/// wrapped as their original messages, not discarded.
#[derive(Debug)]
pub enum McpError {
    /// Error during project analysis
    Analysis(AnalysisError),
    /// Error during pattern training/management
    Training(TrainingError),
    /// Configuration error
    Config(ConfigError),
    /// I/O error, carrying the underlying message
    Io(String),
    /// JSON serialization/deserialization error, carrying the underlying
    /// message
    Json(String),
    /// Generic error (fallback)
    Other(String),
}

/// The operator-facing message of a library error.
pub open spec fn mcp_error_message(e: McpError) -> Seq<char> {
    match e {
        McpError::Analysis(inner) => "Analysis error: "@ + analysis_error_message(inner),
        McpError::Training(inner) => "Training error: "@ + training_error_message(inner),
        McpError::Config(inner) => "Configuration error: "@ + config_error_message(inner),
        McpError::Io(s) => "I/O error: "@ + s@,
        McpError::Json(s) => "JSON error: "@ + s@,
        McpError::Other(s) => s@,
    }
}

impl McpError {
    /// Renders the error for an operator.
    pub fn message(&self) -> (r: String)
        ensures
            r@ == mcp_error_message(*self),
    {
        match self {
            McpError::Analysis(inner) => {
                let mut m = String::from_str("Analysis error: ");
                let im = inner.message();
                m.append(im.as_str());
                m
            },
            McpError::Training(inner) => {
                let mut m = String::from_str("Training error: ");
                let im = inner.message();
                m.append(im.as_str());
                m
            },
            McpError::Config(inner) => {
                let mut m = String::from_str("Configuration error: ");
                let im = inner.message();
                m.append(im.as_str());
                m
            },
            McpError::Io(s) => {
                let mut m = String::from_str("I/O error: ");
                m.append(s.as_str());
                m
            },
            McpError::Json(s) => {
                let mut m = String::from_str("JSON error: ");
                m.append(s.as_str());
                m
            },
            McpError::Other(s) => s.clone(),
        }
    }
}

impl From<AnalysisError> for McpError {
    /// An analysis error wraps into the main error type unchanged.
    fn from(e: AnalysisError) -> (r: Self) {
        McpError::Analysis(e)
    }
}

impl vstd::std_specs::convert::FromSpecImpl<AnalysisError> for McpError {
    open spec fn obeys_from_spec() -> bool {
        true
    }

    open spec fn from_spec(e: AnalysisError) -> Self {
        McpError::Analysis(e)
    }
}

impl From<TrainingError> for McpError {
    /// A training error wraps into the main error type unchanged.
    fn from(e: TrainingError) -> (r: Self) {
        McpError::Training(e)
    }
}

impl vstd::std_specs::convert::FromSpecImpl<TrainingError> for McpError {
    open spec fn obeys_from_spec() -> bool {
        true
    }

    open spec fn from_spec(e: TrainingError) -> Self {
        McpError::Training(e)
    }
}

impl From<ConfigError> for McpError {
    /// A configuration error wraps into the main error type unchanged.
    fn from(e: ConfigError) -> (r: Self) {
        McpError::Config(e)
    }
}

impl vstd::std_specs::convert::FromSpecImpl<ConfigError> for McpError {
    open spec fn obeys_from_spec() -> bool {
        true
    }

    open spec fn from_spec(e: ConfigError) -> Self {
        McpError::Config(e)
    }
}

impl From<String> for McpError {
    /// A bare message becomes the generic error.
    fn from(s: String) -> (r: Self) {
        McpError::Other(s)
    }
}

impl vstd::std_specs::convert::FromSpecImpl<String> for McpError {
    open spec fn obeys_from_spec() -> bool {
        true
    }

    open spec fn from_spec(s: String) -> Self {
        McpError::Other(s)
    }
}

/// Result type alias using the library's main error.
pub type McpResult<T> = Result<T, McpError>;

/// Result type alias for training operations.
pub type TrainingResult<T> = Result<T, TrainingError>;

} // verus!
