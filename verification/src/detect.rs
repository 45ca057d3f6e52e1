//! Project type detection: classifies a directory listing by its ecosystem
//! marker files, in a fixed priority order.

use vstd::prelude::*;

verus! {

use crate::error::AnalysisError;
use crate::strutil::str_eq;
use crate::types::ProjectType;
use vstd::string::StrSliceExecFns;

/// Whether `s` ends with `suffix`.
pub open spec fn spec_ends_with(s: Seq<char>, suffix: Seq<char>) -> bool {
    s.len() >= suffix.len() && s.skip(s.len() - suffix.len()) == suffix
}

/// Whether the string ends with the given suffix, by characters.
pub fn ends_with(s: &str, suffix: &str) -> (r: bool)
    ensures
        r == spec_ends_with(s@, suffix@),
{
    let n = s.unicode_len();
    let m = suffix.unicode_len();
    if n < m {
        return false;
    }
    let tail = s.substring_char(n - m, n);
    proof {
        assert(s@.subrange(n - m, n as int) =~= s@.skip(n - m));
    }
    str_eq(tail, suffix)
}

/// Whether a file of this name marks a project of the given type.
pub open spec fn is_marker_for(name: Seq<char>, t: ProjectType) -> bool {
    match t {
        ProjectType::Rust => name == "Cargo.toml"@,
        ProjectType::Node => name == "package.json"@,
        ProjectType::Python => name == "pyproject.toml"@ || name == "setup.py"@ || name
            == "requirements.txt"@,
        ProjectType::DotNet => spec_ends_with(name, ".csproj"@) || spec_ends_with(name, ".sln"@),
        ProjectType::Go => name == "go.mod"@,
        ProjectType::Java => name == "pom.xml"@ || name == "build.gradle"@,
        ProjectType::Php => name == "composer.json"@,
        ProjectType::Unknown => false,
    }
}

/// Whether any name in the listing marks the given project type.
pub open spec fn has_marker(names: Seq<Seq<char>>, t: ProjectType) -> bool {
    exists|i: int| 0 <= i < names.len() && #[trigger] is_marker_for(names[i], t)
}

/// The detection policy: the first ecosystem, in fixed priority order, whose
/// marker file occurs in the listing. `None` when no marker is present;
/// detection never yields `ProjectType::Unknown`.
pub open spec fn spec_detect(names: Seq<Seq<char>>) -> Option<ProjectType> {
    if has_marker(names, ProjectType::Rust) {
        Some(ProjectType::Rust)
    } else if has_marker(names, ProjectType::Node) {
        Some(ProjectType::Node)
    } else if has_marker(names, ProjectType::Python) {
        Some(ProjectType::Python)
    } else if has_marker(names, ProjectType::DotNet) {
        Some(ProjectType::DotNet)
    } else if has_marker(names, ProjectType::Go) {
        Some(ProjectType::Go)
    } else if has_marker(names, ProjectType::Java) {
        Some(ProjectType::Java)
    } else if has_marker(names, ProjectType::Php) {
        Some(ProjectType::Php)
    } else {
        None
    }
}

/// Whether the file name marks a project of the given type.
pub fn matches_marker(name: &str, t: ProjectType) -> (r: bool)
    ensures
        r == is_marker_for(name@, t),
{
    match t {
        ProjectType::Rust => str_eq(name, "Cargo.toml"),
        ProjectType::Node => str_eq(name, "package.json"),
        ProjectType::Python => str_eq(name, "pyproject.toml") || str_eq(name, "setup.py") || str_eq(
            name,
            "requirements.txt",
        ),
        ProjectType::DotNet => ends_with(name, ".csproj") || ends_with(name, ".sln"),
        ProjectType::Go => str_eq(name, "go.mod"),
        ProjectType::Java => str_eq(name, "pom.xml") || str_eq(name, "build.gradle"),
        ProjectType::Php => str_eq(name, "composer.json"),
        ProjectType::Unknown => false,
    }
}

/// Whether any name in the listing marks the given project type.
pub fn find_marker(file_names: &Vec<String>, t: ProjectType) -> (r: bool)
    ensures
        r == has_marker(file_names.deep_view(), t),
{
    let ghost names = file_names.deep_view();
    let mut i: usize = 0;
    while i < file_names.len()
        invariant
            i <= file_names.len(),
            names == file_names.deep_view(),
            names.len() == file_names.len(),
            forall|k: int| 0 <= k < i ==> !is_marker_for(names[k], t),
        decreases file_names.len() - i,
    {
        if matches_marker(file_names[i].as_str(), t) {
            proof {
                assert(is_marker_for(names[i as int], t));
            }
            return true;
        }
        i = i + 1;
    }
    false
}

/// The expected marker file names, rendered for the `NoProjectFile` error.
pub fn expected_markers() -> (r: String)
    ensures
        r@
            == "Cargo.toml, package.json, pyproject.toml, setup.py, requirements.txt, *.csproj, *.sln, go.mod, pom.xml, build.gradle, composer.json"@,
{
    String::from_str(
        "Cargo.toml, package.json, pyproject.toml, setup.py, requirements.txt, *.csproj, *.sln, go.mod, pom.xml, build.gradle, composer.json",
    )
}

/// Classifies a project directory by its listing: the first ecosystem, in
/// fixed priority order, with a marker file present wins. A listing with no
/// recognized manifest fails with `NoProjectFile` naming the expected files —
/// never a silent `Unknown`.
pub fn detect_project_type(path: &str, file_names: &Vec<String>) -> (r: Result<
    ProjectType,
    AnalysisError,
>)
    ensures
        match r {
            Ok(t) => spec_detect(file_names.deep_view()) == Some(t),
            Err(e) => {
                &&& spec_detect(file_names.deep_view()) is None
                &&& e matches AnalysisError::NoProjectFile { path: p, expected } && p@ == path@
                    && expected@
                    == "Cargo.toml, package.json, pyproject.toml, setup.py, requirements.txt, *.csproj, *.sln, go.mod, pom.xml, build.gradle, composer.json"@
            },
        },
{
    if find_marker(file_names, ProjectType::Rust) {
        Ok(ProjectType::Rust)
    } else if find_marker(file_names, ProjectType::Node) {
        Ok(ProjectType::Node)
    } else if find_marker(file_names, ProjectType::Python) {
        Ok(ProjectType::Python)
    } else if find_marker(file_names, ProjectType::DotNet) {
        Ok(ProjectType::DotNet)
    } else if find_marker(file_names, ProjectType::Go) {
        Ok(ProjectType::Go)
    } else if find_marker(file_names, ProjectType::Java) {
        Ok(ProjectType::Java)
    } else if find_marker(file_names, ProjectType::Php) {
        Ok(ProjectType::Php)
    } else {
        Err(
            AnalysisError::NoProjectFile {
                path: path.to_owned(),
                expected: expected_markers(),
            },
        )
    }
}

} // verus!
