//! Errors of the rule engine and of the dependency graph.
use vstd::prelude::*;

verus! {

/// Failures of the dependency graph's operations.
#[derive(Debug, Clone, Copy, PartialEq, Eq, Structural)]
pub enum GraphError {
    /// A compute node with this id already exists.
    DuplicateNode,
    /// A node input names an artifact that was never registered.
    UnknownArtifact,
    /// The compute node does not exist.
    NotFound,
    /// An artifact was registered again with the other `external` flag.
    ExternalMismatch,
}

/// A rule set that cannot be loaded: the artifact rule at `rule_index` has a
/// pattern that does not compile.
#[derive(Debug, Clone, PartialEq, Eq)]
pub struct ConfigError {
    pub rule_index: usize,
    pub pattern: String,
}

/// A template names a variable that the artifact match did not capture.
#[derive(Debug, Clone, PartialEq, Eq)]
pub struct TemplateError {
    pub variable: String,
}

} // verus!
