//! An incremental, rule-driven build engine.
//!
//! - `rules`, `pattern` and `template`: the rule engine. Artifact rules
//!   classify a path by the first pattern that matches it; workflow rules turn
//!   a classified artifact into compute nodes, with `{variable}` templates
//!   rendered from the match.
//! - `graph`, `graph_model` and `graph_laws`: the dependency graph of
//!   artifacts and compute nodes, with dirty tracking, downstream lookup and
//!   collection of artifacts that no compute node produces any more.
//! - `storage_layout`, `uri`, `digest`, `files`, `primitives`, `json`,
//!   `events`, `external_inputs` and `render`: the decisions of the
//!   collaborators around the engine (blob keys, file URIs, primitive inputs,
//!   JSON merging, event decoding, content rendering).
pub mod digest;
pub mod error;
pub mod events;
pub mod external_inputs;
pub mod files;
pub mod graph;
pub mod graph_laws;
pub mod graph_model;
pub mod json;
pub mod keyed;
pub mod pattern;
pub mod primitives;
pub mod render;
pub mod rules;
pub mod storage_layout;
pub mod template;
pub mod text;
pub mod uri;

pub use error::{ConfigError, GraphError, TemplateError};
pub use files::LocalFileManager;
pub use graph::DependencyGraph;
pub use rules::{ArtifactMatch, ArtifactRule, ComputeNodeTemplate, CurioConfig, InputTemplate, WorkflowRule};
pub use template::{NodeSpec, ResolvedInput};
