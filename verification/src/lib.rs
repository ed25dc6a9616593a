//! A query engine over a typed graph of artifacts.
//!
//! Nodes, channels, clusters and interfaces describe a corpus. A free-text
//! query is resolved into a node path by a bounded breadth-first traversal and
//! into a cluster path by name matching; both are recorded in a hash-chained
//! audit trail and cross-checked by the validators.

use vstd::prelude::*;

pub mod engine;
pub mod entities;
pub mod i18n;
pub mod repository;
pub mod utils;
pub mod validation;

pub use engine::{NeuroNodePathEngine, QueryContext};
pub use entities::{Cluster, Interface, NeuralChannel, Node};
pub use i18n::KnotenlexikonStore;
pub use validation::DualPathValidator;

verus! {

/// What an engine is configured with. `max_depth` bounds path resolution: the
/// seeds and that many levels below them are reported. The other fields are
/// carried with the engine and change nothing about a query: clusters are
/// always navigated, every query is logged, no entry of the audit trail is
/// ever dropped for its age, and traversal is never spread over several
/// workers.
#[derive(Debug, Clone)]
pub struct EngineConfig {
    pub max_depth: usize,
    pub enable_clustering: bool,
    pub enable_audit: bool,
    pub audit_retention_days: u32,
    pub supported_languages: Vec<String>,
    pub parallel_traversal: bool,
}

impl Default for EngineConfig {
    fn default() -> (config: EngineConfig)
        ensures
            config.max_depth == 32,
            config.enable_clustering,
            config.enable_audit,
            config.audit_retention_days == 365,
            config.supported_languages.deep_view() == seq!["en"@, "de"@],
            config.parallel_traversal,
    {
        let mut supported_languages: Vec<String> = Vec::new();
        supported_languages.push("en".to_owned());
        supported_languages.push("de".to_owned());
        proof {
            assert(supported_languages.deep_view() =~= seq!["en"@, "de"@]);
        }
        EngineConfig {
            max_depth: 32,
            enable_clustering: true,
            enable_audit: true,
            audit_retention_days: 365,
            supported_languages,
            parallel_traversal: true,
        }
    }
}

} // verus!
