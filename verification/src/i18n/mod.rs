//! The bilingual dictionary: lemma entries, definitions and a translator.

pub mod definitions;
pub mod lemma_store;
pub mod translator;

pub use definitions::LemmaDefinition;
pub use lemma_store::KnotenlexikonStore;
pub use translator::Translator;
