//! Checks on resolved paths: dual-path validation and consensus.

pub mod consensus;
pub mod dual_path;

pub use consensus::ConsensusValidator;
pub use dual_path::DualPathValidator;
