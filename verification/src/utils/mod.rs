//! Helpers shared by the rest of the library: text, patterns, hashing,
//! identifiers and time.

pub mod clock;
pub mod hashing;
pub mod ident;
pub mod pattern;
pub mod text;

pub use clock::Timestamp;
pub use hashing::Hasher;
