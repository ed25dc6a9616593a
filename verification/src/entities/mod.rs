//! The records of the graph: nodes, channels, clusters and interfaces.

pub mod channel;
pub mod cluster;
pub mod interface;
pub mod node;

pub use channel::NeuralChannel;
pub use cluster::Cluster;
pub use interface::Interface;
pub use node::Node;
