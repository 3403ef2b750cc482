//! The project-tree core: tree nodes, tree construction from a root path,
//! bottom-up summary aggregation, and a read-only rendering of the result.

pub mod config;
pub mod metrics;
pub mod node;
pub mod root;
pub mod summary;
pub mod visible;
