//! Analyzes a directory subtree: builds an in-memory tree of its files and
//! directories, then computes for every node an aggregated summary (disk
//! size and text-line count), folding children's totals bottom-up.

pub mod errors;
pub mod tree;
pub mod utils;

pub use tree::config::ProjectConfig;
pub use tree::node::TreeNode;
pub use tree::root::ProjectTree;
pub use tree::summary::NodeSummary;
pub use tree::visible::ProjectTreeVisible;
