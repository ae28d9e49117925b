//! Logic of the repository's developer tasks.

pub mod fixtures;
pub mod args;
pub mod docs;
pub mod bindings;
pub mod patterns;
pub mod doc_tree;
pub mod workflow;
