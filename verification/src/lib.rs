//! Helpers for a content-addressed filesystem tree: path lookup over a
//! mutable in-memory tree, and a scoped transaction guard for a repository.

pub mod repo;
pub mod text;
pub mod tree;
