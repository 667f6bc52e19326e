//! Repositories on disk: note paths, loaded notes and the file tree.
pub mod files;
pub mod paths;
pub mod tree;
pub mod laws;
pub mod root;
