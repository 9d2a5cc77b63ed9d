//! An in-memory hierarchical namespace: folders arranged in a tree and files
//! attached to folders, with creation, renaming, moving, and substring search.

pub mod store;
pub mod strings;

pub use store::{File, FileSystem, Folder};
