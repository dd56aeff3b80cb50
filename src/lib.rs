//! A read-only virtual filesystem over backup snapshots: path templates,
//! the namespace tree, path resolution, directory listing and file handles.
pub mod error;
pub mod file;
pub mod meta;
pub mod namespace;
pub mod runtime;
pub mod template;
pub mod text;
pub mod tree;
pub mod webdavfs;
