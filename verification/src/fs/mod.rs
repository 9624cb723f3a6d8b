//! The virtual filesystem: devices described by manifests, reached by paths.

pub mod manifest;
pub mod table;
pub mod path;
pub mod vfs;
