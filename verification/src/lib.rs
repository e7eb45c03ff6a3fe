//! Declarative deployment of source files into target filesystem locations,
//! either as symbolic links or as rendered copies.
//!
//! The heart of the crate is the deployment reconciler: given the observed
//! nature of a source path and a target path, it classifies the pair into a
//! small set of named outcomes and decides which corrective action, if any,
//! may be applied.  The decision layer is pure and fully verified; observing
//! and mutating the filesystem is left to the binary built around the crate.

pub mod config;
pub mod deploy;
pub mod file_type;
pub mod filesystem;
pub mod hook;
pub mod option;
pub mod symlink;
pub mod template;
