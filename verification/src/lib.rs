//! Planning logic for moving the regular files found under a source directory
//! into a target directory.
//!
//! The library never touches the file system. A caller walks the directory,
//! probes paths and renames files; the library decides which paths are
//! acceptable arguments, which entries of a walk are to be moved, where each
//! file goes, and when a run of moves stops.

pub mod mover;
pub mod path;
pub mod run;
pub mod traverse;
pub mod validate;
