//! An incremental build engine for C projects.
//!
//! Given the sources, include directories and target kinds that a project
//! declares, the library decides which translation units are stale, builds
//! the command lines of the compiler, archiver and linker, and keeps the
//! record of content digests that makes the next build incremental. It
//! touches neither the disk nor the toolchain: the caller observes and runs,
//! the library decides. Its decisions carry proved contracts; what it takes
//! on trust from the crates `sha2` and `globset` and from the standard
//! library is marked where it stands.

pub mod arguments;
pub mod compile;
pub mod config;
pub mod discovery;
pub mod error;
pub mod fs_utils;
pub mod guarantees;
pub mod hashes;
pub mod headers;
pub mod linker;
pub mod text;
pub mod ui;
pub mod utils;
pub mod workflow;
