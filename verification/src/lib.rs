//! Verified core of a developer-workflow tool that orchestrates containerized
//! hardware builds and test-bench runs.
//!
//! The crate holds the decision logic of the tool: locating a project root,
//! deriving build configuration with defaults, constructing the argument
//! vectors handed to the container backend, discovering and classifying test
//! benches, aggregating suite results, and the debounce/scope rules of the
//! file watcher. Process spawning, the file system and the terminal stay in
//! the surrounding binary, which feeds this crate plain values.

pub mod config;
pub mod docker;
pub mod errors;
pub mod pipeline;
pub mod project;
pub mod testing;
pub mod text;
pub mod toml_values;
pub mod watch;
