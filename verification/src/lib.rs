//! Bundle orchestration engine: resolves a JavaScript entry point to a stable
//! output identifier, and plans the external bundler invocations that produce
//! a full and a minified build for that identifier.
//!
//! The crate holds the engine's logic: configuration and path resolution, the
//! identifier cache with its persisted text form, exact command construction
//! for each package-manager front end, and the build session that sequences
//! the two bundler invocations. Reading files, creating directories and
//! spawning the bundler are left to the surrounding program.

pub mod cache;
pub mod codec;
pub mod command;
pub mod config;
pub mod session;
