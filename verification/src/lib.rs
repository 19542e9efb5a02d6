//! Resolution of executable binaries by name across a prioritized list of
//! search directories, in the manner of the Unix `which` utility.
//!
//! The crate is organized around a pure core: candidate paths are generated
//! from a binary name and a search context, validated against a chain of
//! checkers, and optionally case-corrected. Filesystem observations enter the
//! core as plain values (`FileFacts`, directory listings), so every decision
//! the resolver takes is verified; a host performs the actual probes and
//! drives the engine.

pub mod casing;
pub mod checker;
pub mod engine;
pub mod finder;
pub mod fs;
pub mod laws;
pub mod path;
pub mod pattern;
pub mod platform;
