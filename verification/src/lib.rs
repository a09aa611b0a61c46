//! A verified model of an Objective-C binding generator.
//!
//! The crate turns declarative descriptions of Objective-C message sends into
//! the data needed to generate typed call wrappers: it parses and validates
//! colon-segmented message names, per-OS minimum-version annotations, and
//! whole binding declarations, and computes the names, symbols and guard
//! predicates of the three functions generated per declaration (the dispatch
//! wrapper, the selector accessor, and the availability check).
//!
//! All inputs are plain values (bytes, booleans, vectors); the syntax-tree
//! front end and the token rendering that surround this logic live outside
//! the verified library.

pub mod availability;
pub mod bytesplit;
pub mod decl;
pub mod emit;
pub mod framework;
pub mod selector;
pub mod version;
