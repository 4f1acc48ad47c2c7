//! Positional infrastructure for a compiler front-end: interned symbols
//! and file names, line-offset lookup, source context extraction, and
//! position values that render as human-readable locations.
pub mod files;
pub mod intern;
pub mod lines;
pub mod message;
pub mod nondistinct;
pub mod position;
pub mod render;
pub mod sources;
mod storage;
pub mod symbol;
