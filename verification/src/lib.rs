//! Turns per-line ctags definition records into a SCIP-style code index:
//! canonical symbol strings, per-file documents, and one final index value.

pub mod aggregate;
pub mod decode;
pub mod errors;
pub mod index;
pub mod record;
pub mod symbol;
pub mod text;
