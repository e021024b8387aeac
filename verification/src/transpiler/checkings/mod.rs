//! The type/scope checking pass: name-to-type bookkeeping and the walk that
//! validates each top-level declaration.
pub mod checker;
pub mod metadata;
