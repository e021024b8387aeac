//! A compiler front end and code generator for a small expression-oriented
//! language. Source text is lexed into tokens, parsed into a syntax tree,
//! type- and scope-checked, and finally rendered as statement-oriented
//! JavaScript-like text.
pub mod laws;
pub mod parser;
pub mod tokenizer;
pub mod transpiler;
