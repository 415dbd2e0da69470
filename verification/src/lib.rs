//! An analyzer for Thrift interface definition files, verified with Verus.
//!
//! The `scanner` turns text into tokens with positions; the `parser` builds a
//! tree (`ast`) from them and recovers from errors, and computes what
//! `grammar` states; `symbol` keeps the types of a document and of the
//! documents that it includes; `check` and `semantic` derive diagnostics and
//! semantic tokens from a tree; `locate` finds what stands at a position; and
//! the `analyzer` keeps the documents of a workspace and answers the
//! questions of an editor about them. Reading files is left to the caller,
//! which the analyzer asks for each file that it needs.

pub mod base;
pub mod text;
pub mod number;
pub mod dictionary;
pub mod path;
pub mod token;
pub mod scanner;
pub mod ast;
pub mod grammar;
pub mod progress;
pub mod parser;
pub mod symbol;
pub mod semantic;
pub mod check;
pub mod locate;
pub mod analyzer;
pub mod chain;
pub mod framing;
