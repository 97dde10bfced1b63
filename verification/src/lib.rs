//! A small tags-file index server library.
//!
//! The crate parses lines of the extended ctags text format into structured
//! records, aggregates parsed files into an in-memory index, and answers
//! line-oriented text queries against that index: echoing, describing a tag
//! by kind and name, fuzzy symbol search by abbreviation, finding the
//! companion header/implementation file of a source file, and loading
//! further tags files at runtime.

pub mod commands;
pub mod search;
pub mod server;
pub mod tags;
pub mod text;
