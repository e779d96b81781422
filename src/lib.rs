//! An embeddable SQL front-end (tokenizer and Pratt parser) and the skeleton
//! of a Volcano-style execution engine over in-memory tables.
pub mod text;
pub mod str_scanner;
pub mod token;
pub mod error;
pub mod tokenizer;
pub mod ast;
pub mod parser_spec;
pub mod parser;
pub mod print;
pub mod locate;
pub mod types;
pub mod meta;
pub mod scan;
pub mod laws;
