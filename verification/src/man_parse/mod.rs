//! Reading and rendering of manual pages written in troff.
pub mod interpreter_laws;
pub mod lexer_laws;
pub mod man_section;
pub mod one_or_more;
pub mod progress_laws;
pub mod term_writer;
pub mod token;
pub mod tokenizer;
pub mod troff_parser;
pub mod troff_semantics;
pub mod troff_token_generator;
pub mod troff_tokenize;
