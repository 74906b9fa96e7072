//! A small line-oriented tokenizer that leaves the meaning of words to a
//! [`token_generator::TokenGenerator`].
pub mod split_whitespace;
pub mod token;
pub mod token_generator;
pub mod token_splitter;
pub mod tokenizer;
