//! Styling of text for a terminal.
pub mod term_writer;
pub mod text_format;
