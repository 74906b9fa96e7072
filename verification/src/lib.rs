//! Renders a subset of troff markup, as used by manual pages, into wrapped and
//! styled terminal text.
//!
//! The work is done in three stages. [`simple_parser`] cuts the source into
//! lines and words, and [`man_parse::troff_token_generator`] turns the words
//! into tokens. [`man_parse::troff_parser`] interprets the macros and escapes
//! of the token stream; what each of them means is written down in
//! [`man_parse::troff_semantics`]. [`man_parse::term_writer`] lays the text
//! out to a fixed width, with margin, indentation and font styles.
//!
//! What holds of every input is proved in [`man_parse::lexer_laws`],
//! [`man_parse::interpreter_laws`], [`man_parse::progress_laws`] and
//! [`man_parse::term_writer::layout_laws`].
pub mod arg_parse;
pub mod man_parse;
pub mod simple_parser;
pub mod text;
pub mod text_format;
