//! The arguments of the command line.
pub mod arg_parse;
