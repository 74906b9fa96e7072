//! The layout engine: styled output, wrapped to a fixed width, with margin
//! and indentation.
pub mod font_style;
pub mod layout_laws;
pub mod line_info;
pub mod troff_term_writer;
