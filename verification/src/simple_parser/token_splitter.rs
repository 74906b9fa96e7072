//! The splitter of lines under the name of what it yields.
use crate::simple_parser::split_whitespace::SplitWhitespaceInclusive;
use vstd::prelude::*;

verus! {

/// Another name for [`SplitWhitespaceInclusive`].
pub type TokenSplitter<'a> = SplitWhitespaceInclusive<'a>;

} // verus!
