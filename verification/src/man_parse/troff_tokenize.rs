//! The troff lexer under the names of a classifier.
pub use crate::man_parse::troff_token_generator::TroffToken;
use crate::man_parse::troff_token_generator::TroffTokenGenerator;
use vstd::prelude::*;

verus! {

/// Another name for [`TroffTokenGenerator`].
pub type TroffClassifier = TroffTokenGenerator;

} // verus!
