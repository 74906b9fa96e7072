//! How long the line that is being written has become.
use crate::text::char_is_whitespace;
use vstd::prelude::*;

verus! {

/// The lengths of a line, in characters: its white space and the rest.
pub struct LineView {
    pub whitespace: nat,
    pub other: nat,
}

impl LineView {
    /// The line without any character.
    pub open spec fn empty() -> LineView {
        LineView { whitespace: 0, other: 0 }
    }

    /// All the characters of the line.
    pub open spec fn total(self) -> nat {
        self.whitespace + self.other
    }

    /// The lengths after `word` was written to the line. A word counts as
    /// white space if its first character is white space.
    pub open spec fn grown(self, word: Seq<char>) -> LineView {
        if word.len() == 0 {
            self
        } else if crate::text::is_whitespace(word[0]) {
            LineView { whitespace: self.whitespace + word.len(), ..self }
        } else {
            LineView { other: self.other + word.len(), ..self }
        }
    }
}

/// The lengths of the current line.
pub struct LineInfo {
    whitespace_len: usize,
    nonwhitespace_len: usize,
}

/// Which characters of a line to count.
pub enum LengthRule {
    Whitespace,
    NonWhitespace,
    Everything,
}

impl View for LineInfo {
    type V = LineView;

    closed spec fn view(&self) -> LineView {
        LineView { whitespace: self.whitespace_len as nat, other: self.nonwhitespace_len as nat }
    }
}

impl Default for LineInfo {
    fn default() -> (info: Self)
        ensures
            info@ == LineView::empty(),
    {
        LineInfo { whitespace_len: 0, nonwhitespace_len: 0 }
    }
}

impl LineInfo {
    #[verifier::type_invariant]
    spec fn total_fits(self) -> bool {
        self.whitespace_len + self.nonwhitespace_len <= usize::MAX
    }

    /// The number of characters of the line that `rule` selects.
    pub fn len(&self, rule: LengthRule) -> (len: usize)
        ensures
            len == match rule {
                LengthRule::Everything => self@.total(),
                LengthRule::NonWhitespace => self@.other,
                LengthRule::Whitespace => self@.whitespace,
            },
    {
        proof {
            use_type_invariant(self);
        }
        match rule {
            LengthRule::Everything => self.whitespace_len + self.nonwhitespace_len,
            LengthRule::NonWhitespace => self.nonwhitespace_len,
            LengthRule::Whitespace => self.whitespace_len,
        }
    }

    /// Counts the characters of `word`, which was written to the line.
    ///
    /// Only the first character of `word` is looked at to tell white space
    /// from other text: a word is expected to hold one or the other.
    pub fn increase_len(&mut self, word: &str)
        requires
            old(self)@.total() + word@.len() <= usize::MAX,
        ensures
            final(self)@ == old(self)@.grown(word@),
    {
        proof {
            use_type_invariant(&*self);
        }
        let len = word.unicode_len();
        if len == 0 {
            return ;
        }
        if char_is_whitespace(word.get_char(0)) {
            self.whitespace_len += len;
        } else {
            self.nonwhitespace_len += len;
        }
    }

    /// Tells whether the line holds white space only, or nothing at all.
    pub fn is_whitespace_only(&self) -> (only: bool)
        ensures
            only == (self@.other == 0),
    {
        self.nonwhitespace_len == 0
    }

    /// Sets the lengths back to zero.
    pub fn reset(&mut self)
        ensures
            final(self)@ == LineView::empty(),
    {
        self.whitespace_len = 0;
        self.nonwhitespace_len = 0;
    }
}

} // verus!
