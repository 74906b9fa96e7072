//! A plain buffer of text that is written out in one piece.
use vstd::prelude::*;

verus! {

/// Collects text.
pub struct TermWriter {
    buf: String,
}

impl View for TermWriter {
    type V = Seq<char>;

    closed spec fn view(&self) -> Seq<char> {
        self.buf@
    }
}

impl TermWriter {
    /// A writer that holds no text.
    pub fn new() -> (writer: Self)
        ensures
            writer@ == Seq::<char>::empty(),
    {
        TermWriter { buf: String::new() }
    }

    /// Appends `s` to the text.
    pub fn add_to_buf(&mut self, s: &str)
        ensures
            final(self)@ == old(self)@ + s@,
    {
        self.buf.append(s);
    }

    /// The text collected so far.
    pub fn buf(&self) -> (text: &str)
        ensures
            text@ == self@,
    {
        self.buf.as_str()
    }
}

} // verus!
