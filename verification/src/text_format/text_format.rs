//! Text between the escape sequences that switch a terminal's style on and
//! off.
use vstd::prelude::*;

verus! {

/// The escape sequence that switches bold on: `ESC [ 1 m`.
pub open spec fn bold_tag() -> Seq<char> {
    "\x1b[1m"@
}

/// The escape sequence that switches underlining on: `ESC [ 4 m`.
pub open spec fn underline_tag() -> Seq<char> {
    "\x1b[4m"@
}

/// The escape sequence that switches every style off: `ESC [ 0 m`.
pub open spec fn close_tag() -> Seq<char> {
    "\x1b[0m"@
}

/// `text` in bold.
pub open spec fn bold_text(text: Seq<char>) -> Seq<char> {
    bold_tag() + text + close_tag()
}

/// `text` underlined.
pub open spec fn underlined_text(text: Seq<char>) -> Seq<char> {
    underline_tag() + text + close_tag()
}

/// `text` in italics. Terminals render italics unevenly, so italic text is
/// underlined.
pub open spec fn italic_text(text: Seq<char>) -> Seq<char> {
    underlined_text(text)
}

/// Text that can be given a style.
pub trait TextFormat: Sized {
    /// The characters of the text.
    spec fn text(self) -> Seq<char>;

    fn bold(self) -> (styled: String)
        ensures
            styled@ == bold_text(self.text()),
    ;

    fn italic(self) -> (styled: String)
        ensures
            styled@ == italic_text(self.text()),
    ;

    fn underlined(self) -> (styled: String)
        ensures
            styled@ == underlined_text(self.text()),
    ;
}

impl<'a> TextFormat for &'a str {
    open spec fn text(self) -> Seq<char> {
        self@
    }

    fn bold(self) -> (styled: String) {
        let mut styled = String::from_str("\x1b[1m");
        styled.append(self);
        styled.append("\x1b[0m");
        styled
    }

    fn italic(self) -> (styled: String) {
        self.underlined()
    }

    fn underlined(self) -> (styled: String) {
        let mut styled = String::from_str("\x1b[4m");
        styled.append(self);
        styled.append("\x1b[0m");
        styled
    }
}

} // verus!
