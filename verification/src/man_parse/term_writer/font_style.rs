//! The font styles that are switched on, and how text is rendered in them.
use crate::text::str_eq;
use crate::text_format::text_format;
use crate::text_format::text_format::TextFormat;
use vstd::prelude::*;

verus! {

/// A font style. `Regular` stands for the absence of the three others.
#[derive(Copy, Clone, Debug, PartialEq, Eq, Structural)]
pub enum FontStyle {
    Bold,
    Italic,
    Underlined,
    Regular,
}

/// Which styles are switched on.
pub struct StyleView {
    pub bold: bool,
    pub italic: bool,
    pub underlined: bool,
}

impl StyleView {
    /// No style is on.
    pub open spec fn plain() -> StyleView {
        StyleView { bold: false, italic: false, underlined: false }
    }

    /// The styles after `style` was switched on or off. `Regular` cannot be
    /// switched: either way it switches the three others off.
    pub open spec fn with(self, style: FontStyle, on: bool) -> StyleView {
        match style {
            FontStyle::Bold => StyleView { bold: on, ..self },
            FontStyle::Italic => StyleView { italic: on, ..self },
            FontStyle::Underlined => StyleView { underlined: on, ..self },
            FontStyle::Regular => StyleView::plain(),
        }
    }

    /// `text` in the style that applies, or `None` where it stays as it is.
    ///
    /// A single space is never styled. Of the styles that are on only the
    /// first applies, in the order bold, italic, underlined.
    pub open spec fn styled(self, text: Seq<char>) -> Option<Seq<char>> {
        if text == seq![' '] {
            None
        } else if self.bold {
            Some(text_format::bold_text(text))
        } else if self.italic {
            Some(text_format::italic_text(text))
        } else if self.underlined {
            Some(text_format::underlined_text(text))
        } else {
            None
        }
    }

    /// `text` as it is written out: styled where a style applies.
    pub open spec fn rendered(self, text: Seq<char>) -> Seq<char> {
        match self.styled(text) {
            Some(styled) => styled,
            None => text,
        }
    }
}

/// Holds which of bold, italic and underlined are switched on.
pub struct FontStyleState {
    bold: bool,
    italic: bool,
    underlined: bool,
}

impl View for FontStyleState {
    type V = StyleView;

    closed spec fn view(&self) -> StyleView {
        StyleView { bold: self.bold, italic: self.italic, underlined: self.underlined }
    }
}

impl Default for FontStyleState {
    fn default() -> (state: Self)
        ensures
            state@ == StyleView::plain(),
    {
        FontStyleState { bold: false, italic: false, underlined: false }
    }
}

impl FontStyleState {
    /// Switches `s` on or off.
    pub fn set_fontstyle_value(&mut self, s: FontStyle, val: bool)
        ensures
            final(self)@ == old(self)@.with(s, val),
    {
        match s {
            FontStyle::Bold => self.bold = val,
            FontStyle::Italic => self.italic = val,
            FontStyle::Underlined => self.underlined = val,
            FontStyle::Regular => {
                self.bold = false;
                self.italic = false;
                self.underlined = false;
            },
        }
    }

    /// `text` in the style that applies, or `None` where none does.
    pub fn stylize_text(&self, text: &str) -> (styled: Option<String>)
        ensures
            match styled {
                Some(s) => self@.styled(text@) == Some(s@),
                None => self@.styled(text@) is None,
            },
    {
        if str_eq(text, " ") {
            proof {
                reveal_strlit(" ");
                assert(" "@ =~= seq![' ']);
            }
            return None;
        }
        proof {
            reveal_strlit(" ");
            assert(" "@ =~= seq![' ']);
        }
        if self.bold {
            return Some(text.bold());
        }
        if self.italic {
            return Some(text.italic());
        }
        if self.underlined {
            return Some(text.underlined());
        }
        None
    }
}

} // verus!
