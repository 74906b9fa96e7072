//! What the macros and escapes of a token stream mean: each step of the
//! interpreter as a function from the state before it to the state after it.
//!
//! The functions here are mathematical: they say what a step leads to. The
//! interpreter in `troff_parser` computes them, and `interpreter_laws` holds
//! what is proved of them.
use crate::man_parse::man_section;
use crate::man_parse::man_section::ManSection;
use crate::man_parse::term_writer::font_style::{FontStyle, StyleView};
use crate::man_parse::term_writer::troff_term_writer::WriterView;
use crate::man_parse::troff_token_generator::{TroffToken, TroffTokenView};
use vstd::prelude::*;

verus! {

/// A token stream as contracts see it.
pub type Tokens = Seq<TroffTokenView>;

/// Why the interpreter gave up on a token stream.
#[derive(Debug, PartialEq, Eq, Clone, Copy, Structural)]
pub enum ParseError {
    /// A token does not hold what its place in the stream asks for.
    UnexpectedToken,
    /// The stream ends where a token is required.
    UnexpectedEnd,
    /// `.RE` asks to undo more margin increases than were made.
    MarginUnderflow,
    /// `.RS` asks for a margin greater than any number that can be held.
    MarginOverflow,
}

/// The macros that the interpreter knows.
#[derive(Debug, PartialEq, Eq, Clone, Copy, Structural)]
pub enum MacroKind {
    /// `.SH`, a section header.
    SH,
    /// `.SS`, a subsection header.
    SS,
    /// `.sp`, vertical space.
    Sp,
    /// `.br`, a line break.
    Br,
    /// `.nf`, the start of no-fill mode.
    Nf,
    /// `.fi`, the end of no-fill mode.
    Fi,
    /// `.TP`, a paragraph with a tag.
    TP,
    /// `.PD`, the distance between paragraphs.
    PD,
    /// `.B`, a line in bold.
    B,
    /// `.I`, a line in italics.
    I,
    /// `.IR`, words in italics and regular in turn.
    IR,
    /// `.BI`, words in bold and italics in turn.
    BI,
    /// `.IP`, an indented paragraph with a marker.
    IP,
    /// `.RS`, the start of a block with a greater margin.
    RS,
    /// `.RB`, words in regular and bold in turn.
    RB,
    /// `.RE`, the end of a block with a greater margin.
    RE,
    /// `.if`, a condition.
    If,
    /// `.PP`, `.LP` or `.P`, a new paragraph.
    P,
    /// Any other name.
    Unknown,
}

/// The macro with the given name, the leading `.` included.
pub open spec fn macro_kind(name: Seq<char>) -> MacroKind {
    if name == ".SH"@ {
        MacroKind::SH
    } else if name == ".SS"@ {
        MacroKind::SS
    } else if name == ".sp"@ {
        MacroKind::Sp
    } else if name == ".br"@ {
        MacroKind::Br
    } else if name == ".nf"@ {
        MacroKind::Nf
    } else if name == ".fi"@ {
        MacroKind::Fi
    } else if name == ".TP"@ {
        MacroKind::TP
    } else if name == ".PD"@ {
        MacroKind::PD
    } else if name == ".B"@ {
        MacroKind::B
    } else if name == ".I"@ {
        MacroKind::I
    } else if name == ".IR"@ {
        MacroKind::IR
    } else if name == ".BI"@ {
        MacroKind::BI
    } else if name == ".IP"@ {
        MacroKind::IP
    } else if name == ".RS"@ {
        MacroKind::RS
    } else if name == ".RB"@ {
        MacroKind::RB
    } else if name == ".RE"@ {
        MacroKind::RE
    } else if name == ".if"@ {
        MacroKind::If
    } else if name == ".PP"@ || name == ".LP"@ || name == ".P"@ {
        MacroKind::P
    } else {
        MacroKind::Unknown
    }
}

/// How `value` is written between double quotes in the trace: as the
/// standard library's `Debug` formatting of strings writes it, with its
/// escapes.
pub uninterp spec fn debug_text(value: Seq<char>) -> Seq<char>;

/// The `Debug` formatting of strings by the standard library, which writes
/// `value` between double quotes and escapes what cannot stand there as it
/// is. The result is a function of the characters of `value`; it is named,
/// not spelled out, and nothing more is claimed of it.
#[verifier::external_body]
pub(crate) fn debug_quoted(value: &str) -> (quoted: String)
    ensures
        quoted@ == debug_text(value@),
{
    format!("{:?}", value)
}

/// The note that the trace holds for a macro that is not known, where
/// `quoted` is the macro's name between quotes.
pub open spec fn unknown_macro_note(quoted: Seq<char>) -> Seq<char> {
    "[skipping unknown macro: "@ + quoted + "]"@
}

/// What the trace holds for a token: its text and a space, behind a line feed
/// where the token starts a line. White space is written as one space, an
/// empty line as `[el]`.
pub open spec fn token_trace(token: TroffTokenView) -> Seq<char> {
    let text = match token.class {
        TroffToken::Whitespace => seq![' '],
        TroffToken::EmptyLine => "[el]"@,
        _ => token.value,
    };
    if token.starts_line {
        seq!['\n'] + text + seq![' ']
    } else {
        text + seq![' ']
    }
}

/// The first position at or after `from` whose token is not white space, or
/// the end of the stream.
pub open spec fn spaces_end(t: Tokens, from: nat) -> nat
    decreases t.len() - from,
{
    if from < t.len() && t[from as int].class == TroffToken::Whitespace {
        spaces_end(t, from + 1)
    } else {
        from
    }
}

/// The first position at or after `from` whose token starts a line, or the
/// end of the stream.
pub open spec fn line_rest_end(t: Tokens, from: nat) -> nat
    decreases t.len() - from,
{
    if from < t.len() && !t[from as int].starts_line {
        line_rest_end(t, from + 1)
    } else {
        from
    }
}

/// The first position at or after `from` whose token starts a line or is a
/// double quote, or the end of the stream.
pub open spec fn group_end(t: Tokens, from: nat) -> nat
    decreases t.len() - from,
{
    if from < t.len() && !t[from as int].starts_line && t[from as int].class
        != TroffToken::DoubleQuote {
        group_end(t, from + 1)
    } else {
        from
    }
}

/// The texts of the tokens `t[from..to]`, joined.
pub open spec fn values(t: Tokens, from: nat, to: nat) -> Seq<char>
    decreases to,
{
    if from >= to || to > t.len() {
        seq![]
    } else {
        values(t, from, (to - 1) as nat) + t[to - 1].value
    }
}

/// The number of line breaks that `.sp` makes for the argument `value`: the
/// number that `value` stands for if it is greater than 0 and at most
/// 2147483647, else 2.
pub open spec fn sp_count(value: Seq<char>) -> nat {
    match crate::text::decimal_number(value) {
        Some(count) => if 0 < count <= 0x7fff_ffff {
            count
        } else {
            2
        },
        None => 2,
    }
}

/// The indentation that `.IP` sets for the width `value`: the whole part of
/// the decimal fraction that `value` stands for, or 0 where it stands for
/// none; the greatest number that can be held where that is less.
pub open spec fn ip_width(value: Seq<char>) -> nat {
    match crate::text::truncated_decimal(value) {
        Some(width) => if width <= usize::MAX {
            width
        } else {
            usize::MAX as nat
        },
        None => 0,
    }
}

/// The state of the interpreter.
pub struct ParserView {
    /// The position of the current token; the length of the stream once every
    /// token was consumed.
    pub cursor: nat,
    /// The section that the latest header began, if sections are tracked.
    pub current_section: Option<ManSection>,
    /// The one section to render; `None` to render all.
    pub parse_section: Option<ManSection>,
    /// The trace of the tokens that were looked at.
    pub trace: Seq<char>,
    /// The layout engine.
    pub writer: WriterView,
    /// The arguments to look for in the page, if any.
    pub args: Option<Seq<Seq<char>>>,
    /// Whether the margin is drawn.
    pub debug: bool,
}

/// A macro argument: the state behind it, and the positions of its tokens,
/// from `from` up to but not including `to`.
pub struct ArgView {
    pub state: ParserView,
    pub from: nat,
    pub to: nat,
}

/// The number that the first of the tokens `t[from..to]` stands for, if
/// there is a token and it stands for one.
pub open spec fn first_number(t: Tokens, from: nat, to: nat) -> Option<usize> {
    if from < to && from < t.len() {
        crate::text::decimal_usize(t[from as int].value)
    } else {
        None
    }
}

impl ArgView {
    /// The number that the argument stands for, if it stands for one.
    pub open spec fn number(self, t: Tokens) -> Option<usize> {
        first_number(t, self.from, self.to)
    }
}

impl ParserView {
    /// The state of a new interpreter over the given layout engine.
    pub open spec fn initial(writer: WriterView) -> ParserView {
        ParserView {
            cursor: 0,
            current_section: None,
            parse_section: None,
            trace: seq![],
            writer,
            args: None,
            debug: false,
        }
    }

    /// The current token, if the stream has not ended.
    pub open spec fn current(self, t: Tokens) -> Option<TroffTokenView> {
        if self.cursor < t.len() {
            Some(t[self.cursor as int])
        } else {
            None
        }
    }

    /// Whether output is visible: no section was asked for, or the section
    /// asked for is the current one.
    pub open spec fn section_matches(self) -> bool {
        self.parse_section is None || self.parse_section == self.current_section
    }

    /// With another state of the layout engine.
    pub open spec fn with_writer(self, writer: WriterView) -> ParserView {
        ParserView { writer, ..self }
    }

    /// After `text` was added to the trace, which happens only while output
    /// is visible.
    pub open spec fn traced(self, text: Seq<char>) -> ParserView {
        if self.section_matches() {
            ParserView { trace: self.trace + text, ..self }
        } else {
            self
        }
    }

    /// Before the first step: the first token is traced.
    pub open spec fn started(self, t: Tokens) -> ParserView {
        if self.cursor < t.len() {
            self.traced(token_trace(t[self.cursor as int]))
        } else {
            self
        }
    }

    /// After the current token was consumed: the cursor has moved on by one,
    /// and the token that is now current is traced. At the end of the stream
    /// nothing changes.
    pub open spec fn consumed(self, t: Tokens) -> ParserView {
        if self.cursor >= t.len() {
            self
        } else {
            let next = ParserView { cursor: self.cursor + 1, ..self };
            if next.cursor < t.len() {
                next.traced(token_trace(t[next.cursor as int]))
            } else {
                next
            }
        }
    }

    /// After the tokens up to position `end` were consumed one by one.
    pub open spec fn consumed_to(self, t: Tokens, end: nat) -> ParserView
        decreases end - self.cursor,
    {
        if self.cursor < end && self.cursor < t.len() {
            self.consumed(t).consumed_to(t, end)
        } else {
            self
        }
    }

    /// After the white space at the cursor was consumed.
    pub open spec fn spaces_skipped(self, t: Tokens) -> ParserView {
        self.consumed_to(t, spaces_end(t, self.cursor))
    }

    /// After the rest of the line was consumed.
    pub open spec fn line_skipped(self, t: Tokens) -> ParserView {
        self.consumed_to(t, line_rest_end(t, self.cursor))
    }

    /// After `text` was added to the output, if output is visible.
    pub open spec fn with_output(self, text: Seq<char>) -> ParserView {
        if self.section_matches() {
            self.with_writer(self.writer.with_text(text))
        } else {
            self
        }
    }

    /// After the texts of the tokens `t[from..to]` were added to the output
    /// one by one.
    pub open spec fn with_outputs(self, t: Tokens, from: nat, to: nat) -> ParserView
        decreases to,
    {
        if from >= to || to > t.len() {
            self
        } else {
            self.with_outputs(t, from, (to - 1) as nat).with_output(t[to - 1].value)
        }
    }

    /// After a line break, if output is visible.
    pub open spec fn with_linebreak(self) -> ParserView {
        if self.section_matches() {
            self.with_writer(self.writer.with_linebreak())
        } else {
            self
        }
    }

    /// After `count` line breaks.
    pub open spec fn with_linebreaks(self, count: nat) -> ParserView
        decreases count,
    {
        if count == 0 {
            self
        } else {
            self.with_linebreaks((count - 1) as nat).with_linebreak()
        }
    }

    /// After a blank line: two line breaks.
    pub open spec fn with_blank_line(self) -> ParserView {
        self.with_linebreak().with_linebreak()
    }

    /// After a line break that is made only if the current line holds more
    /// than white space. On a line of white space the start position may
    /// have changed, so that line is padded anew.
    pub open spec fn with_single_linebreak(self) -> ParserView {
        if self.writer.line.other != 0 {
            self.with_linebreak()
        } else if self.section_matches() {
            self.with_writer(self.writer.padded())
        } else {
            self
        }
    }

    /// With the font style `style` switched on or off.
    pub open spec fn with_style(self, style: FontStyle, on: bool) -> ParserView {
        self.with_writer(WriterView { style: self.writer.style.with(style, on), ..self.writer })
    }

    /// With every font style switched off.
    pub open spec fn with_plain_style(self) -> ParserView {
        self.with_writer(WriterView { style: StyleView::plain(), ..self.writer })
    }

    /// With the indentation `indent`.
    pub open spec fn with_indent(self, indent: nat) -> ParserView {
        self.with_writer(WriterView { indent, ..self.writer })
    }

    /// With the current indentation stored.
    pub open spec fn with_indent_stored(self) -> ParserView {
        self.with_writer(
            WriterView { stored_indent: Some(self.writer.indent), ..self.writer },
        )
    }

    /// A quoted group, where the current token is the opening double quote:
    /// the tokens up to the next double quote of the line. The closing quote
    /// is consumed too; a line that ends before it ends the group.
    pub open spec fn quoted_group(self, t: Tokens) -> ArgView {
        let opened = self.consumed(t);
        let end = group_end(t, opened.cursor);
        let inside = opened.consumed_to(t, end);
        ArgView {
            state: if end < t.len() && !t[end as int].starts_line {
                inside.consumed(t)
            } else {
                inside
            },
            from: opened.cursor,
            to: end,
        }
    }

    /// The next argument of a macro: behind white space, the one token at the
    /// cursor, or the quoted group that begins there. The argument is empty
    /// where the line or the stream ends first.
    pub open spec fn macro_arg(self, t: Tokens) -> ArgView {
        let at = self.spaces_skipped(t);
        if at.cursor >= t.len() || t[at.cursor as int].starts_line {
            ArgView { state: at, from: at.cursor, to: at.cursor }
        } else if t[at.cursor as int].class == TroffToken::DoubleQuote {
            at.quoted_group(t)
        } else {
            ArgView { state: at.consumed(t), from: at.cursor, to: at.cursor + 1 }
        }
    }

    /// Whether this state lies further on in the stream than `from` does.
    ///
    /// Each step of the interpreter consumes at least one token, so a state
    /// that a step leads to has always moved on; `progress_laws` proves it.
    /// The functions below that continue from such a state ask for it first,
    /// which makes them well founded.
    pub open spec fn moved_on(self, t: Tokens, from: ParserView) -> bool {
        from.cursor < self.cursor <= t.len()
    }

    /// A word of plain text: it is added to the output.
    pub open spec fn parse_textword(self, t: Tokens) -> ParserView {
        match self.current(t) {
            Some(token) => self.with_output(token.value).consumed(t),
            None => self,
        }
    }

    /// White space between words: it is added to the output as it is.
    pub open spec fn parse_whitespace(self, t: Tokens) -> ParserView {
        self.parse_textword(t)
    }

    /// An empty line of the source: a blank line.
    pub open spec fn parse_empty_line(self, t: Tokens) -> ParserView {
        self.consumed(t).with_blank_line()
    }

    /// `.PP`, `.LP` and `.P`: no indentation, no font style, and a blank line
    /// unless the current line is blank.
    #[verifier::opaque]
    pub open spec fn parse_p(self, t: Tokens) -> ParserView {
        let plain = self.consumed(t).with_indent(0).with_plain_style();
        if plain.writer.line.other != 0 {
            plain.with_blank_line()
        } else {
            plain
        }
    }

    /// `.PD`: the indentation becomes the number given, 0 if none is.
    #[verifier::opaque]
    pub open spec fn parse_pd(self, t: Tokens) -> ParserView {
        let arg = self.consumed(t).macro_arg(t);
        arg.state.with_indent(
            match arg.number(t) {
                Some(indent) => indent as nat,
                None => 0,
            },
        )
    }

    /// `.sp`: as many line breaks as the argument says, 2 without one, if the
    /// current line holds more than white space.
    #[verifier::opaque]
    pub open spec fn parse_sp(self, t: Tokens) -> ParserView {
        let arg = self.consumed(t).macro_arg(t);
        let count = if arg.from < arg.to && arg.from < t.len() {
            sp_count(t[arg.from as int].value)
        } else {
            2
        };
        if arg.state.writer.line.other != 0 {
            arg.state.with_linebreaks(count)
        } else {
            arg.state
        }
    }

    /// `.br`: a line break, unless the current line is blank.
    pub open spec fn parse_br(self, t: Tokens) -> ParserView {
        self.consumed(t).with_single_linebreak()
    }

    /// `.nf`: a line break, unless the current line is blank, and no-fill
    /// mode from then on.
    pub open spec fn parse_nf(self, t: Tokens) -> ParserView {
        let broken = self.consumed(t).with_single_linebreak();
        broken.with_writer(WriterView { nofill: true, ..broken.writer })
    }

    /// `.fi`: the end of no-fill mode.
    pub open spec fn parse_fi(self, t: Tokens) -> ParserView {
        let at = self.consumed(t);
        at.with_writer(WriterView { nofill: false, ..at.writer })
    }

    /// `.if`: conditions count as false, so the rest of the line is passed
    /// over.
    pub open spec fn parse_if(self, t: Tokens) -> ParserView {
        self.consumed(t).line_skipped(t)
    }

    /// `.SS`: a blank line and the title in bold.
    #[verifier::opaque]
    pub open spec fn parse_ss(self, t: Tokens) -> ParserView {
        let arg = self.consumed(t).with_blank_line().macro_arg(t);
        arg.state.with_style(FontStyle::Bold, true).with_outputs(
            t,
            arg.from,
            arg.to,
        ).with_plain_style()
    }

    /// The arguments of the rest of the line, joined, and the state behind
    /// them. An empty argument ends them.
    pub open spec fn title_collected(self, t: Tokens) -> (ParserView, Seq<char>)
        decreases t.len() - self.cursor,
    {
        let arg = self.macro_arg(t);
        if arg.from >= arg.to || self.cursor > t.len() {
            (arg.state, seq![])
        } else {
            proof {
                lemma_macro_arg(self, t);
            }
            let (state, rest) = arg.state.title_collected(t);
            (state, values(t, arg.from, arg.to) + rest)
        }
    }

    /// After the title of a section header was written: in bold at the left
    /// edge after a blank line, with the text below it on a new line at the
    /// default margin.
    pub open spec fn with_header(self, title: Seq<char>) -> ParserView {
        let flush = self.with_writer(self.writer.with_zero_margin()).with_indent(0);
        let spaced = if flush.writer.line.other != 0 {
            flush.with_blank_line()
        } else {
            flush.with_linebreak()
        };
        let titled = spaced.with_style(FontStyle::Bold, true).with_output(
            title,
        ).with_plain_style();
        titled.with_writer(titled.writer.with_default_margin()).with_indent(
            0,
        ).with_single_linebreak()
    }

    /// `.SH`: a section header.
    ///
    /// Where one section is asked for, the header says which section begins,
    /// and nothing is written. Otherwise the title is written as a header.
    #[verifier::opaque]
    pub open spec fn parse_sh(self, t: Tokens) -> ParserView {
        let (at, title) = self.consumed(t).title_collected(t);
        if at.parse_section is Some {
            ParserView {
                current_section: Some(man_section::section_titled(title)),
                ..at
            }
        } else {
            at.with_header(title)
        }
    }

    /// `.RS`: the margin grows by the number given, or by the stored
    /// indentation without one; the indentation becomes 0.
    #[verifier::opaque]
    pub open spec fn parse_rs(self, t: Tokens) -> Result<ParserView, ParseError> {
        let arg = self.consumed(t).macro_arg(t);
        let size = match arg.number(t) {
            Some(size) => size as nat,
            None => arg.state.writer.stored_or_default_indent(),
        };
        if arg.state.writer.margin + size > usize::MAX {
            Err(ParseError::MarginOverflow)
        } else {
            Ok(
                arg.state.with_writer(arg.state.writer.with_margin_pushed(size)).with_indent(
                    0,
                ).with_single_linebreak(),
            )
        }
    }

    /// `.RE`: as many margin increases as the number given are undone, the
    /// latest first, one without a number; the indentation becomes 0 and the
    /// stored indentation is forgotten. To undo more than were made is an
    /// error.
    #[verifier::opaque]
    pub open spec fn parse_re(self, t: Tokens) -> Result<ParserView, ParseError> {
        let arg = self.consumed(t).macro_arg(t);
        let count = match arg.number(t) {
            Some(count) => count as nat,
            None => 1,
        };
        if count > arg.state.writer.margin_stack.len() {
            Err(ParseError::MarginUnderflow)
        } else {
            let popped = arg.state.writer.with_margins_popped(count);
            Ok(arg.state.with_writer(WriterView { indent: 0, stored_indent: None, ..popped }))
        }
    }

    /// A macro that is not known: the trace takes note of it, and the macro
    /// token alone is passed over.
    #[verifier::opaque]
    pub open spec fn parse_unknown(self, t: Tokens) -> ParserView {
        match self.current(t) {
            Some(token) => self.traced(unknown_macro_note(debug_text(token.value))).consumed(t),
            None => self,
        }
    }

    /// `\(` and the name of a special character: `cq` is an apostrophe, any
    /// other name is nothing.
    pub open spec fn parse_special_character(self, t: Tokens) -> ParserView {
        let at = self.consumed(t);
        match at.current(t) {
            Some(name) => if name.value == seq!['c', 'q'] {
                at.with_output(seq!['\'']).consumed(t)
            } else {
                at.consumed(t)
            },
            None => at,
        }
    }

    /// `\f` and a font: `B` switches bold on, `I` italics, `R` and `P` every
    /// style off; any other font changes nothing.
    pub open spec fn parse_font_format(self, t: Tokens) -> ParserView {
        let at = self.consumed(t);
        match at.current(t) {
            Some(font) => if font.value == seq!['B'] {
                at.with_style(FontStyle::Bold, true).consumed(t)
            } else if font.value == seq!['I'] {
                at.with_style(FontStyle::Italic, true).consumed(t)
            } else if font.value == seq!['R'] || font.value == seq!['P'] {
                at.with_plain_style().consumed(t)
            } else {
                at.consumed(t)
            },
            None => at,
        }
    }

    /// `\m` and a colour, which is passed over: colours are not rendered.
    /// The colour is one token; or `(` and one token; or `[`, then `]` or one
    /// token and `]`. Anything but `]` in that last place is an error.
    #[verifier::opaque]
    pub open spec fn parse_color_format(self, t: Tokens) -> Result<ParserView, ParseError> {
        let at = self.consumed(t);
        match at.current(t) {
            None => Ok(at),
            Some(first) => if first.value == seq!['['] {
                let inside = at.consumed(t);
                match inside.current(t) {
                    None => Ok(inside),
                    Some(colour) => if colour.value == seq![']'] {
                        Ok(inside.consumed(t))
                    } else {
                        let close = inside.consumed(t);
                        match close.current(t) {
                            None => Err(ParseError::UnexpectedEnd),
                            Some(bracket) => if bracket.value == seq![']'] {
                                Ok(close.consumed(t))
                            } else {
                                Err(ParseError::UnexpectedToken)
                            },
                        }
                    },
                }
            } else if first.value == seq!['('] {
                Ok(at.consumed(t).consumed(t))
            } else {
                Ok(at.consumed(t))
            },
        }
    }

    /// A `\` and what it escapes.
    ///
    /// `\-` is a hyphen; `\(` begins a special character; `\f` sets the
    /// font, and a space is added where nothing follows the font on its
    /// line; `\m` sets a colour. Any other escape is passed over. A token of
    /// class backslash that does not hold a `\` is an error.
    #[verifier::opaque]
    pub open spec fn parse_backslash(self, t: Tokens) -> Result<ParserView, ParseError> {
        match self.current(t) {
            None => Ok(self),
            Some(backslash) => if backslash.value != seq!['\\'] {
                Err(ParseError::UnexpectedToken)
            } else {
                let at = self.consumed(t);
                match at.current(t) {
                    None => Ok(at),
                    Some(command) => if command.value == seq!['-'] {
                        Ok(at.consumed(t).with_output(seq!['-']))
                    } else if command.value == seq!['('] {
                        Ok(at.parse_special_character(t))
                    } else if command.value == seq!['f'] {
                        let set = at.parse_font_format(t);
                        Ok(
                            if set.cursor >= t.len() || t[set.cursor as int].starts_line {
                                set.with_output(seq![' '])
                            } else {
                                set
                            },
                        )
                    } else if command.value == seq!['m'] {
                        at.parse_color_format(t)
                    } else {
                        Ok(at.consumed(t))
                    },
                }
            },
        }
    }

    /// The words of a line, up to the next token that starts a line.
    pub open spec fn parse_line(self, t: Tokens) -> Result<ParserView, ParseError>
        decreases t.len() - self.cursor, 4int,
    {
        if self.cursor >= t.len() {
            Ok(self)
        } else {
            match self.parse_word(t) {
                Err(e) => Err(e),
                Ok(next) => if next.cursor >= t.len() || t[next.cursor as int].starts_line
                    || !next.moved_on(t, self) {
                    Ok(next)
                } else {
                    next.parse_line(t)
                },
            }
        }
    }

    /// One word: by the class of the current token a macro, an empty line,
    /// an escape, white space, a double quote, which is passed over, or
    /// plain text.
    pub open spec fn parse_word(self, t: Tokens) -> Result<ParserView, ParseError>
        decreases t.len() - self.cursor, 2int,
    {
        if self.cursor >= t.len() {
            Ok(self)
        } else {
            match t[self.cursor as int].class {
                TroffToken::Macro => self.parse_macro(t),
                TroffToken::EmptyLine => Ok(self.parse_empty_line(t)),
                TroffToken::Backslash => self.parse_backslash(t),
                TroffToken::Whitespace => Ok(self.parse_whitespace(t)),
                TroffToken::DoubleQuote => Ok(self.consumed(t)),
                _ => Ok(self.parse_textword(t)),
            }
        }
    }

    /// A macro, by its name.
    pub open spec fn parse_macro(self, t: Tokens) -> Result<ParserView, ParseError>
        decreases t.len() - self.cursor, 1int,
    {
        if self.cursor >= t.len() {
            Ok(self)
        } else {
            match macro_kind(t[self.cursor as int].value) {
                MacroKind::SH => Ok(self.parse_sh(t)),
                MacroKind::SS => Ok(self.parse_ss(t)),
                MacroKind::Sp => Ok(self.parse_sp(t)),
                MacroKind::Br => Ok(self.parse_br(t)),
                MacroKind::Nf => Ok(self.parse_nf(t)),
                MacroKind::Fi => Ok(self.parse_fi(t)),
                MacroKind::TP => self.parse_tp(t),
                MacroKind::PD => Ok(self.parse_pd(t)),
                MacroKind::B => self.parse_b(t),
                MacroKind::I => self.parse_i(t),
                MacroKind::IR => self.parse_ir(t),
                MacroKind::BI => self.parse_bi(t),
                MacroKind::IP => self.parse_ip(t),
                MacroKind::RS => self.parse_rs(t),
                MacroKind::RB => self.parse_rb(t),
                MacroKind::RE => self.parse_re(t),
                MacroKind::If => Ok(self.parse_if(t)),
                MacroKind::P => Ok(self.parse_p(t)),
                MacroKind::Unknown => Ok(self.parse_unknown(t)),
            }
        }
    }

    /// The indentation of the body of a paragraph whose macro has the
    /// argument `arg`: the number given, else the stored indentation or the
    /// default.
    pub open spec fn body_indent(self, t: Tokens, arg: ArgView) -> nat {
        match arg.number(t) {
            Some(indent) => indent as nat,
            None => self.writer.stored_or_default_indent(),
        }
    }

    /// The indentation that `.TP` gives the body of its paragraph.
    pub open spec fn tp_indent(self, t: Tokens) -> nat {
        let arg = self.consumed(t).macro_arg(t);
        arg.state.body_indent(t, arg)
    }

    /// The state in which the tag of `.TP` is read: behind the macro and its
    /// argument, on a new line without indentation.
    #[verifier::opaque]
    pub open spec fn tp_tag(self, t: Tokens) -> ParserView {
        self.consumed(t).macro_arg(t).state.with_indent(0).with_single_linebreak().spaces_skipped(
            t,
        )
    }

    /// The state in which the body of `.TP` is read: behind the tag, on a new
    /// line with the indentation `indent`, which is stored.
    pub open spec fn tp_body(self, indent: nat) -> ParserView {
        self.with_indent(indent).with_indent_stored().with_single_linebreak()
    }

    /// `.TP`: a paragraph with a tag.
    ///
    /// The next line is the tag, written on a line of its own without
    /// indentation. The line after it is the body, on a new line with the
    /// indentation of the argument, which is stored.
    pub open spec fn parse_tp(self, t: Tokens) -> Result<ParserView, ParseError>
        decreases t.len() - self.cursor, 0int,
    {
        if self.cursor >= t.len() {
            Ok(self)
        } else {
            proof {
                lemma_tp_tag_moves_on(self, t);
            }
            match self.tp_tag(t).parse_line(t) {
                Err(e) => Err(e),
                Ok(tagged) => {
                    let body = tagged.tp_body(self.tp_indent(t));
                    if !body.moved_on(t, self) {
                        Ok(body)
                    } else {
                        body.parse_line(t)
                    }
                },
            }
        }
    }

    /// The state in which the body of `.IP` is read: behind the macro, its
    /// marker and its width, on a new line.
    ///
    /// After a blank line the marker, if there is one, is written without
    /// indentation. A width, if there is one, sets the indentation of the
    /// body and is stored; without one the stored indentation or the default
    /// applies.
    #[verifier::opaque]
    pub open spec fn ip_body(self, t: Tokens) -> ParserView {
        let marker = self.consumed(t).with_indent(0).with_blank_line().spaces_skipped(
            t,
        ).macro_arg(t);
        let width = marker.state.with_outputs(t, marker.from, marker.to).spaces_skipped(
            t,
        ).macro_arg(t);
        let indented = if width.from < width.to && width.from < t.len() {
            width.state.with_indent(ip_width(t[width.from as int].value)).with_indent_stored()
        } else {
            width.state.with_indent(width.state.writer.stored_or_default_indent())
        };
        indented.with_single_linebreak()
    }

    /// `.IP`: an indented paragraph. Its body is the rest of the line, or the
    /// next line where the macro stands alone.
    pub open spec fn parse_ip(self, t: Tokens) -> Result<ParserView, ParseError>
        decreases t.len() - self.cursor, 0int,
    {
        if self.cursor >= t.len() {
            Ok(self)
        } else {
            proof {
                lemma_ip_body_moves_on(self, t);
            }
            self.ip_body(t).parse_line(t)
        }
    }

    /// The rest of the line in the font style `style`, with a space behind
    /// it.
    pub open spec fn parse_line_with_style(self, t: Tokens, style: FontStyle) -> Result<
        ParserView,
        ParseError,
    >
        decreases t.len() - self.cursor, 5int,
    {
        if self.cursor > t.len() {
            Ok(self)
        } else {
            let styled = self.with_style(style, true).spaces_skipped(t);
            proof {
                lemma_spaces_skipped(self.with_style(style, true), t);
            }
            match styled.parse_line(t) {
                Err(e) => Err(e),
                Ok(written) => Ok(written.with_style(style, false).with_output(seq![' '])),
            }
        }
    }

    /// `.B`: the rest of the line in bold, or the next line where the macro
    /// stands alone.
    pub open spec fn parse_b(self, t: Tokens) -> Result<ParserView, ParseError>
        decreases t.len() - self.cursor, 0int,
    {
        if self.cursor >= t.len() {
            Ok(self)
        } else {
            self.consumed(t).parse_line_with_style(t, FontStyle::Bold)
        }
    }

    /// `.I`: the rest of the line in italics, or the next line where the
    /// macro stands alone.
    pub open spec fn parse_i(self, t: Tokens) -> Result<ParserView, ParseError>
        decreases t.len() - self.cursor, 0int,
    {
        if self.cursor >= t.len() {
            Ok(self)
        } else {
            self.consumed(t).parse_line_with_style(t, FontStyle::Italic)
        }
    }

    /// One word in the font style `style`, which is switched on before the
    /// word and off behind it. A quoted group counts as one word.
    pub open spec fn styled_word(self, t: Tokens, style: FontStyle) -> Result<
        ParserView,
        ParseError,
    >
        decreases t.len() - self.cursor, 3int,
    {
        if self.cursor >= t.len() {
            Ok(self)
        } else {
            let styled = self.with_style(style, true);
            if t[self.cursor as int].class == TroffToken::DoubleQuote {
                let group = styled.quoted_group(t);
                Ok(
                    group.state.with_outputs(t, group.from, group.to).with_style(style, false),
                )
            } else {
                match styled.parse_word(t) {
                    Err(e) => Err(e),
                    Ok(written) => Ok(written.with_style(style, false)),
                }
            }
        }
    }

    /// The rest of a line whose words take two font styles in turn.
    ///
    /// `on_first` tells which of the two the next word takes; white space
    /// between words switches to the other. The line ends with a space where
    /// another line follows.
    pub open spec fn alternation(
        self,
        t: Tokens,
        first: FontStyle,
        second: FontStyle,
        on_first: bool,
    ) -> Result<ParserView, ParseError>
        decreases t.len() - self.cursor, 4int,
    {
        if self.cursor >= t.len() {
            Ok(self)
        } else if t[self.cursor as int].starts_line {
            Ok(self.with_output(seq![' ']))
        } else if t[self.cursor as int].class == TroffToken::Whitespace {
            proof {
                lemma_spaces_skipped(self, t);
            }
            self.spaces_skipped(t).alternation(t, first, second, !on_first)
        } else {
            match self.styled_word(
                t,
                if on_first {
                    first
                } else {
                    second
                },
            ) {
                Err(e) => Err(e),
                Ok(next) => if !next.moved_on(t, self) {
                    Ok(next)
                } else {
                    next.alternation(t, first, second, on_first)
                },
            }
        }
    }

    /// The rest of the line in the two font styles in turn, the first word in
    /// `first`.
    pub open spec fn parse_alternation(self, t: Tokens, first: FontStyle, second: FontStyle) -> Result<
        ParserView,
        ParseError,
    >
        decreases t.len() - self.cursor, 5int,
    {
        if self.cursor > t.len() {
            Ok(self)
        } else {
            proof {
                lemma_spaces_skipped(self, t);
            }
            self.spaces_skipped(t).alternation(t, first, second, true)
        }
    }

    /// `.IR`: italics and regular in turn.
    pub open spec fn parse_ir(self, t: Tokens) -> Result<ParserView, ParseError>
        decreases t.len() - self.cursor, 0int,
    {
        if self.cursor >= t.len() {
            Ok(self)
        } else {
            self.consumed(t).parse_alternation(t, FontStyle::Italic, FontStyle::Regular)
        }
    }

    /// `.RB`: regular and bold in turn.
    pub open spec fn parse_rb(self, t: Tokens) -> Result<ParserView, ParseError>
        decreases t.len() - self.cursor, 0int,
    {
        if self.cursor >= t.len() {
            Ok(self)
        } else {
            self.consumed(t).parse_alternation(t, FontStyle::Regular, FontStyle::Bold)
        }
    }

    /// `.BI`: bold and italics in turn.
    pub open spec fn parse_bi(self, t: Tokens) -> Result<ParserView, ParseError>
        decreases t.len() - self.cursor, 0int,
    {
        if self.cursor >= t.len() {
            Ok(self)
        } else {
            self.consumed(t).parse_alternation(t, FontStyle::Bold, FontStyle::Italic)
        }
    }

    /// One step at the top level.
    ///
    /// In no-fill mode a token that starts a line is preceded by a line
    /// break, unless the current line is blank. A macro is interpreted; any
    /// other token begins a line of text, which ends with a space unless it
    /// left the line blank.
    pub open spec fn parse_token(self, t: Tokens) -> Result<ParserView, ParseError> {
        match self.current(t) {
            None => Ok(self),
            Some(token) => {
                let at = if self.writer.nofill && token.starts_line {
                    self.with_single_linebreak()
                } else {
                    self
                };
                if token.class == TroffToken::Macro {
                    at.parse_macro(t)
                } else {
                    match at.parse_line(t) {
                        Err(e) => Err(e),
                        Ok(written) => Ok(
                            if written.writer.line.other != 0 {
                                written.with_output(seq![' '])
                            } else {
                                written
                            },
                        ),
                    }
                }
            },
        }
    }

    /// Step after step to the end of the stream.
    pub open spec fn parse_tokens(self, t: Tokens) -> Result<ParserView, ParseError>
        decreases t.len() - self.cursor,
    {
        if self.cursor >= t.len() {
            Ok(self)
        } else {
            match self.parse_token(t) {
                Err(e) => Err(e),
                Ok(next) => if !next.moved_on(t, self) {
                    Ok(next)
                } else {
                    next.parse_tokens(t)
                },
            }
        }
    }

    /// The whole of a token stream: the first token is traced, then the
    /// stream is interpreted step by step from the cursor to its end.
    pub open spec fn parse(self, t: Tokens) -> Result<ParserView, ParseError> {
        self.started(t).parse_tokens(t)
    }
}

/// [`spaces_end`] lies at or after `from` and within the stream, and white
/// space at `from` lies before it.
pub proof fn lemma_spaces_end(t: Tokens, from: nat)
    requires
        from <= t.len(),
    ensures
        from <= spaces_end(t, from) <= t.len(),
        from < t.len() && t[from as int].class == TroffToken::Whitespace ==> from < spaces_end(
            t,
            from,
        ),
    decreases t.len() - from,
{
    if from < t.len() && t[from as int].class == TroffToken::Whitespace {
        lemma_spaces_end(t, from + 1);
    }
}

/// [`line_rest_end`] lies at or after `from` and within the stream.
pub proof fn lemma_line_rest_end(t: Tokens, from: nat)
    requires
        from <= t.len(),
    ensures
        from <= line_rest_end(t, from) <= t.len(),
    decreases t.len() - from,
{
    if from < t.len() && !t[from as int].starts_line {
        lemma_line_rest_end(t, from + 1);
    }
}

/// [`group_end`] lies at or after `from` and within the stream.
pub proof fn lemma_group_end(t: Tokens, from: nat)
    requires
        from <= t.len(),
    ensures
        from <= group_end(t, from) <= t.len(),
    decreases t.len() - from,
{
    if from < t.len() && !t[from as int].starts_line && t[from as int].class
        != TroffToken::DoubleQuote {
        lemma_group_end(t, from + 1);
    }
}

/// Consuming up to `end` moves the cursor there and changes nothing but the
/// cursor and the trace.
pub proof fn lemma_consumed_to(s: ParserView, t: Tokens, end: nat)
    requires
        s.cursor <= end <= t.len(),
    ensures
        s.consumed_to(t, end) == (ParserView {
            cursor: end,
            trace: s.consumed_to(t, end).trace,
            ..s
        }),
    decreases end - s.cursor,
{
    if s.cursor < end {
        lemma_consumed_to(s.consumed(t), t, end);
    }
}

/// Skipping white space moves the cursor on, beyond any white space that it
/// stood at, and changes nothing but the cursor and the trace.
pub proof fn lemma_spaces_skipped(s: ParserView, t: Tokens)
    requires
        s.cursor <= t.len(),
    ensures
        s.cursor <= s.spaces_skipped(t).cursor <= t.len(),
        s.spaces_skipped(t).cursor == spaces_end(t, s.cursor),
        s.cursor < t.len() && t[s.cursor as int].class == TroffToken::Whitespace ==> s.cursor
            < s.spaces_skipped(t).cursor,
        s.spaces_skipped(t) == (ParserView {
            cursor: s.spaces_skipped(t).cursor,
            trace: s.spaces_skipped(t).trace,
            ..s
        }),
{
    lemma_spaces_end(t, s.cursor);
    lemma_consumed_to(s, t, spaces_end(t, s.cursor));
}

/// A quoted group consumes its opening quote at least, and changes nothing
/// but the cursor and the trace.
pub proof fn lemma_quoted_group(s: ParserView, t: Tokens)
    requires
        s.cursor < t.len(),
    ensures
        s.cursor < s.quoted_group(t).state.cursor <= t.len(),
        s.quoted_group(t).from == s.cursor + 1,
        s.quoted_group(t).from <= s.quoted_group(t).to <= s.quoted_group(t).state.cursor,
        s.quoted_group(t).state == (ParserView {
            cursor: s.quoted_group(t).state.cursor,
            trace: s.quoted_group(t).state.trace,
            ..s
        }),
{
    let opened = s.consumed(t);
    lemma_group_end(t, opened.cursor);
    lemma_consumed_to(opened, t, group_end(t, opened.cursor));
}

/// A macro argument never moves the cursor back, moves it on where the
/// argument is not empty, and changes nothing but the cursor and the trace.
pub proof fn lemma_macro_arg(s: ParserView, t: Tokens)
    requires
        s.cursor <= t.len(),
    ensures
        s.cursor <= s.macro_arg(t).state.cursor <= t.len(),
        s.cursor <= s.macro_arg(t).from <= s.macro_arg(t).to <= s.macro_arg(t).state.cursor,
        s.macro_arg(t).from < s.macro_arg(t).to ==> s.cursor < s.macro_arg(t).state.cursor,
        s.macro_arg(t).state == (ParserView {
            cursor: s.macro_arg(t).state.cursor,
            trace: s.macro_arg(t).state.trace,
            ..s
        }),
{
    lemma_spaces_skipped(s, t);
    let at = s.spaces_skipped(t);
    if at.cursor < t.len() && !t[at.cursor as int].starts_line && t[at.cursor as int].class
        == TroffToken::DoubleQuote {
        lemma_quoted_group(at, t);
    }
}

/// The tag of `.TP` is read behind the macro.
pub proof fn lemma_tp_tag_moves_on(s: ParserView, t: Tokens)
    requires
        s.cursor < t.len(),
    ensures
        s.cursor < s.tp_tag(t).cursor <= t.len(),
{
    reveal(ParserView::tp_tag);
    lemma_macro_arg(s.consumed(t), t);
    lemma_spaces_skipped(
        s.consumed(t).macro_arg(t).state.with_indent(0).with_single_linebreak(),
        t,
    );
}

/// The body of `.IP` begins behind the macro.
pub proof fn lemma_ip_body_moves_on(s: ParserView, t: Tokens)
    requires
        s.cursor < t.len(),
    ensures
        s.cursor < s.ip_body(t).cursor <= t.len(),
{
    reveal(ParserView::ip_body);
    let blank = s.consumed(t).with_indent(0).with_blank_line();
    lemma_spaces_skipped(blank, t);
    lemma_macro_arg(blank.spaces_skipped(t), t);
    let marker = blank.spaces_skipped(t).macro_arg(t);
    lemma_with_outputs(marker.state, t, marker.from, marker.to);
    let written = marker.state.with_outputs(t, marker.from, marker.to);
    lemma_spaces_skipped(written, t);
    lemma_macro_arg(written.spaces_skipped(t), t);
}

/// Output leaves the cursor where it is.
pub proof fn lemma_with_outputs(s: ParserView, t: Tokens, from: nat, to: nat)
    ensures
        s.with_outputs(t, from, to).cursor == s.cursor,
    decreases to,
{
    if from < to && to <= t.len() {
        lemma_with_outputs(s, t, from, (to - 1) as nat);
    }
}

} // verus!
