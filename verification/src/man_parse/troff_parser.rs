//! The interpreter: it walks a token stream, carries out its macros and
//! escapes, and drives the layout engine.
use crate::man_parse::interpreter_laws;
use crate::man_parse::man_section::ManSection;
use crate::man_parse::progress_laws;
use crate::man_parse::term_writer::font_style::FontStyle;
use crate::man_parse::term_writer::troff_term_writer::{
    is_line_length, TroffTermWriter, WriterView, MIN_LINE_LENGTH, RIGHT_MARGIN_LENGTH,
};
use crate::man_parse::troff_semantics as semantics;
use crate::man_parse::troff_semantics::{
    debug_quoted, ArgView, MacroKind, ParseError, ParserView, Tokens,
};
use crate::man_parse::troff_token_generator::TroffToken;
use crate::simple_parser::token::Token;
use crate::text::{parse_decimal, parse_truncated, str_eq};
use vstd::prelude::*;

verus! {

/// The token stream that `tokens` stands for.
pub open spec fn stream(tokens: &Vec<Token<TroffToken>>) -> Tokens {
    Token::views(tokens@)
}

/// The texts of `strings`.
pub open spec fn texts(strings: Seq<String>) -> Seq<Seq<char>> {
    strings.map_values(|s: String| s@)
}

/// Whether a step that should lead to `expected` ended as `result` says, in
/// the state `after`: in that state if it succeeded, with that error if it
/// failed.
pub open spec fn outcome(
    expected: Result<ParserView, ParseError>,
    result: Result<(), ParseError>,
    after: ParserView,
) -> bool {
    match result {
        Ok(()) => expected == Ok::<ParserView, ParseError>(after),
        Err(e) => expected == Err::<ParserView, ParseError>(e),
    }
}

/// The interpreter of a token stream.
pub struct TroffParser {
    /// The position of the current token.
    cursor: usize,
    /// The section that the latest header began.
    current_section: Option<ManSection>,
    /// The trace of the tokens that were looked at.
    before_section_text: String,
    /// The one section to render, if one was asked for.
    parse_section: Option<ManSection>,
    /// Writes and styles the output.
    term_writer: TroffTermWriter,
    /// The arguments to look for in the page, if any.
    args: Option<Vec<String>>,
    debug: bool,
}

impl View for TroffParser {
    type V = ParserView;

    closed spec fn view(&self) -> ParserView {
        ParserView {
            cursor: self.cursor as nat,
            current_section: self.current_section,
            parse_section: self.parse_section,
            trace: self.before_section_text@,
            writer: self.term_writer@,
            args: match self.args {
                Some(args) => Some(texts(args@)),
                None => None,
            },
            debug: self.debug,
        }
    }
}

/// The macro with the given name.
pub fn classify_macro(name: &str) -> (kind: MacroKind)
    ensures
        kind == semantics::macro_kind(name@),
{
    if str_eq(name, ".SH") {
        MacroKind::SH
    } else if str_eq(name, ".SS") {
        MacroKind::SS
    } else if str_eq(name, ".sp") {
        MacroKind::Sp
    } else if str_eq(name, ".br") {
        MacroKind::Br
    } else if str_eq(name, ".nf") {
        MacroKind::Nf
    } else if str_eq(name, ".fi") {
        MacroKind::Fi
    } else if str_eq(name, ".TP") {
        MacroKind::TP
    } else if str_eq(name, ".PD") {
        MacroKind::PD
    } else if str_eq(name, ".B") {
        MacroKind::B
    } else if str_eq(name, ".I") {
        MacroKind::I
    } else if str_eq(name, ".IR") {
        MacroKind::IR
    } else if str_eq(name, ".BI") {
        MacroKind::BI
    } else if str_eq(name, ".IP") {
        MacroKind::IP
    } else if str_eq(name, ".RS") {
        MacroKind::RS
    } else if str_eq(name, ".RB") {
        MacroKind::RB
    } else if str_eq(name, ".RE") {
        MacroKind::RE
    } else if str_eq(name, ".if") {
        MacroKind::If
    } else if str_eq(name, ".PP") || str_eq(name, ".LP") || str_eq(name, ".P") {
        MacroKind::P
    } else {
        MacroKind::Unknown
    }
}

/// The note that the trace holds for a macro that is not known, where
/// `quoted` is the macro's name between quotes.
pub fn unknown_macro_note(quoted: &str) -> (note: String)
    ensures
        note@ == semantics::unknown_macro_note(quoted@),
{
    let mut note = String::from_str("[skipping unknown macro: ");
    note.append(quoted);
    note.append("]");
    note
}

/// What the trace holds for `token`.
pub fn format_token(token: &Token<TroffToken>) -> (text: String)
    ensures
        text@ == semantics::token_trace(token@),
{
    let mut text = String::new();
    proof {
        reveal_strlit("\n");
        reveal_strlit(" ");
    }
    if token.starts_line {
        text.append("\n");
    }
    match token.class {
        TroffToken::Whitespace => text.append(" "),
        TroffToken::EmptyLine => text.append("[el]"),
        _ => text.append(token.value.as_str()),
    }
    text.append(" ");
    assert(text@ =~= semantics::token_trace(token@));
    text
}

impl TroffParser {
    /// Whether the interpreter is in a state to go on from over the stream
    /// `t`: its layout engine is well formed, and its cursor lies within the
    /// stream.
    pub open spec fn wf(&self, t: Tokens) -> bool {
        self@.writer.well_formed() && self@.cursor <= t.len()
    }

    /// An interpreter that writes for the terminal of this process: before
    /// the first token, without a section to render, over a new writer for
    /// the dimensions which the terminal reports.
    pub fn new() -> (parser: Self)
        ensures
            parser@ == ParserView::initial(
                WriterView::initial(parser@.writer.max_line_length),
            ),
            is_line_length(parser@.writer.max_line_length),
            parser@.writer.max_line_length >= MIN_LINE_LENGTH - RIGHT_MARGIN_LENGTH,
            parser@.writer.well_formed(),
    {
        Self::with_writer(TroffTermWriter::new())
    }

    /// An interpreter that writes with `writer`.
    pub fn with_writer(writer: TroffTermWriter) -> (parser: Self)
        ensures
            parser@ == ParserView::initial(writer@),
    {
        let parser = TroffParser {
            cursor: 0,
            current_section: None,
            before_section_text: String::new(),
            parse_section: None,
            term_writer: writer,
            args: None,
            debug: false,
        };
        assert(parser@.trace =~= seq![]);
        parser
    }

    /// Has margin and indentation drawn with letters.
    pub fn enable_debug(&mut self)
        ensures
            final(self)@ == (ParserView {
                debug: true,
                writer: WriterView {
                    debug: true,
                    ..old(self)@.writer
                },
                ..old(self)@
            }),
    {
        self.debug = true;
        self.term_writer.enable_debug();
    }

    /// Has only the given section rendered.
    pub fn for_section(self, section: ManSection) -> (parser: Self)
        ensures
            parser@ == (ParserView { parse_section: Some(section), ..self@ }),
    {
        let mut parser = self;
        parser.parse_section = Some(section);
        parser
    }

    /// Sets the arguments to look for in the page.
    pub fn with_args(self, args: Vec<String>) -> (parser: Self)
        ensures
            parser@ == (ParserView { args: Some(texts(args@)), ..self@ }),
    {
        let mut parser = self;
        parser.args = Some(args);
        parser
    }

    /// The trace: the tokens that were looked at while output was visible.
    pub fn before_section_text(&self) -> (text: &str)
        ensures
            text@ == self@.trace,
    {
        self.before_section_text.as_str()
    }

    /// The rendered text.
    pub fn result_text(&self) -> (text: String)
        ensures
            text@ == self@.writer.output,
    {
        self.term_writer.buf()
    }

    fn section_matches(&self) -> (matches: bool)
        ensures
            matches == self@.section_matches(),
    {
        match self.parse_section {
            None => true,
            Some(wanted) => match self.current_section {
                Some(current) => wanted == current,
                None => false,
            },
        }
    }

    fn add_to_before_output(&mut self, s: &str)
        ensures
            final(self)@ == old(self)@.traced(s@),
    {
        if self.section_matches() {
            self.before_section_text.append(s);
        }
    }

    fn add_to_output(&mut self, s: &str)
        requires
            old(self)@.writer.well_formed(),
        ensures
            final(self)@ == old(self)@.with_output(s@),
            final(self)@.writer.well_formed(),
    {
        if self.section_matches() {
            self.term_writer.add_to_buf(s);
        }
    }

    /// Adds one line break.
    fn add_linebreak(&mut self)
        requires
            old(self)@.writer.well_formed(),
        ensures
            final(self)@ == old(self)@.with_linebreak(),
            final(self)@.writer.well_formed(),
    {
        if self.section_matches() {
            self.term_writer.add_linebreak();
        }
    }

    /// Adds a line that is blank: two line breaks.
    fn add_blank_line(&mut self)
        requires
            old(self)@.writer.well_formed(),
        ensures
            final(self)@ == old(self)@.with_blank_line(),
            final(self)@.writer.well_formed(),
    {
        self.add_linebreak();
        self.add_linebreak();
    }

    /// Adds a line break, but only if the current line holds more than white
    /// space: `.br` after `.br` leaves no blank line.
    fn add_linebreak_single(&mut self)
        requires
            old(self)@.writer.well_formed(),
        ensures
            final(self)@ == old(self)@.with_single_linebreak(),
            final(self)@.writer.well_formed(),
    {
        if !self.term_writer.is_curline_whitespace_only() {
            self.add_linebreak();
        } else if self.section_matches() {
            // the start position may have changed since the line began
            self.term_writer.set_whitespace_to_startpos();
        }
    }

    /// Consumes the current token, moving on to the next.
    fn consume(&mut self, tokens: &Vec<Token<TroffToken>>)
        requires
            old(self).wf(stream(tokens)),
        ensures
            final(self)@ == old(self)@.consumed(stream(tokens)),
            final(self).wf(stream(tokens)),
    {
        if self.cursor < tokens.len() {
            self.cursor += 1;
            if self.cursor < tokens.len() {
                let text = format_token(&tokens[self.cursor]);
                self.add_to_before_output(text.as_str());
            }
        }
    }

    /// Consumes white space up to the next token of another class.
    fn consume_spaces(&mut self, tokens: &Vec<Token<TroffToken>>)
        requires
            old(self).wf(stream(tokens)),
        ensures
            final(self)@ == old(self)@.spaces_skipped(stream(tokens)),
            final(self).wf(stream(tokens)),
            final(self)@.cursor >= old(self)@.cursor,
    {
        let ghost t = stream(tokens);
        let ghost end = semantics::spaces_end(t, self@.cursor);
        proof {
            semantics::lemma_spaces_end(t, self@.cursor);
        }
        while self.cursor < tokens.len() && tokens[self.cursor].class == TroffToken::Whitespace
            invariant
                t == stream(tokens),
                self.wf(t),
                old(self)@.cursor <= self@.cursor <= end <= t.len(),
                semantics::spaces_end(t, self@.cursor) == end,
                self@.consumed_to(t, end) == old(self)@.consumed_to(t, end),
            decreases t.len() - self@.cursor,
        {
            proof {
                assert(t[self@.cursor as int] == tokens@[self.cursor as int]@);
                semantics::lemma_spaces_end(t, self@.cursor + 1);
            }
            self.consume(tokens);
        }
    }

    /// Consumes the rest of the line.
    fn consume_line(&mut self, tokens: &Vec<Token<TroffToken>>)
        requires
            old(self).wf(stream(tokens)),
        ensures
            final(self)@ == old(self)@.line_skipped(stream(tokens)),
            final(self).wf(stream(tokens)),
            final(self)@.cursor >= old(self)@.cursor,
    {
        let ghost t = stream(tokens);
        let ghost end = semantics::line_rest_end(t, self@.cursor);
        proof {
            semantics::lemma_line_rest_end(t, self@.cursor);
        }
        while self.cursor < tokens.len() && !tokens[self.cursor].starts_line
            invariant
                t == stream(tokens),
                self.wf(t),
                old(self)@.cursor <= self@.cursor <= end <= t.len(),
                semantics::line_rest_end(t, self@.cursor) == end,
                self@.consumed_to(t, end) == old(self)@.consumed_to(t, end),
            decreases t.len() - self@.cursor,
        {
            proof {
                assert(t[self@.cursor as int] == tokens@[self.cursor as int]@);
                semantics::lemma_line_rest_end(t, self@.cursor + 1);
            }
            self.consume(tokens);
        }
    }

    /// Where the current token is a double quote: consumes the tokens up to
    /// the closing double quote of the line, and returns the positions of
    /// the tokens between the two. The group ends with the line if no quote
    /// closes it.
    fn get_within_quotes(&mut self, tokens: &Vec<Token<TroffToken>>) -> (group: (usize, usize))
        requires
            old(self).wf(stream(tokens)),
            old(self)@.cursor < tokens@.len(),
        ensures
            (ArgView { state: final(self)@, from: group.0 as nat, to: group.1 as nat }) == old(
                self,
            )@.quoted_group(stream(tokens)),
            final(self).wf(stream(tokens)),
            final(self)@.cursor > old(self)@.cursor,
            group.0 <= group.1 <= tokens@.len(),
    {
        let ghost t = stream(tokens);
        self.consume(tokens);
        let from = self.cursor;
        let ghost opened = self@;
        let ghost end = semantics::group_end(t, self@.cursor);
        proof {
            semantics::lemma_group_end(t, self@.cursor);
        }
        while self.cursor < tokens.len() && !tokens[self.cursor].starts_line
            && tokens[self.cursor].class != TroffToken::DoubleQuote
            invariant
                t == stream(tokens),
                self.wf(t),
                opened.cursor <= self@.cursor <= end <= t.len(),
                semantics::group_end(t, self@.cursor) == end,
                self@.consumed_to(t, end) == opened.consumed_to(t, end),
            decreases t.len() - self@.cursor,
        {
            proof {
                assert(t[self@.cursor as int] == tokens@[self.cursor as int]@);
                semantics::lemma_group_end(t, self@.cursor + 1);
            }
            self.consume(tokens);
        }
        let to = self.cursor;
        if self.cursor < tokens.len() && !tokens[self.cursor].starts_line {
            self.consume(tokens);
        }
        (from, to)
    }

    /// Consumes the next argument of a macro and returns the positions of its
    /// tokens. An argument in double quotes can hold white space: `"this is
    /// one"` is one argument, and four without the quotes.
    fn parse_macro_arg(&mut self, tokens: &Vec<Token<TroffToken>>) -> (arg: (usize, usize))
        requires
            old(self).wf(stream(tokens)),
        ensures
            (ArgView { state: final(self)@, from: arg.0 as nat, to: arg.1 as nat }) == old(
                self,
            )@.macro_arg(stream(tokens)),
            final(self).wf(stream(tokens)),
            final(self)@.cursor >= old(self)@.cursor,
            arg.0 < arg.1 ==> final(self)@.cursor > old(self)@.cursor,
            arg.0 <= arg.1 <= tokens@.len(),
    {
        self.consume_spaces(tokens);
        if self.cursor >= tokens.len() || tokens[self.cursor].starts_line {
            // arguments stand on the line of their macro
            return (self.cursor, self.cursor);
        }
        if tokens[self.cursor].class == TroffToken::DoubleQuote {
            self.get_within_quotes(tokens)
        } else {
            let at = self.cursor;
            self.consume(tokens);
            (at, at + 1)
        }
    }

    /// The number that the argument `arg` stands for, if it stands for one.
    fn arg_number(tokens: &Vec<Token<TroffToken>>, arg: (usize, usize)) -> (number: Option<usize>)
        requires
            arg.1 <= tokens@.len(),
        ensures
            number == semantics::first_number(
                stream(tokens),
                arg.0 as nat,
                arg.1 as nat,
            ),
    {
        if arg.0 < arg.1 {
            parse_decimal(tokens[arg.0].value.as_str())
        } else {
            None
        }
    }

    /// Adds the texts of the tokens `tokens[from..to]` to the output, one by
    /// one.
    fn add_tokens_to_output(&mut self, tokens: &Vec<Token<TroffToken>>, from: usize, to: usize)
        requires
            old(self).wf(stream(tokens)),
            from <= to <= tokens@.len(),
        ensures
            final(self)@ == old(self)@.with_outputs(stream(tokens), from as nat, to as nat),
            final(self).wf(stream(tokens)),
    {
        let ghost t = stream(tokens);
        let mut at: usize = from;
        while at < to
            invariant
                t == stream(tokens),
                from <= at <= to <= tokens@.len(),
                self.wf(t),
                self@ == old(self)@.with_outputs(t, from as nat, at as nat),
            decreases to - at,
        {
            self.add_to_output(tokens[at].value.as_str());
            at += 1;
        }
    }

    /// A word of plain text, as it is. Macros and escapes are for
    /// [`parse_word`](Self::parse_word).
    fn parse_textword(&mut self, tokens: &Vec<Token<TroffToken>>)
        requires
            old(self).wf(stream(tokens)),
        ensures
            final(self)@ == old(self)@.parse_textword(stream(tokens)),
            final(self).wf(stream(tokens)),
            old(self)@.cursor < tokens@.len() ==> final(self)@.cursor > old(self)@.cursor,
    {
        if self.cursor < tokens.len() {
            self.add_to_output(tokens[self.cursor].value.as_str());
            self.consume(tokens);
        }
    }

    fn parse_whitespace(&mut self, tokens: &Vec<Token<TroffToken>>)
        requires
            old(self).wf(stream(tokens)),
        ensures
            final(self)@ == old(self)@.parse_whitespace(stream(tokens)),
            final(self).wf(stream(tokens)),
            old(self)@.cursor < tokens@.len() ==> final(self)@.cursor > old(self)@.cursor,
    {
        self.parse_textword(tokens);
    }

    fn parse_doublequote(&mut self, tokens: &Vec<Token<TroffToken>>)
        requires
            old(self).wf(stream(tokens)),
        ensures
            final(self)@ == old(self)@.consumed(stream(tokens)),
            final(self).wf(stream(tokens)),
            old(self)@.cursor < tokens@.len() ==> final(self)@.cursor > old(self)@.cursor,
    {
        self.consume(tokens);
    }

    /// An empty line of the source, which gives a blank line.
    fn parse_empty_line(&mut self, tokens: &Vec<Token<TroffToken>>)
        requires
            old(self).wf(stream(tokens)),
        ensures
            final(self)@ == old(self)@.parse_empty_line(stream(tokens)),
            final(self).wf(stream(tokens)),
            old(self)@.cursor < tokens@.len() ==> final(self)@.cursor > old(self)@.cursor,
    {
        self.consume(tokens);
        self.add_blank_line();
    }

    /// `.P`, `.PP` or `.LP`, which all mean the same: a blank line, and
    /// indentation and font as at the start.
    fn parse_p(&mut self, tokens: &Vec<Token<TroffToken>>)
        requires
            old(self).wf(stream(tokens)),
        ensures
            final(self)@ == old(self)@.parse_p(stream(tokens)),
            final(self).wf(stream(tokens)),
            old(self)@.cursor < tokens@.len() ==> final(self)@.cursor > old(self)@.cursor,
    {
        proof {
            reveal(ParserView::parse_p);
        }
        self.consume(tokens);
        self.term_writer.zero_indent();
        self.term_writer.reset_font_properties();
        if !self.term_writer.is_curline_whitespace_only() {
            self.add_blank_line();
        }
    }

    /// `.PD [distance]`: sets the indentation, to 0 without an argument.
    fn parse_pd(&mut self, tokens: &Vec<Token<TroffToken>>)
        requires
            old(self).wf(stream(tokens)),
        ensures
            final(self)@ == old(self)@.parse_pd(stream(tokens)),
            final(self).wf(stream(tokens)),
            old(self)@.cursor < tokens@.len() ==> final(self)@.cursor > old(self)@.cursor,
    {
        proof {
            reveal(ParserView::parse_pd);
        }
        self.consume(tokens);
        let arg = self.parse_macro_arg(tokens);
        let indent = match Self::arg_number(tokens, arg) {
            Some(indent) => indent,
            None => 0,
        };
        self.term_writer.set_indent(indent);
    }

    /// `.sp [count]`: adds `count` line breaks, 2 without an argument.
    fn parse_sp(&mut self, tokens: &Vec<Token<TroffToken>>)
        requires
            old(self).wf(stream(tokens)),
        ensures
            final(self)@ == old(self)@.parse_sp(stream(tokens)),
            final(self).wf(stream(tokens)),
            old(self)@.cursor < tokens@.len() ==> final(self)@.cursor > old(self)@.cursor,
    {
        proof {
            reveal(ParserView::parse_sp);
        }
        let ghost t = stream(tokens);
        self.consume(tokens);
        let arg = self.parse_macro_arg(tokens);
        let mut linebreaks: usize = 2;
        if arg.0 < arg.1 {
            if let Some(count) = parse_decimal(tokens[arg.0].value.as_str()) {
                if 0 < count && count <= 0x7fff_ffff {
                    linebreaks = count;
                }
            }
        }
        if !self.term_writer.is_curline_whitespace_only() {
            let ghost base = self@;
            let mut done: usize = 0;
            while done < linebreaks
                invariant
                    done <= linebreaks,
                    self.wf(t),
                    self@ == base.with_linebreaks(done as nat),
                    self@.cursor == base.cursor,
                decreases linebreaks - done,
            {
                self.add_linebreak();
                done += 1;
            }
        }
    }

    /// `.br`: a line break.
    fn parse_br(&mut self, tokens: &Vec<Token<TroffToken>>)
        requires
            old(self).wf(stream(tokens)),
        ensures
            final(self)@ == old(self)@.parse_br(stream(tokens)),
            final(self).wf(stream(tokens)),
            old(self)@.cursor < tokens@.len() ==> final(self)@.cursor > old(self)@.cursor,
    {
        self.consume(tokens);
        self.add_linebreak_single();
    }

    /// `.nf`: a line break and the start of no-fill mode.
    fn parse_nf(&mut self, tokens: &Vec<Token<TroffToken>>)
        requires
            old(self).wf(stream(tokens)),
        ensures
            final(self)@ == old(self)@.parse_nf(stream(tokens)),
            final(self).wf(stream(tokens)),
            old(self)@.cursor < tokens@.len() ==> final(self)@.cursor > old(self)@.cursor,
    {
        self.consume(tokens);
        self.add_linebreak_single();
        self.term_writer.enable_nofill();
    }

    /// `.fi`: the end of no-fill mode.
    fn parse_fi(&mut self, tokens: &Vec<Token<TroffToken>>)
        requires
            old(self).wf(stream(tokens)),
        ensures
            final(self)@ == old(self)@.parse_fi(stream(tokens)),
            final(self).wf(stream(tokens)),
            old(self)@.cursor < tokens@.len() ==> final(self)@.cursor > old(self)@.cursor,
    {
        self.consume(tokens);
        self.term_writer.disable_nofill();
    }

    /// `.if`: expressions are not evaluated, so the condition counts as
    /// false and the line is passed over.
    fn parse_if(&mut self, tokens: &Vec<Token<TroffToken>>)
        requires
            old(self).wf(stream(tokens)),
        ensures
            final(self)@ == old(self)@.parse_if(stream(tokens)),
            final(self).wf(stream(tokens)),
            old(self)@.cursor < tokens@.len() ==> final(self)@.cursor > old(self)@.cursor,
    {
        self.consume(tokens);
        self.consume_line(tokens);
    }

    /// `.SS title`: a subsection header. Like a section header, but not at
    /// the left edge.
    fn parse_ss(&mut self, tokens: &Vec<Token<TroffToken>>)
        requires
            old(self).wf(stream(tokens)),
        ensures
            final(self)@ == old(self)@.parse_ss(stream(tokens)),
            final(self).wf(stream(tokens)),
            old(self)@.cursor < tokens@.len() ==> final(self)@.cursor > old(self)@.cursor,
    {
        proof {
            reveal(ParserView::parse_ss);
        }
        self.consume(tokens);
        self.add_blank_line();
        let arg = self.parse_macro_arg(tokens);
        self.term_writer.set_fontstyle(FontStyle::Bold);
        self.add_tokens_to_output(tokens, arg.0, arg.1);
        proof {
            semantics::lemma_with_outputs(
                old(self)@.consumed(stream(tokens)).with_blank_line().macro_arg(
                    stream(tokens),
                ).state.with_style(FontStyle::Bold, true),
                stream(tokens),
                arg.0 as nat,
                arg.1 as nat,
            );
        }
        self.term_writer.reset_font_properties();
    }

    /// Consumes the arguments of the rest of the line and returns their
    /// texts, joined.
    fn collect_title(&mut self, tokens: &Vec<Token<TroffToken>>) -> (title: String)
        requires
            old(self).wf(stream(tokens)),
        ensures
            (final(self)@, title@) == old(self)@.title_collected(stream(tokens)),
            final(self).wf(stream(tokens)),
            final(self)@.cursor >= old(self)@.cursor,
    {
        let ghost t = stream(tokens);
        let mut title = String::new();
        loop
            invariant
                t == stream(tokens),
                self.wf(t),
                self@.cursor >= old(self)@.cursor,
                old(self)@.title_collected(t) == (
                    self@.title_collected(t).0,
                    title@ + self@.title_collected(t).1,
                ),
            decreases t.len() - self@.cursor,
        {
            let ghost before = self@;
            let ghost collected = title@;
            let arg = self.parse_macro_arg(tokens);
            if arg.0 >= arg.1 {
                assert(title@ + Seq::<char>::empty() =~= title@);
                return title;
            }
            let mut at: usize = arg.0;
            while at < arg.1
                invariant
                    t == stream(tokens),
                    arg.0 <= at <= arg.1 <= tokens@.len(),
                    title@ == collected + semantics::values(
                        t,
                        arg.0 as nat,
                        at as nat,
                    ),
                decreases arg.1 - at,
            {
                title.append(tokens[at].value.as_str());
                at += 1;
                assert(title@ =~= collected + semantics::values(
                    t,
                    arg.0 as nat,
                    at as nat,
                ));
            }
            assert((collected + semantics::values(
                t,
                arg.0 as nat,
                arg.1 as nat,
            )) + self@.title_collected(t).1 =~= collected + (
            semantics::values(t, arg.0 as nat, arg.1 as nat)
                + self@.title_collected(t).1));
        }
    }

    /// Writes the title of a section header: in bold, at the left edge, with
    /// the text below it at the default margin.
    fn write_header(&mut self, title: &str)
        requires
            old(self)@.writer.well_formed(),
        ensures
            final(self)@ == old(self)@.with_header(title@),
            final(self)@.writer.well_formed(),
            final(self)@.cursor == old(self)@.cursor,
    {
        self.term_writer.zero_margin();
        self.term_writer.zero_indent();
        if !self.term_writer.is_curline_whitespace_only() {
            self.add_blank_line();
        } else {
            self.add_linebreak();
        }
        let ghost spaced = self@;
        self.term_writer.set_fontstyle(FontStyle::Bold);
        self.add_to_output(title);
        self.term_writer.reset_font_properties();
        let ghost titled = self@;
        assert(titled == spaced.with_style(FontStyle::Bold, true).with_output(
            title@,
        ).with_plain_style());
        self.term_writer.default_margin();
        self.term_writer.zero_indent();
        self.add_linebreak_single();
        proof {
            progress_laws::lemma_header_holds_place(old(self)@, title@);
        }
    }

    /// `.SH title`: a section header. The title may stand on the line of the
    /// macro or on the next.
    fn parse_sh(&mut self, tokens: &Vec<Token<TroffToken>>)
        requires
            old(self).wf(stream(tokens)),
        ensures
            final(self)@ == old(self)@.parse_sh(stream(tokens)),
            final(self).wf(stream(tokens)),
            old(self)@.cursor < tokens@.len() ==> final(self)@.cursor > old(self)@.cursor,
    {
        proof {
            reveal(ParserView::parse_sh);
        }
        self.consume(tokens);
        let title = self.collect_title(tokens);
        if self.parse_section.is_some() {
            self.current_section = Some(ManSection::from_title(title.as_str()));
        } else {
            self.write_header(title.as_str());
        }
    }

    /// `.RS [size]`: moves the left margin to the right by `size`, or by the
    /// indentation that `.TP` or `.IP` stored, or by the default if neither
    /// was used. The indentation is then 0. `.RS` can be nested.
    fn parse_rs(&mut self, tokens: &Vec<Token<TroffToken>>) -> (result: Result<(), ParseError>)
        requires
            old(self).wf(stream(tokens)),
        ensures
            outcome(old(self)@.parse_rs(stream(tokens)), result, final(self)@),
            final(self).wf(stream(tokens)),
            result is Ok && old(self)@.cursor < tokens@.len() ==> final(self)@.cursor > old(
                self,
            )@.cursor,
    {
        proof {
            reveal(ParserView::parse_rs);
        }
        self.consume(tokens);
        let arg = self.parse_macro_arg(tokens);
        let margin_increase = match Self::arg_number(tokens, arg) {
            Some(size) => size,
            None => self.term_writer.stored_or_default_indent(),
        };
        if margin_increase > usize::MAX - self.term_writer.margin() {
            return Err(ParseError::MarginOverflow);
        }
        self.term_writer.increase_margin(margin_increase);
        self.term_writer.set_indent(0);
        self.add_linebreak_single();
        Ok(())
    }

    /// `.RE [count]`: moves the left margin back by undoing the latest
    /// `count` uses of `.RS`, one without an argument.
    fn parse_re(&mut self, tokens: &Vec<Token<TroffToken>>) -> (result: Result<(), ParseError>)
        requires
            old(self).wf(stream(tokens)),
        ensures
            outcome(old(self)@.parse_re(stream(tokens)), result, final(self)@),
            final(self).wf(stream(tokens)),
            result is Ok && old(self)@.cursor < tokens@.len() ==> final(self)@.cursor > old(
                self,
            )@.cursor,
    {
        proof {
            reveal(ParserView::parse_re);
        }
        let ghost t = stream(tokens);
        self.consume(tokens);
        let arg = self.parse_macro_arg(tokens);
        let pops = match Self::arg_number(tokens, arg) {
            Some(count) => count,
            None => 1,
        };
        if pops > self.term_writer.margin_depth() {
            return Err(ParseError::MarginUnderflow);
        }
        let ghost base = self@;
        let mut done: usize = 0;
        while done < pops
            invariant
                done <= pops,
                self.wf(t),
                self@.writer.margin_stack.len() >= pops - done,
                self@ == base.with_writer(self@.writer),
                self@.writer.with_margins_popped((pops - done) as nat)
                    == base.writer.with_margins_popped(pops as nat),
            decreases pops - done,
        {
            self.term_writer.pop_margin();
            done += 1;
        }
        self.term_writer.zero_indent();
        self.term_writer.clear_stored_indent();
        Ok(())
    }

    /// A macro that is not known.
    fn parse_unknown(&mut self, tokens: &Vec<Token<TroffToken>>)
        requires
            old(self).wf(stream(tokens)),
        ensures
            final(self)@ == old(self)@.parse_unknown(stream(tokens)),
            final(self).wf(stream(tokens)),
            old(self)@.cursor < tokens@.len() ==> final(self)@.cursor > old(self)@.cursor,
    {
        proof {
            reveal(ParserView::parse_unknown);
        }
        if self.cursor < tokens.len() {
            let quoted = debug_quoted(tokens[self.cursor].value.as_str());
            let note = unknown_macro_note(quoted.as_str());
            self.add_to_before_output(note.as_str());
            self.consume(tokens);
        }
    }

    /// `\-`, which gives `-`.
    fn parse_hyphen(&mut self, tokens: &Vec<Token<TroffToken>>)
        requires
            old(self).wf(stream(tokens)),
        ensures
            final(self)@ == old(self)@.consumed(stream(tokens)).with_output(seq!['-']),
            final(self).wf(stream(tokens)),
    {
        proof {
            reveal_strlit("-");
            assert("-"@ =~= seq!['-']);
        }
        self.consume(tokens);
        self.add_to_output("-");
    }

    /// `\(cq`, which gives an apostrophe, and the other special characters,
    /// which give nothing.
    fn parse_special_character(&mut self, tokens: &Vec<Token<TroffToken>>)
        requires
            old(self).wf(stream(tokens)),
        ensures
            final(self)@ == old(self)@.parse_special_character(stream(tokens)),
            final(self).wf(stream(tokens)),
    {
        proof {
            reveal_strlit("cq");
            reveal_strlit("'");
            assert("cq"@ =~= seq!['c', 'q']);
            assert("'"@ =~= seq!['\'']);
        }
        self.consume(tokens);
        if self.cursor < tokens.len() {
            if str_eq(tokens[self.cursor].value.as_str(), "cq") {
                self.add_to_output("'");
            }
            self.consume(tokens);
        }
    }

    /// `\f` and the font that it sets.
    fn parse_font_format(&mut self, tokens: &Vec<Token<TroffToken>>)
        requires
            old(self).wf(stream(tokens)),
        ensures
            final(self)@ == old(self)@.parse_font_format(stream(tokens)),
            final(self).wf(stream(tokens)),
    {
        self.consume(tokens);
        if self.cursor < tokens.len() {
            let font = tokens[self.cursor].value.as_str();
            if is_char(font, 'B') {
                self.term_writer.set_fontstyle(FontStyle::Bold);
            } else if is_char(font, 'I') {
                self.term_writer.set_fontstyle(FontStyle::Italic);
            } else if is_char(font, 'R') || is_char(font, 'P') {
                self.term_writer.reset_font_properties();
            }
            self.consume(tokens);
        }
    }

    /// `\m` and the colour that it sets, in one of the forms `\mc`,
    /// `\m(co` and `\m[color]`.
    fn parse_color_format(&mut self, tokens: &Vec<Token<TroffToken>>) -> (result: Result<
        (),
        ParseError,
    >)
        requires
            old(self).wf(stream(tokens)),
        ensures
            outcome(old(self)@.parse_color_format(stream(tokens)), result, final(self)@),
            final(self).wf(stream(tokens)),
            result is Ok ==> final(self)@.cursor >= old(self)@.cursor,
    {
        proof {
            reveal(ParserView::parse_color_format);
        }
        self.consume(tokens);
        if self.cursor >= tokens.len() {
            return Ok(());
        }
        let first = tokens[self.cursor].value.as_str();
        if is_char(first, '[') {
            self.consume(tokens);
            if self.cursor < tokens.len() {
                if is_char(tokens[self.cursor].value.as_str(), ']') {
                    // no colour is named
                    self.consume(tokens);
                } else {
                    // the colour, and then the bracket that closes it
                    self.consume(tokens);
                    if self.cursor >= tokens.len() {
                        return Err(ParseError::UnexpectedEnd);
                    }
                    if !is_char(tokens[self.cursor].value.as_str(), ']') {
                        return Err(ParseError::UnexpectedToken);
                    }
                    self.consume(tokens);
                }
            }
        } else if is_char(first, '(') {
            self.consume(tokens);
            self.consume(tokens);
        } else {
            self.consume(tokens);
        }
        Ok(())
    }

    /// A backslash and what it escapes. `\-` gives `-`; `\fBHello` writes
    /// `Hello` in bold.
    fn parse_backslash(&mut self, tokens: &Vec<Token<TroffToken>>) -> (result: Result<
        (),
        ParseError,
    >)
        requires
            old(self).wf(stream(tokens)),
        ensures
            outcome(old(self)@.parse_backslash(stream(tokens)), result, final(self)@),
            final(self).wf(stream(tokens)),
            result is Ok && old(self)@.cursor < tokens@.len() ==> final(self)@.cursor > old(
                self,
            )@.cursor,
    {
        proof {
            reveal(ParserView::parse_backslash);
        }
        if self.cursor >= tokens.len() {
            return Ok(());
        }
        if !is_char(tokens[self.cursor].value.as_str(), '\\') {
            return Err(ParseError::UnexpectedToken);
        }
        self.consume(tokens);
        if self.cursor >= tokens.len() {
            return Ok(());
        }
        let command = tokens[self.cursor].value.as_str();
        if is_char(command, '-') {
            self.parse_hyphen(tokens);
            Ok(())
        } else if is_char(command, '(') {
            self.parse_special_character(tokens);
            Ok(())
        } else if is_char(command, 'f') {
            self.parse_font_format(tokens);
            if self.cursor >= tokens.len() || tokens[self.cursor].starts_line {
                proof {
                    reveal_strlit(" ");
                    assert(" "@ =~= seq![' ']);
                }
                self.add_to_output(" ");
            }
            Ok(())
        } else if is_char(command, 'm') {
            self.parse_color_format(tokens)
        } else {
            self.consume(tokens);
            Ok(())
        }
    }

    /// Interprets the tokens up to the end of the line, so that the current
    /// token is then the first of the next line.
    fn parse_line(&mut self, tokens: &Vec<Token<TroffToken>>) -> (result: Result<(), ParseError>)
        requires
            old(self).wf(stream(tokens)),
        ensures
            outcome(old(self)@.parse_line(stream(tokens)), result, final(self)@),
            final(self).wf(stream(tokens)),
            result is Ok ==> final(self)@.cursor >= old(self)@.cursor,
            result is Ok && old(self)@.cursor < tokens@.len() ==> final(self)@.cursor > old(
                self,
            )@.cursor,
        decreases tokens@.len() - old(self)@.cursor, 4int,
    {
        let ghost t = stream(tokens);
        while self.cursor < tokens.len()
            invariant
                t == stream(tokens),
                self.wf(t),
                self@.cursor >= old(self)@.cursor,
                self@.parse_line(t) == old(self)@.parse_line(t),
                self@.cursor == old(self)@.cursor || old(self)@.cursor < tokens@.len(),
            decreases tokens@.len() - self@.cursor,
        {
            self.parse_word(tokens)?;
            if self.cursor < tokens.len() && tokens[self.cursor].starts_line {
                return Ok(());
            }
        }
        Ok(())
    }

    /// Interprets one word: plain text, or an escaped character or command.
    fn parse_word(&mut self, tokens: &Vec<Token<TroffToken>>) -> (result: Result<(), ParseError>)
        requires
            old(self).wf(stream(tokens)),
        ensures
            outcome(old(self)@.parse_word(stream(tokens)), result, final(self)@),
            final(self).wf(stream(tokens)),
            result is Ok && old(self)@.cursor < tokens@.len() ==> final(self)@.cursor > old(
                self,
            )@.cursor,
        decreases tokens@.len() - old(self)@.cursor, 2int,
    {
        if self.cursor >= tokens.len() {
            return Ok(());
        }
        match tokens[self.cursor].class {
            TroffToken::Macro => self.parse_macro(tokens),
            TroffToken::EmptyLine => {
                self.parse_empty_line(tokens);
                Ok(())
            },
            TroffToken::Backslash => self.parse_backslash(tokens),
            TroffToken::Whitespace => {
                self.parse_whitespace(tokens);
                Ok(())
            },
            TroffToken::DoubleQuote => {
                self.parse_doublequote(tokens);
                Ok(())
            },
            _ => {
                self.parse_textword(tokens);
                Ok(())
            },
        }
    }

    /// Interprets the macro at the cursor.
    fn parse_macro(&mut self, tokens: &Vec<Token<TroffToken>>) -> (result: Result<(), ParseError>)
        requires
            old(self).wf(stream(tokens)),
        ensures
            outcome(old(self)@.parse_macro(stream(tokens)), result, final(self)@),
            final(self).wf(stream(tokens)),
            result is Ok && old(self)@.cursor < tokens@.len() ==> final(self)@.cursor > old(
                self,
            )@.cursor,
        decreases tokens@.len() - old(self)@.cursor, 1int,
    {
        if self.cursor >= tokens.len() {
            return Ok(());
        }
        match classify_macro(tokens[self.cursor].value.as_str()) {
            MacroKind::SH => {
                self.parse_sh(tokens);
                Ok(())
            },
            MacroKind::SS => {
                self.parse_ss(tokens);
                Ok(())
            },
            MacroKind::Sp => {
                self.parse_sp(tokens);
                Ok(())
            },
            MacroKind::Br => {
                self.parse_br(tokens);
                Ok(())
            },
            MacroKind::Nf => {
                self.parse_nf(tokens);
                Ok(())
            },
            MacroKind::Fi => {
                self.parse_fi(tokens);
                Ok(())
            },
            MacroKind::TP => self.parse_tp(tokens),
            MacroKind::PD => {
                self.parse_pd(tokens);
                Ok(())
            },
            MacroKind::B => self.parse_b(tokens),
            MacroKind::I => self.parse_i(tokens),
            MacroKind::IR => self.parse_ir(tokens),
            MacroKind::BI => self.parse_bi(tokens),
            MacroKind::IP => self.parse_ip(tokens),
            MacroKind::RS => self.parse_rs(tokens),
            MacroKind::RB => self.parse_rb(tokens),
            MacroKind::RE => self.parse_re(tokens),
            MacroKind::If => {
                self.parse_if(tokens);
                Ok(())
            },
            MacroKind::P => {
                self.parse_p(tokens);
                Ok(())
            },
            MacroKind::Unknown => {
                self.parse_unknown(tokens);
                Ok(())
            },
        }
    }

    /// Reads the argument of `.TP` and begins the line of the tag, at the
    /// margin. Returns how far to indent the paragraph.
    fn begin_tp(&mut self, tokens: &Vec<Token<TroffToken>>) -> (paragraph_indent: usize)
        requires
            old(self).wf(stream(tokens)),
            old(self)@.cursor < tokens@.len(),
        ensures
            final(self)@ == old(self)@.tp_tag(stream(tokens)),
            paragraph_indent == old(self)@.tp_indent(stream(tokens)),
            final(self).wf(stream(tokens)),
            final(self)@.cursor > old(self)@.cursor,
    {
        proof {
            reveal(ParserView::tp_tag);
        }
        self.consume(tokens);
        // the argument, if there is one, says how far to indent the paragraph
        let arg = self.parse_macro_arg(tokens);
        let paragraph_indent = match Self::arg_number(tokens, arg) {
            Some(indent) => indent,
            None => self.term_writer.stored_or_default_indent(),
        };
        // the tag stands on a new line, at the margin
        self.term_writer.zero_indent();
        self.add_linebreak_single();
        self.consume_spaces(tokens);
        paragraph_indent
    }

    /// Begins the line of the paragraph of `.TP`, indented by
    /// `paragraph_indent`.
    fn begin_tp_body(&mut self, paragraph_indent: usize)
        requires
            old(self)@.writer.well_formed(),
        ensures
            final(self)@ == old(self)@.tp_body(paragraph_indent as nat),
            final(self)@.writer.well_formed(),
            final(self)@.cursor == old(self)@.cursor,
    {
        self.term_writer.set_indent(paragraph_indent);
        self.term_writer.store_indent();
        self.add_linebreak_single();
        proof {
            interpreter_laws::lemma_tp_body(
                old(self)@,
                paragraph_indent as nat,
            );
        }
    }

    /// `.TP [indent]`, then the tag, then the paragraph: a paragraph with a
    /// tag. The next line that holds text is the tag, written at the margin.
    /// The line after it is the text of the paragraph, indented by `indent`.
    fn parse_tp(&mut self, tokens: &Vec<Token<TroffToken>>) -> (result: Result<(), ParseError>)
        requires
            old(self).wf(stream(tokens)),
        ensures
            outcome(old(self)@.parse_tp(stream(tokens)), result, final(self)@),
            final(self).wf(stream(tokens)),
            result is Ok && old(self)@.cursor < tokens@.len() ==> final(self)@.cursor > old(
                self,
            )@.cursor,
        decreases tokens@.len() - old(self)@.cursor, 0int,
    {
        if self.cursor >= tokens.len() {
            return Ok(());
        }
        let paragraph_indent = self.begin_tp(tokens);
        self.parse_line(tokens)?;
        self.begin_tp_body(paragraph_indent);
        self.parse_line(tokens)
    }

    /// Reads the marker and the width of `.IP`, and begins the line of the
    /// body.
    fn begin_ip(&mut self, tokens: &Vec<Token<TroffToken>>)
        requires
            old(self).wf(stream(tokens)),
            old(self)@.cursor < tokens@.len(),
        ensures
            final(self)@ == old(self)@.ip_body(stream(tokens)),
            final(self).wf(stream(tokens)),
            final(self)@.cursor > old(self)@.cursor,
    {
        proof {
            reveal(ParserView::ip_body);
        }
        let ghost t = stream(tokens);
        let ghost start = self@;
        proof {
            semantics::lemma_ip_body_moves_on(start, t);
        }
        self.consume(tokens);
        // the marker begins at the margin, after a blank line
        self.term_writer.zero_indent();
        self.add_blank_line();
        self.consume_spaces(tokens);
        let ghost blank = start.consumed(t).with_indent(0).with_blank_line().spaces_skipped(t);
        assert(self@ == blank);
        let marker = self.parse_macro_arg(tokens);
        let ghost marked = blank.macro_arg(t);
        assert(self@ == marked.state && marker.0 == marked.from && marker.1 == marked.to);
        self.add_tokens_to_output(tokens, marker.0, marker.1);
        proof {
            semantics::lemma_with_outputs(
                marked.state,
                t,
                marked.from,
                marked.to,
            );
        }
        self.consume_spaces(tokens);
        let ghost spaced = marked.state.with_outputs(t, marked.from, marked.to).spaces_skipped(t);
        assert(self@ == spaced);
        let width = self.parse_macro_arg(tokens);
        let ghost wide = spaced.macro_arg(t);
        assert(self@ == wide.state && width.0 == wide.from && width.1 == wide.to);
        if width.0 < width.1 {
            let indent = match parse_truncated(tokens[width.0].value.as_str()) {
                Some(indent) => indent,
                None => 0,
            };
            assert(indent == semantics::ip_width(
                t[wide.from as int].value,
            ));
            self.term_writer.set_indent(indent);
            self.term_writer.store_indent();
        } else {
            let indent = self.term_writer.stored_or_default_indent();
            self.term_writer.set_indent(indent);
        }
        let ghost indented = if wide.from < wide.to && wide.from < t.len() {
            wide.state.with_indent(
                semantics::ip_width(t[wide.from as int].value),
            ).with_indent_stored()
        } else {
            wide.state.with_indent(wide.state.writer.stored_or_default_indent())
        };
        assert(self@ == indented);
        // the body begins on a new line
        self.add_linebreak_single();
    }

    /// `.IP [marker [width]]`, then the body: a paragraph of a list. `marker`
    /// is the tag, such as a bullet; `width` is how far the body is indented.
    fn parse_ip(&mut self, tokens: &Vec<Token<TroffToken>>) -> (result: Result<(), ParseError>)
        requires
            old(self).wf(stream(tokens)),
        ensures
            outcome(old(self)@.parse_ip(stream(tokens)), result, final(self)@),
            final(self).wf(stream(tokens)),
            result is Ok && old(self)@.cursor < tokens@.len() ==> final(self)@.cursor > old(
                self,
            )@.cursor,
        decreases tokens@.len() - old(self)@.cursor, 0int,
    {
        if self.cursor >= tokens.len() {
            return Ok(());
        }
        self.begin_ip(tokens);
        self.parse_line(tokens)
    }

    /// `.B`: writes the rest of the line in bold, or the next line if the
    /// macro stands alone on its own.
    fn parse_b(&mut self, tokens: &Vec<Token<TroffToken>>) -> (result: Result<(), ParseError>)
        requires
            old(self).wf(stream(tokens)),
        ensures
            outcome(old(self)@.parse_b(stream(tokens)), result, final(self)@),
            final(self).wf(stream(tokens)),
            result is Ok && old(self)@.cursor < tokens@.len() ==> final(self)@.cursor > old(
                self,
            )@.cursor,
        decreases tokens@.len() - old(self)@.cursor, 0int,
    {
        if self.cursor >= tokens.len() {
            return Ok(());
        }
        self.consume(tokens);
        self.parse_line_with_style(tokens, FontStyle::Bold)
    }

    /// `.I`: writes the rest of the line in italics, or the next line if the
    /// macro stands alone on its own.
    fn parse_i(&mut self, tokens: &Vec<Token<TroffToken>>) -> (result: Result<(), ParseError>)
        requires
            old(self).wf(stream(tokens)),
        ensures
            outcome(old(self)@.parse_i(stream(tokens)), result, final(self)@),
            final(self).wf(stream(tokens)),
            result is Ok && old(self)@.cursor < tokens@.len() ==> final(self)@.cursor > old(
                self,
            )@.cursor,
        decreases tokens@.len() - old(self)@.cursor, 0int,
    {
        if self.cursor >= tokens.len() {
            return Ok(());
        }
        self.consume(tokens);
        self.parse_line_with_style(tokens, FontStyle::Italic)
    }

    fn parse_line_with_style(&mut self, tokens: &Vec<Token<TroffToken>>, style: FontStyle) -> (result:
        Result<(), ParseError>)
        requires
            old(self).wf(stream(tokens)),
        ensures
            outcome(
                old(self)@.parse_line_with_style(stream(tokens), style),
                result,
                final(self)@,
            ),
            final(self).wf(stream(tokens)),
            result is Ok ==> final(self)@.cursor >= old(self)@.cursor,
        decreases tokens@.len() - old(self)@.cursor, 5int,
    {
        self.term_writer.set_fontstyle(style);
        self.consume_spaces(tokens);
        self.parse_line(tokens)?;
        self.term_writer.unset_fontstyle(style);
        proof {
            reveal_strlit(" ");
            assert(" "@ =~= seq![' ']);
        }
        self.add_to_output(" ");
        Ok(())
    }

    /// `.IR`: italics and regular in turn.
    fn parse_ir(&mut self, tokens: &Vec<Token<TroffToken>>) -> (result: Result<(), ParseError>)
        requires
            old(self).wf(stream(tokens)),
        ensures
            outcome(old(self)@.parse_ir(stream(tokens)), result, final(self)@),
            final(self).wf(stream(tokens)),
            result is Ok && old(self)@.cursor < tokens@.len() ==> final(self)@.cursor > old(
                self,
            )@.cursor,
        decreases tokens@.len() - old(self)@.cursor, 0int,
    {
        if self.cursor >= tokens.len() {
            return Ok(());
        }
        self.consume(tokens);
        self.parse_alternation(tokens, FontStyle::Italic, FontStyle::Regular)
    }

    /// `.RB`: regular and bold in turn.
    fn parse_rb(&mut self, tokens: &Vec<Token<TroffToken>>) -> (result: Result<(), ParseError>)
        requires
            old(self).wf(stream(tokens)),
        ensures
            outcome(old(self)@.parse_rb(stream(tokens)), result, final(self)@),
            final(self).wf(stream(tokens)),
            result is Ok && old(self)@.cursor < tokens@.len() ==> final(self)@.cursor > old(
                self,
            )@.cursor,
        decreases tokens@.len() - old(self)@.cursor, 0int,
    {
        if self.cursor >= tokens.len() {
            return Ok(());
        }
        self.consume(tokens);
        self.parse_alternation(tokens, FontStyle::Regular, FontStyle::Bold)
    }

    /// `.BI`: bold and italics in turn.
    fn parse_bi(&mut self, tokens: &Vec<Token<TroffToken>>) -> (result: Result<(), ParseError>)
        requires
            old(self).wf(stream(tokens)),
        ensures
            outcome(old(self)@.parse_bi(stream(tokens)), result, final(self)@),
            final(self).wf(stream(tokens)),
            result is Ok && old(self)@.cursor < tokens@.len() ==> final(self)@.cursor > old(
                self,
            )@.cursor,
        decreases tokens@.len() - old(self)@.cursor, 0int,
    {
        if self.cursor >= tokens.len() {
            return Ok(());
        }
        self.consume(tokens);
        self.parse_alternation(tokens, FontStyle::Bold, FontStyle::Italic)
    }

    /// Interprets one word in the font style `style`. A quoted group is one
    /// word: its tokens take one style.
    fn parse_styled_word(&mut self, tokens: &Vec<Token<TroffToken>>, style: FontStyle) -> (result:
        Result<(), ParseError>)
        requires
            old(self).wf(stream(tokens)),
        ensures
            outcome(old(self)@.styled_word(stream(tokens), style), result, final(self)@),
            final(self).wf(stream(tokens)),
            result is Ok && old(self)@.cursor < tokens@.len() ==> final(self)@.cursor > old(
                self,
            )@.cursor,
        decreases tokens@.len() - old(self)@.cursor, 3int,
    {
        if self.cursor >= tokens.len() {
            return Ok(());
        }
        let ghost t = stream(tokens);
        self.term_writer.set_fontstyle(style);
        if tokens[self.cursor].class == TroffToken::DoubleQuote {
            let group = self.get_within_quotes(tokens);
            proof {
                semantics::lemma_with_outputs(
                    self@,
                    t,
                    group.0 as nat,
                    group.1 as nat,
                );
            }
            self.add_tokens_to_output(tokens, group.0, group.1);
        } else {
            self.parse_word(tokens)?;
        }
        self.term_writer.unset_fontstyle(style);
        Ok(())
    }

    /// What the macros that take two font styles in turn have in common:
    /// `.RB` takes regular and bold, `.IR` italics and regular.
    fn parse_alternation(
        &mut self,
        tokens: &Vec<Token<TroffToken>>,
        first: FontStyle,
        second: FontStyle,
    ) -> (result: Result<(), ParseError>)
        requires
            old(self).wf(stream(tokens)),
        ensures
            outcome(
                old(self)@.parse_alternation(stream(tokens), first, second),
                result,
                final(self)@,
            ),
            final(self).wf(stream(tokens)),
            result is Ok ==> final(self)@.cursor >= old(self)@.cursor,
        decreases tokens@.len() - old(self)@.cursor, 5int,
    {
        let ghost t = stream(tokens);
        let mut on_first = true;
        self.consume_spaces(tokens);
        while self.cursor < tokens.len()
            invariant
                t == stream(tokens),
                self.wf(t),
                self@.cursor >= old(self)@.cursor,
                self@.alternation(t, first, second, on_first) == old(self)@.parse_alternation(
                    t,
                    first,
                    second,
                ),
            decreases tokens@.len() - self@.cursor,
        {
            let ghost before = self@;
            if tokens[self.cursor].starts_line {
                // these macros end with their line
                proof {
                    reveal_strlit(" ");
                    assert(" "@ =~= seq![' ']);
                }
                self.add_to_output(" ");
                return Ok(());
            }
            if tokens[self.cursor].class == TroffToken::Whitespace {
                // white space is where the style changes
                proof {
                    semantics::lemma_spaces_skipped(before, t);
                }
                on_first = !on_first;
                self.consume_spaces(tokens);
                continue ;
            }
            let cur_fontstyle = if on_first {
                first
            } else {
                second
            };
            self.parse_styled_word(tokens, cur_fontstyle)?;
        }
        Ok(())
    }

    /// Interprets what begins at the current token: a macro, or a line of
    /// text.
    fn parse_token(&mut self, tokens: &Vec<Token<TroffToken>>) -> (result: Result<(), ParseError>)
        requires
            old(self).wf(stream(tokens)),
        ensures
            outcome(old(self)@.parse_token(stream(tokens)), result, final(self)@),
            final(self).wf(stream(tokens)),
            result is Ok && old(self)@.cursor < tokens@.len() ==> final(self)@.cursor > old(
                self,
            )@.cursor,
    {
        if self.cursor >= tokens.len() {
            return Ok(());
        }
        if self.term_writer.is_nofill() && tokens[self.cursor].starts_line {
            self.add_linebreak_single();
        }
        if tokens[self.cursor].class == TroffToken::Macro {
            self.parse_macro(tokens)
        } else {
            self.parse_line(tokens)?;
            if !self.term_writer.is_curline_whitespace_only() {
                proof {
                    reveal_strlit(" ");
                    assert(" "@ =~= seq![' ']);
                }
                self.add_to_output(" ");
            }
            Ok(())
        }
    }

    /// Interprets `tokens` from the first to the last, once.
    ///
    /// On success the rendered text and the trace are those of
    /// [`ParserView::parse`]. An error tells why the stream was given up;
    /// what was rendered up to then is of no use.
    pub fn parse(&mut self, tokens: &Vec<Token<TroffToken>>) -> (result: Result<(), ParseError>)
        requires
            old(self)@.writer.well_formed(),
            old(self)@.cursor == 0,
        ensures
            outcome(old(self)@.parse(stream(tokens)), result, final(self)@),
            final(self)@.writer.well_formed(),
            result is Ok ==> final(self)@.cursor == tokens@.len(),
    {
        let ghost t = stream(tokens);
        // the first token becomes the current one
        if self.cursor < tokens.len() {
            let text = format_token(&tokens[self.cursor]);
            self.add_to_before_output(text.as_str());
        }
        while self.cursor < tokens.len()
            invariant
                t == stream(tokens),
                self.wf(t),
                self@.parse_tokens(t) == old(self)@.parse(t),
            decreases tokens@.len() - self@.cursor,
        {
            self.parse_token(tokens)?;
        }
        Ok(())
    }
}

/// Tells whether `value` is the one character `c`.
fn is_char(value: &str, c: char) -> (is: bool)
    ensures
        is == (value@ == seq![c]),
{
    if value.unicode_len() == 1 {
        let first = value.get_char(0);
        assert(first == c ==> value@ =~= seq![c]);
        first == c
    } else {
        false
    }
}

} // verus!
