//! The writer that the interpreter drives: it collects the rendered text,
//! breaks lines that would become too long, and begins each line at the left
//! margin plus the indentation.
use crate::man_parse::term_writer::font_style::{FontStyle, FontStyleState, StyleView};
use crate::man_parse::term_writer::line_info::{LengthRule, LineInfo, LineView};
use crate::text::{push_chars, str_eq, string_of};
use vstd::prelude::*;

verus! {

/// The width that is assumed where the terminal does not tell its own.
pub const DEFAULT_LINE_LENGTH: usize = 80;

/// The columns that are left free at the right.
pub const RIGHT_MARGIN_LENGTH: usize = 8;

/// The narrowest terminal that lines are fitted to.
pub const MIN_LINE_LENGTH: usize = 80;

/// The left margin of the text below a section header.
pub const DEFAULT_LEFT_MARGIN: usize = 7;

/// The indentation of a paragraph where none was stored.
pub const DEFAULT_PARAGRAPH_INDENT: usize = 7;

/// `term_size::dimensions` asks the operating system for the width and the
/// height of the terminal that the process writes to or reads from. What it
/// returns depends on that terminal, so nothing is claimed of it.
pub assume_specification[ term_size::dimensions ]() -> (dimensions: Option<(usize, usize)>);

/// The sum of the entries of `stack`.
pub open spec fn sum(stack: Seq<nat>) -> nat
    decreases stack.len(),
{
    if stack.len() == 0 {
        0
    } else {
        sum(stack.drop_last()) + stack.last()
    }
}

/// The greatest length of a line for a terminal with the given dimensions, in
/// characters: the terminal's width, or [`DEFAULT_LINE_LENGTH`] where it is
/// unknown, but at least [`MIN_LINE_LENGTH`], less [`RIGHT_MARGIN_LENGTH`].
pub open spec fn line_length_for(dimensions: Option<(usize, usize)>) -> nat {
    let width = match dimensions {
        Some((width, _)) => width as nat,
        None => DEFAULT_LINE_LENGTH as nat,
    };
    if width >= MIN_LINE_LENGTH {
        (width - RIGHT_MARGIN_LENGTH) as nat
    } else {
        (MIN_LINE_LENGTH - RIGHT_MARGIN_LENGTH) as nat
    }
}

/// The state of a [`TroffTermWriter`].
pub struct WriterView {
    /// The font styles that are on.
    pub style: StyleView,
    /// Whether lines are taken over as they are.
    pub nofill: bool,
    /// The distance of the text from the left margin.
    pub indent: nat,
    /// The indentation that was stored last, if any.
    pub stored_indent: Option<nat>,
    /// The distance of the left margin from the left edge.
    pub margin: nat,
    /// The amounts by which the margin was increased, the latest last.
    pub margin_stack: Seq<nat>,
    /// The greatest length of a line, margin and indentation included.
    pub max_line_length: nat,
    /// The text written so far, with its style sequences.
    pub output: Seq<char>,
    /// The lengths of the line that is being written.
    pub line: LineView,
    /// Whether margin and indentation are drawn with letters.
    pub debug: bool,
}

impl WriterView {
    /// The margin is the sum of what was pushed and not yet popped, and the
    /// current line is part of the output.
    pub open spec fn well_formed(self) -> bool {
        &&& self.margin == sum(self.margin_stack)
        &&& self.line.total() <= self.output.len()
    }

    /// The state of a new writer for lines of at most `max_line_length`
    /// characters.
    pub open spec fn initial(max_line_length: nat) -> WriterView {
        WriterView {
            style: StyleView::plain(),
            nofill: false,
            indent: 0,
            stored_indent: None,
            margin: 0,
            margin_stack: seq![],
            max_line_length,
            output: seq![],
            line: LineView::empty(),
            debug: false,
        }
    }

    /// The indentation that was stored last, or the default.
    pub open spec fn stored_or_default_indent(self) -> nat {
        match self.stored_indent {
            Some(indent) => indent,
            None => DEFAULT_PARAGRAPH_INDENT as nat,
        }
    }

    /// The column at which text begins: margin plus indentation, but never
    /// beyond the greatest length of a line.
    pub open spec fn start_position(self) -> nat {
        if self.margin + self.indent <= self.max_line_length {
            self.margin + self.indent
        } else {
            self.max_line_length
        }
    }

    /// After the margin was increased by `size`.
    pub open spec fn with_margin_pushed(self, size: nat) -> WriterView {
        WriterView {
            margin: self.margin + size,
            margin_stack: self.margin_stack.push(size),
            ..self
        }
    }

    /// After the latest increase of the margin was undone.
    pub open spec fn with_margin_popped(self) -> WriterView
        recommends
            self.margin_stack.len() > 0,
    {
        WriterView {
            margin: (self.margin - self.margin_stack.last()) as nat,
            margin_stack: self.margin_stack.drop_last(),
            ..self
        }
    }

    /// After the latest `count` increases of the margin were undone, the
    /// latest first.
    pub open spec fn with_margins_popped(self, count: nat) -> WriterView
        recommends
            self.margin_stack.len() >= count,
        decreases count,
    {
        if count == 0 {
            self
        } else {
            self.with_margin_popped().with_margins_popped((count - 1) as nat)
        }
    }

    /// After every increase of the margin was undone.
    pub open spec fn with_zero_margin(self) -> WriterView {
        WriterView { margin: 0, margin_stack: seq![], ..self }
    }

    /// With the margin of the text below a section header, and nothing else
    /// pushed.
    pub open spec fn with_default_margin(self) -> WriterView {
        self.with_zero_margin().with_margin_pushed(DEFAULT_LEFT_MARGIN as nat)
    }

    /// After `text` was written to the current line as it is: in the style
    /// that applies, and without a look at the line's length.
    pub open spec fn written(self, text: Seq<char>) -> WriterView {
        WriterView {
            output: self.output + self.style.rendered(text),
            line: self.line.grown(text),
            ..self
        }
    }

    /// After `text` was written `times` times, each on its own.
    pub open spec fn written_times(self, text: Seq<char>, times: nat) -> WriterView
        decreases times,
    {
        if times == 0 {
            self
        } else {
            self.written_times(text, (times - 1) as nat).written(text)
        }
    }

    /// After the white space at the start of the current line was filled up
    /// with spaces to the start position. A line that holds that much white
    /// space already stays as it is.
    pub open spec fn padded(self) -> WriterView {
        if self.line.whitespace >= self.start_position() {
            self
        } else {
            WriterView {
                output: self.output + crate::text::repeated(
                    ' ',
                    (self.start_position() - self.line.whitespace) as nat,
                ),
                line: LineView { whitespace: self.start_position(), ..self.line },
                ..self
            }
        }
    }

    /// After margin and indentation were drawn on an empty line: an `M` for
    /// each column of the margin and an `I` for each of the indentation, as
    /// far as the line has room.
    pub open spec fn debug_padded(self) -> WriterView {
        let margin = if self.margin <= self.max_line_length {
            self.margin
        } else {
            self.max_line_length
        };
        let indent = (self.start_position() - margin) as nat;
        self.written_times(seq!['M'], margin).written_times(seq!['I'], indent)
    }

    /// After a line break: a new line begins, padded to the start position.
    pub open spec fn with_linebreak(self) -> WriterView {
        let fresh = WriterView {
            output: self.output.push('\n'),
            line: LineView::empty(),
            ..self
        };
        if self.debug {
            fresh.debug_padded()
        } else {
            fresh.padded()
        }
    }

    /// Whether the current line would become longer than allowed if `text`
    /// were written to it.
    pub open spec fn overflows(self, text: Seq<char>) -> bool {
        self.line.total() + text.len() > self.max_line_length
    }

    /// After `text` was added.
    ///
    /// A lone line feed is a line break. Text that would make the line too
    /// long is written to a new line; a single space that would do so is
    /// dropped behind the line break.
    pub open spec fn with_text(self, text: Seq<char>) -> WriterView {
        if text == seq!['\n'] {
            self.with_linebreak()
        } else if self.overflows(text) {
            if text == seq![' '] {
                self.with_linebreak()
            } else {
                self.with_linebreak().written(text)
            }
        } else {
            self.written(text)
        }
    }
}

/// [`sum`] of a stack with one more entry.
pub proof fn lemma_sum_push(stack: Seq<nat>, size: nat)
    ensures
        sum(stack.push(size)) == sum(stack) + size,
{
    assert(stack.push(size).drop_last() =~= stack);
}

/// A writer that knows troff's layout: it keeps margin, indentation and font
/// style, and wraps lines.
pub struct TroffTermWriter {
    /// italic, bold, underlined
    font_style: FontStyleState,
    /// Whether no-fill mode is on: lines are taken over as they are.
    nofill: bool,
    /// The distance of the text from the left margin.
    indent: usize,
    /// The indentation that was stored last.
    stored_indent: Option<usize>,
    /// The distance of the left margin from the left edge.
    margin: usize,
    /// The greatest length of a line; margin and indentation count.
    max_line_length: usize,
    /// The increases of the margin that can be undone.
    margin_stack: Vec<usize>,
    /// The text written so far.
    output_buf: Vec<char>,
    /// The lengths of the line that is being written.
    cur_line_info: LineInfo,
    debug: bool,
}

/// The entries of a margin stack as natural numbers.
pub open spec fn stack_view(stack: Seq<usize>) -> Seq<nat> {
    stack.map_values(|size: usize| size as nat)
}

/// The stored indentation as a natural number.
pub open spec fn indent_view(indent: Option<usize>) -> Option<nat> {
    match indent {
        Some(indent) => Some(indent as nat),
        None => None,
    }
}

impl View for TroffTermWriter {
    type V = WriterView;

    closed spec fn view(&self) -> WriterView {
        WriterView {
            style: self.font_style@,
            nofill: self.nofill,
            indent: self.indent as nat,
            stored_indent: indent_view(self.stored_indent),
            margin: self.margin as nat,
            margin_stack: stack_view(self.margin_stack@),
            max_line_length: self.max_line_length as nat,
            output: self.output_buf@,
            line: self.cur_line_info@,
            debug: self.debug,
        }
    }
}

/// The greatest length of a line for a terminal with the given dimensions.
pub fn line_length(dimensions: Option<(usize, usize)>) -> (length: usize)
    ensures
        length == line_length_for(dimensions),
        length >= MIN_LINE_LENGTH - RIGHT_MARGIN_LENGTH,
{
    let width = match dimensions {
        Some((width, _)) => width,
        None => DEFAULT_LINE_LENGTH,
    };
    if width >= MIN_LINE_LENGTH {
        width - RIGHT_MARGIN_LENGTH
    } else {
        MIN_LINE_LENGTH - RIGHT_MARGIN_LENGTH
    }
}

/// Whether `length` is the greatest length of a line for a terminal of some
/// dimensions, known or unknown.
pub open spec fn is_line_length(length: nat) -> bool {
    exists|dimensions: Option<(usize, usize)>| length == #[trigger] line_length_for(dimensions)
}

/// The greatest length of a line for the terminal of this process: that for
/// the dimensions which the terminal reports, whatever they are.
fn term_width() -> (width: usize)
    ensures
        is_line_length(width as nat),
        width >= MIN_LINE_LENGTH - RIGHT_MARGIN_LENGTH,
{
    let dimensions = term_size::dimensions();
    let width = line_length(dimensions);
    assert(width == line_length_for(dimensions));
    width
}

impl TroffTermWriter {
    /// Whether the writer's state is [well formed](WriterView::well_formed).
    pub open spec fn wf(&self) -> bool {
        self@.well_formed()
    }

    /// A writer for the terminal of this process: the writer that
    /// [`for_dimensions`](Self::for_dimensions) gives for the dimensions
    /// which the terminal reports.
    pub fn new() -> (writer: Self)
        ensures
            writer@ == WriterView::initial(writer@.max_line_length),
            is_line_length(writer@.max_line_length),
            writer@.max_line_length >= MIN_LINE_LENGTH - RIGHT_MARGIN_LENGTH,
            writer.wf(),
    {
        Self::with_line_length(term_width())
    }

    /// A writer for a terminal with the given dimensions, width first; `None`
    /// where they are unknown.
    pub fn for_dimensions(dimensions: Option<(usize, usize)>) -> (writer: Self)
        ensures
            writer@ == WriterView::initial(line_length_for(dimensions)),
            writer.wf(),
    {
        Self::with_line_length(line_length(dimensions))
    }

    /// A writer for lines of at most `max_line_length` characters.
    fn with_line_length(max_line_length: usize) -> (writer: Self)
        ensures
            writer@ == WriterView::initial(max_line_length as nat),
            writer.wf(),
    {
        let writer = TroffTermWriter {
            font_style: FontStyleState::default(),
            nofill: false,
            indent: 0,
            stored_indent: None,
            margin: 0,
            max_line_length,
            margin_stack: Vec::new(),
            output_buf: Vec::new(),
            cur_line_info: LineInfo::default(),
            debug: false,
        };
        assert(writer@.margin_stack =~= seq![]);
        assert(writer@.output =~= seq![]);
        writer
    }

    /// Has margin and indentation drawn with letters from now on.
    pub fn enable_debug(&mut self)
        ensures
            final(self)@ == (WriterView { debug: true, ..old(self)@ }),
    {
        self.debug = true;
    }

    /// Has margin and indentation left blank from now on.
    pub fn disable_debug(&mut self)
        ensures
            final(self)@ == (WriterView { debug: false, ..old(self)@ }),
    {
        self.debug = false;
    }

    /// Switches bold, italic and underlined off.
    pub fn reset_font_properties(&mut self)
        ensures
            final(self)@ == (WriterView { style: StyleView::plain(), ..old(self)@ }),
    {
        self.font_style = FontStyleState::default();
    }

    /// The distance of the text from the left margin.
    pub fn indent(&self) -> (indent: usize)
        ensures
            indent == self@.indent,
    {
        self.indent
    }

    /// Sets the indentation to 0.
    pub fn zero_indent(&mut self)
        ensures
            final(self)@ == (WriterView { indent: 0, ..old(self)@ }),
    {
        self.indent = 0;
    }

    /// The indentation that was stored last, if any.
    pub fn stored_indent(&self) -> (stored: Option<usize>)
        ensures
            indent_view(stored) == self@.stored_indent,
    {
        self.stored_indent
    }

    /// Stores the current indentation, for
    /// [`stored_or_default_indent`](Self::stored_or_default_indent) to return.
    pub fn store_indent(&mut self)
        ensures
            final(self)@ == (WriterView { stored_indent: Some(old(self)@.indent), ..old(self)@ }),
    {
        self.stored_indent = Some(self.indent);
    }

    /// Forgets the stored indentation.
    pub fn clear_stored_indent(&mut self)
        ensures
            final(self)@ == (WriterView { stored_indent: None, ..old(self)@ }),
    {
        self.stored_indent = None;
    }

    /// The distance of the left margin from the left edge.
    pub fn margin(&self) -> (margin: usize)
        ensures
            margin == self@.margin,
    {
        self.margin
    }

    /// How many increases of the margin can be undone.
    pub fn margin_depth(&self) -> (depth: usize)
        ensures
            depth == self@.margin_stack.len(),
    {
        self.margin_stack.len()
    }

    /// The greatest length of a line.
    pub fn max_line_length(&self) -> (length: usize)
        ensures
            length == self@.max_line_length,
    {
        self.max_line_length
    }

    /// Increases the margin by `size` characters, in a way that
    /// [`pop_margin`](Self::pop_margin) undoes.
    pub fn increase_margin(&mut self, size: usize)
        requires
            old(self).wf(),
            old(self)@.margin + size <= usize::MAX,
        ensures
            final(self)@ == old(self)@.with_margin_pushed(size as nat),
            final(self).wf(),
    {
        proof {
            lemma_sum_push(self@.margin_stack, size as nat);
        }
        self.margin += size;
        self.margin_stack.push(size);
        assert(self@.margin_stack =~= old(self)@.margin_stack.push(size as nat));
    }

    /// Undoes the latest increase of the margin.
    pub fn pop_margin(&mut self)
        requires
            old(self).wf(),
            old(self)@.margin_stack.len() > 0,
        ensures
            final(self)@ == old(self)@.with_margin_popped(),
            final(self).wf(),
    {
        let amount = self.margin_stack.pop().unwrap();
        assert(self@.margin_stack =~= old(self)@.margin_stack.drop_last());
        self.margin -= amount;
    }

    /// Begins no-fill mode.
    pub fn enable_nofill(&mut self)
        ensures
            final(self)@ == (WriterView { nofill: true, ..old(self)@ }),
    {
        self.nofill = true;
    }

    /// Ends no-fill mode.
    pub fn disable_nofill(&mut self)
        ensures
            final(self)@ == (WriterView { nofill: false, ..old(self)@ }),
    {
        self.nofill = false;
    }

    /// Tells whether no-fill mode is on.
    pub fn is_nofill(&self) -> (nofill: bool)
        ensures
            nofill == self@.nofill,
    {
        self.nofill
    }

    /// Switches a font style on.
    pub fn set_fontstyle(&mut self, s: FontStyle)
        ensures
            final(self)@ == (WriterView { style: old(self)@.style.with(s, true), ..old(self)@ }),
    {
        self.font_style.set_fontstyle_value(s, true);
    }

    /// Switches a font style off.
    pub fn unset_fontstyle(&mut self, s: FontStyle)
        ensures
            final(self)@ == (WriterView { style: old(self)@.style.with(s, false), ..old(self)@ }),
    {
        self.font_style.set_fontstyle_value(s, false);
    }

    /// Writes `text` to the current line in the style that applies.
    fn write_visible(&mut self, text: &str)
        requires
            old(self).wf(),
        ensures
            final(self)@ == old(self)@.written(text@),
            final(self).wf(),
    {
        match self.font_style.stylize_text(text) {
            Some(styled) => {
                push_chars(&mut self.output_buf, styled.as_str());
            },
            None => {
                push_chars(&mut self.output_buf, text);
            },
        }
        proof {
            // the line is part of the output, which is not longer than a
            // vector can be
            assert(self.output_buf@.len() == self.output_buf.len());
        }
        self.cur_line_info.increase_len(text);
    }

    /// Adds `text` to the output, on a new line if the current one would
    /// become longer than allowed. `text` is expected to hold no line feed,
    /// unless it is a lone line feed.
    pub fn add_to_buf(&mut self, text: &str)
        requires
            old(self).wf(),
        ensures
            final(self)@ == old(self)@.with_text(text@),
            final(self).wf(),
    {
        proof {
            reveal_strlit("\n");
            reveal_strlit(" ");
            assert("\n"@ =~= seq!['\n']);
            assert(" "@ =~= seq![' ']);
        }
        if str_eq(text, "\n") {
            self.add_linebreak();
            return ;
        }
        let len = text.unicode_len();
        let line = self.cur_line_info.len(LengthRule::Everything);
        if len > self.max_line_length || line > self.max_line_length - len {
            self.add_linebreak();
            if str_eq(text, " ") {
                return ;
            }
        }
        self.write_visible(text);
    }

    /// The output so far.
    pub fn buf(&self) -> (text: String)
        ensures
            text@ == self@.output,
    {
        string_of(&self.output_buf)
    }

    /// Sets the indentation that lines begin with from now on.
    pub fn set_indent(&mut self, count: usize)
        ensures
            final(self)@ == (WriterView { indent: count as nat, ..old(self)@ }),
    {
        self.indent = count;
    }

    /// Sets the indentation to that of a paragraph.
    pub fn default_indent(&mut self)
        ensures
            final(self)@ == (WriterView {
                indent: DEFAULT_PARAGRAPH_INDENT as nat,
                ..old(self)@
            }),
    {
        self.indent = DEFAULT_PARAGRAPH_INDENT;
    }

    /// The indentation that was stored last, or that of a paragraph if none
    /// was.
    pub fn stored_or_default_indent(&self) -> (indent: usize)
        ensures
            indent == self@.stored_or_default_indent(),
    {
        match self.stored_indent {
            Some(indent) => indent,
            None => DEFAULT_PARAGRAPH_INDENT,
        }
    }

    /// Sets the margin to 0 and forgets every increase.
    pub fn zero_margin(&mut self)
        ensures
            final(self)@ == old(self)@.with_zero_margin(),
            old(self).wf() ==> final(self).wf(),
    {
        self.margin = 0;
        self.margin_stack = Vec::new();
        assert(self@.margin_stack =~= seq![]);
    }

    /// Sets the margin to its default as the one increase.
    pub fn default_margin(&mut self)
        requires
            old(self).wf(),
        ensures
            final(self)@ == old(self)@.with_default_margin(),
            final(self).wf(),
    {
        self.zero_margin();
        self.increase_margin(DEFAULT_LEFT_MARGIN);
    }

    /// Ends the current line and begins the next at the start position.
    pub fn add_linebreak(&mut self)
        requires
            old(self).wf(),
        ensures
            final(self)@ == old(self)@.with_linebreak(),
            final(self).wf(),
    {
        self.output_buf.push('\n');
        self.cur_line_info.reset();
        if !self.debug {
            self.set_whitespace_to_startpos();
        } else {
            self.set_whitespace_to_startpos_debug_visualize_margin();
        }
    }

    /// Fills the start of the current line with spaces up to the start
    /// position. White space is only ever added: a line that holds more
    /// stays as it is.
    pub fn set_whitespace_to_startpos(&mut self)
        requires
            old(self).wf(),
            old(self)@.line.other == 0,
        ensures
            final(self)@ == old(self)@.padded(),
            final(self).wf(),
    {
        let start = self.text_start_pos();
        let present = self.cur_line_info.len(LengthRule::Whitespace);
        if present >= start {
            return ;
        }
        let missing = start - present;
        let mut padding = String::new();
        let mut done: usize = 0;
        while done < missing
            invariant
                done <= missing,
                missing == start - present,
                padding@ == crate::text::repeated(' ', done as nat),
                self.output_buf@ == old(self).output_buf@ + crate::text::repeated(' ', done as nat),
                self.font_style == old(self).font_style,
                self.nofill == old(self).nofill,
                self.indent == old(self).indent,
                self.stored_indent == old(self).stored_indent,
                self.margin == old(self).margin,
                self.max_line_length == old(self).max_line_length,
                self.margin_stack == old(self).margin_stack,
                self.cur_line_info == old(self).cur_line_info,
                self.debug == old(self).debug,
            decreases missing - done,
        {
            self.output_buf.push(' ');
            padding.push(' ');
            done += 1;
            assert(padding@ =~= crate::text::repeated(' ', done as nat));
            assert(self.output_buf@ =~= old(self).output_buf@ + crate::text::repeated(
                ' ',
                done as nat,
            ));
        }
        proof {
            // the line is part of the output, which is not longer than a
            // vector can be
            assert(self.output_buf@.len() == self.output_buf.len());
        }
        self.cur_line_info.increase_len(padding.as_str());
    }

    /// Draws margin and indentation on the current line, which is empty.
    fn set_whitespace_to_startpos_debug_visualize_margin(&mut self)
        requires
            old(self).wf(),
            old(self)@.line == LineView::empty(),
        ensures
            final(self)@ == old(self)@.debug_padded(),
            final(self).wf(),
    {
        let start = self.text_start_pos();
        let margin = if self.margin <= self.max_line_length {
            self.margin
        } else {
            self.max_line_length
        };
        proof {
            reveal_strlit("M");
            reveal_strlit("I");
            assert("M"@ =~= seq!['M']);
            assert("I"@ =~= seq!['I']);
        }
        self.write_times("M", margin);
        self.write_times("I", start - margin);
    }

    /// Writes `text` to the current line `times` times.
    fn write_times(&mut self, text: &str, times: usize)
        requires
            old(self).wf(),
        ensures
            final(self)@ == old(self)@.written_times(text@, times as nat),
            final(self).wf(),
    {
        let mut done: usize = 0;
        while done < times
            invariant
                done <= times,
                self.wf(),
                self@ == old(self)@.written_times(text@, done as nat),
            decreases times - done,
        {
            self.write_visible(text);
            done += 1;
        }
    }

    /// Tells whether the current line holds white space only, or nothing.
    pub fn is_curline_whitespace_only(&self) -> (only: bool)
        ensures
            only == (self@.line.other == 0),
    {
        self.cur_line_info.is_whitespace_only()
    }

    /// The column at which text begins.
    fn text_start_pos(&self) -> (start: usize)
        ensures
            start == self@.start_position(),
    {
        if self.margin >= self.max_line_length {
            self.max_line_length
        } else if self.indent >= self.max_line_length - self.margin {
            self.max_line_length
        } else {
            self.margin + self.indent
        }
    }
}

} // verus!
