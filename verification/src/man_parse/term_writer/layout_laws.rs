//! Laws of the layout engine: the margin and its stack, and the lengths of
//! the lines that are written.
use crate::man_parse::term_writer::font_style::StyleView;
use crate::man_parse::term_writer::line_info::LineView;
use crate::man_parse::term_writer::troff_term_writer::{lemma_sum_push, WriterView};
use vstd::prelude::*;

verus! {

/// An increase of the margin keeps the state well formed.
pub proof fn lemma_margin_pushed(w: WriterView, size: nat)
    requires
        w.well_formed(),
    ensures
        w.with_margin_pushed(size).well_formed(),
        w.with_margin_pushed(size).margin == w.margin + size,
{
    lemma_sum_push(w.margin_stack, size);
}

/// To undo an increase of the margin keeps the state well formed, and takes
/// from the margin exactly the amount that was pushed last.
pub proof fn lemma_margin_popped(w: WriterView)
    requires
        w.well_formed(),
        w.margin_stack.len() > 0,
    ensures
        w.with_margin_popped().well_formed(),
        w.with_margin_popped().margin + w.margin_stack.last() == w.margin,
{
}

/// To undo an increase of the margin gives back the state before it.
pub proof fn lemma_margin_pushed_then_popped(w: WriterView, size: nat)
    ensures
        w.with_margin_pushed(size).with_margin_popped() == w,
{
    assert(w.margin_stack.push(size).drop_last() =~= w.margin_stack);
}

/// To undo `count` increases of the margin at once keeps the state well
/// formed and leaves the increases before them.
pub proof fn lemma_margins_popped(w: WriterView, count: nat)
    requires
        w.well_formed(),
        count <= w.margin_stack.len(),
    ensures
        w.with_margins_popped(count).well_formed(),
        w.with_margins_popped(count).margin_stack == w.margin_stack.take(
            w.margin_stack.len() - count,
        ),
        w.with_margins_popped(count) == (WriterView {
            margin: w.with_margins_popped(count).margin,
            margin_stack: w.with_margins_popped(count).margin_stack,
            ..w
        }),
    decreases count,
{
    if count > 0 {
        lemma_margin_popped(w);
        lemma_margins_popped(w.with_margin_popped(), (count - 1) as nat);
        assert(w.margin_stack.drop_last().take(w.margin_stack.len() - count)
            =~= w.margin_stack.take(w.margin_stack.len() - count));
    } else {
        assert(w.margin_stack.take(w.margin_stack.len() as int) =~= w.margin_stack);
    }
}

/// Text that is written several times over changes the output and the
/// lengths of the current line, and nothing else.
pub proof fn lemma_written_times(w: WriterView, text: Seq<char>, times: nat)
    ensures
        w.written_times(text, times) == (WriterView {
            output: w.written_times(text, times).output,
            line: w.written_times(text, times).line,
            ..w
        }),
        w.line.total() <= w.output.len() ==> w.written_times(text, times).line.total()
            <= w.written_times(text, times).output.len(),
    decreases times,
{
    if times > 0 {
        lemma_written_times(w, text, (times - 1) as nat);
    }
}

/// A line break, like the padding of a line, changes the output and the
/// lengths of the current line, and nothing else: not the margin, the
/// indentation or the font style. Both keep the state well formed.
pub proof fn lemma_linebreak_frame(w: WriterView)
    ensures
        w.with_linebreak() == (WriterView {
            output: w.with_linebreak().output,
            line: w.with_linebreak().line,
            ..w
        }),
        w.padded() == (WriterView { output: w.padded().output, line: w.padded().line, ..w }),
        w.well_formed() ==> w.with_linebreak().well_formed() && w.padded().well_formed(),
{
    let fresh = WriterView {
        output: w.output.push('\n'),
        line: LineView::empty(),
        ..w
    };
    let margin = if w.margin <= w.max_line_length {
        w.margin
    } else {
        w.max_line_length
    };
    lemma_written_times(fresh, seq!['M'], margin);
    lemma_written_times(
        fresh.written_times(seq!['M'], margin),
        seq!['I'],
        (w.start_position() - margin) as nat,
    );
}

/// The state after `count` single spaces were added to `w`, one by one.
pub open spec fn with_spaces(w: WriterView, count: nat) -> WriterView
    decreases count,
{
    if count == 0 {
        w
    } else {
        with_spaces(w, (count - 1) as nat).with_text(seq![' '])
    }
}

/// Spaces that fit on the current line are added to it as they are: they are
/// never styled, and they count as white space.
pub proof fn lemma_spaces_are_written(w: WriterView, count: nat)
    requires
        w.line.total() + count <= w.max_line_length,
    ensures
        with_spaces(w, count) == (WriterView {
            output: w.output + crate::text::repeated(' ', count),
            line: LineView {
                whitespace: w.line.whitespace + count,
                ..w.line
            },
            ..w
        }),
    decreases count,
{
    if count == 0 {
        assert(w.output + crate::text::repeated(' ', 0) =~= w.output);
    } else {
        lemma_spaces_are_written(w, (count - 1) as nat);
        let before = with_spaces(w, (count - 1) as nat);
        assert(seq![' '][0] == ' ');
        assert(before.output + seq![' '] =~= w.output + crate::text::repeated(' ', count));
    }
}

/// The padding of a line is what comes of adding, one by one, the spaces
/// that the line lacks up to the start position: padding goes through the
/// same accounting as any other text.
pub proof fn lemma_padding_is_added_spaces(w: WriterView)
    requires
        w.line.other == 0,
        w.line.whitespace <= w.start_position(),
    ensures
        w.padded() == with_spaces(w, (w.start_position() - w.line.whitespace) as nat),
{
    lemma_spaces_are_written(w, (w.start_position() - w.line.whitespace) as nat);
    if w.line.whitespace == w.start_position() {
        assert(w.output + crate::text::repeated(' ', 0) =~= w.output);
    }
}

/// Whether `text` holds no line feed.
pub open spec fn is_one_line(text: Seq<char>) -> bool {
    forall|i: int| 0 <= i < text.len() ==> #[trigger] text[i] != '\n'
}

/// The length of the last line of `output`: the characters behind its last
/// line feed.
pub open spec fn last_line_len(output: Seq<char>) -> nat
    decreases output.len(),
{
    if output.len() == 0 || output.last() == '\n' {
        0
    } else {
        last_line_len(output.drop_last()) + 1
    }
}

/// Whether no line of `output` is longer than `width` characters.
pub open spec fn lines_within(output: Seq<char>, width: nat) -> bool
    decreases output.len(),
{
    if output.len() == 0 {
        true
    } else {
        lines_within(output.drop_last(), width) && last_line_len(output) <= width
    }
}

/// Text without a line feed makes the last line longer by its length, and
/// keeps every line within the width if that last line stays within it.
pub proof fn lemma_line_grows(output: Seq<char>, text: Seq<char>, width: nat)
    requires
        is_one_line(text),
    ensures
        last_line_len(output + text) == last_line_len(output) + text.len(),
        lines_within(output, width) && last_line_len(output) + text.len() <= width
            ==> lines_within(output + text, width),
    decreases text.len(),
{
    if text.len() == 0 {
        assert(output + text =~= output);
    } else {
        let shorter = text.drop_last();
        assert(is_one_line(shorter)) by {
            assert forall|i: int| 0 <= i < shorter.len() implies #[trigger] shorter[i] != '\n' by {
                assert(shorter[i] == text[i]);
            }
        }
        lemma_line_grows(output, shorter, width);
        assert((output + text).drop_last() =~= output + shorter);
        assert((output + text).last() == text.last());
    }
}

/// A line feed begins a new, empty line, and keeps every line within the
/// width.
pub proof fn lemma_line_ends(output: Seq<char>, width: nat)
    ensures
        last_line_len(output.push('\n')) == 0,
        lines_within(output, width) ==> lines_within(output.push('\n'), width),
{
    assert(output.push('\n').drop_last() =~= output);
}

/// Whether the lengths that `w` keeps of its current line are those of the
/// last line of its output, and no line of the output is longer than
/// allowed. Style sequences are not told from text here, so no font style
/// is on; nor is the margin drawn.
pub open spec fn keeps_width(w: WriterView) -> bool {
    &&& w.style == StyleView::plain()
    &&& !w.debug
    &&& w.line.total() == last_line_len(w.output)
    &&& w.line.total() <= w.max_line_length
    &&& lines_within(w.output, w.max_line_length)
}

/// Text without a style is written as it is.
pub proof fn lemma_plain_text_is_kept(text: Seq<char>)
    ensures
        StyleView::plain().rendered(text) == text,
{
}

/// A line break keeps the width: the new line holds its padding and no
/// more.
pub proof fn lemma_linebreak_keeps_width(w: WriterView)
    requires
        keeps_width(w),
    ensures
        keeps_width(w.with_linebreak()),
        w.with_linebreak().line.total() == w.start_position(),
        w.with_linebreak().line.other == 0,
        w.with_linebreak() == (WriterView {
            output: w.with_linebreak().output,
            line: w.with_linebreak().line,
            ..w
        }),
{
    let fresh = WriterView {
        output: w.output.push('\n'),
        line: LineView::empty(),
        ..w
    };
    lemma_line_ends(w.output, w.max_line_length);
    let padding = crate::text::repeated(' ', w.start_position());
    assert(is_one_line(padding));
    lemma_line_grows(fresh.output, padding, w.max_line_length);
    if w.start_position() == 0 {
        assert(fresh.padded() == fresh);
    }
}

/// The wrapping boundary. Text of one line that is added while no font
/// style is on goes to a new line exactly if the current line would become
/// longer than allowed with it; and if the text fits between the start
/// position and the greatest length, no line becomes longer than allowed.
pub proof fn lemma_text_keeps_width(w: WriterView, text: Seq<char>)
    requires
        keeps_width(w),
        is_one_line(text),
        w.start_position() + text.len() <= w.max_line_length,
    ensures
        keeps_width(w.with_text(text)),
        !w.overflows(text) ==> w.with_text(text).output == w.output + text,
        w.overflows(text) && text != seq![' '] ==> w.with_text(text).output
            == w.with_linebreak().output + text,
        w.overflows(text) && text == seq![' '] ==> w.with_text(text) == w.with_linebreak(),
{
    lemma_plain_text_is_kept(text);
    if text == seq!['\n'] {
        assert(text[0] == '\n');
    }
    if w.overflows(text) {
        lemma_linebreak_keeps_width(w);
        let broken = w.with_linebreak();
        if text != seq![' '] {
            lemma_line_grows(broken.output, text, w.max_line_length);
            assert(broken.line.grown(text).total() == broken.line.total() + text.len());
        }
    } else {
        lemma_line_grows(w.output, text, w.max_line_length);
        assert(w.line.grown(text).total() == w.line.total() + text.len());
    }
}

/// The font style has no part in the layout: whatever styles are on, text
/// takes the same room on its line and goes to a new line in the same
/// cases. Only what is written for it differs.
pub proof fn lemma_layout_ignores_style(w: WriterView, text: Seq<char>, style: StyleView)
    ensures
        (WriterView { style, ..w }).overflows(text) == w.overflows(text),
        (WriterView { style, ..w }).with_text(text).line == w.with_text(text).line,
        (WriterView { style, ..w }).with_linebreak().line == w.with_linebreak().line,
{
    let other = WriterView { style, ..w };
    let fresh = WriterView {
        output: w.output.push('\n'),
        line: LineView::empty(),
        ..w
    };
    let other_fresh = WriterView {
        output: other.output.push('\n'),
        line: LineView::empty(),
        ..other
    };
    let margin = if w.margin <= w.max_line_length {
        w.margin
    } else {
        w.max_line_length
    };
    let indent = (w.start_position() - margin) as nat;
    lemma_written_times_line(fresh, other_fresh, seq!['M'], margin);
    lemma_written_times_line(
        fresh.written_times(seq!['M'], margin),
        other_fresh.written_times(seq!['M'], margin),
        seq!['I'],
        indent,
    );
}

/// Text that is written several times over makes the line as long whatever
/// else the two states differ in.
pub proof fn lemma_written_times_line(
    w: WriterView,
    other: WriterView,
    text: Seq<char>,
    times: nat,
)
    requires
        w.line == other.line,
    ensures
        w.written_times(text, times).line == other.written_times(text, times).line,
    decreases times,
{
    if times > 0 {
        lemma_written_times_line(w, other, text, (times - 1) as nat);
    }
}

/// The state after the words `words` were added to `w` with a single space
/// behind each.
pub open spec fn with_words(w: WriterView, words: Seq<Seq<char>>) -> WriterView
    decreases words.len(),
{
    if words.len() == 0 {
        w
    } else {
        with_words(w, words.drop_last()).with_text(words.last()).with_text(seq![' '])
    }
}

/// Words that are added one after the other, each followed by a space, never
/// make a line longer than allowed, if each of them fits between the start
/// position and the greatest length.
pub proof fn lemma_words_keep_width(w: WriterView, words: Seq<Seq<char>>)
    requires
        keeps_width(w),
        w.start_position() < w.max_line_length,
        forall|i: int|
            0 <= i < words.len() ==> is_one_line(#[trigger] words[i]) && w.start_position()
                + words[i].len() <= w.max_line_length,
    ensures
        keeps_width(with_words(w, words)),
        with_words(w, words).start_position() == w.start_position(),
        with_words(w, words).max_line_length == w.max_line_length,
    decreases words.len(),
{
    if words.len() > 0 {
        let before = words.drop_last();
        assert forall|i: int| 0 <= i < before.len() implies is_one_line(#[trigger] before[i])
            && w.start_position() + before[i].len() <= w.max_line_length by {
            assert(before[i] == words[i]);
        }
        lemma_words_keep_width(w, before);
        let at = with_words(w, before);
        lemma_text_keeps_width(at, words.last());
        lemma_text_frame(at, words.last());
        let written = at.with_text(words.last());
        assert(is_one_line(seq![' ']));
        lemma_text_keeps_width(written, seq![' ']);
        lemma_text_frame(written, seq![' ']);
    }
}

/// Text changes the output and the lengths of the current line, and nothing
/// else: not the margin, the indentation or the font style. It keeps the
/// state well formed.
pub proof fn lemma_text_frame(w: WriterView, text: Seq<char>)
    ensures
        w.with_text(text) == (WriterView {
            output: w.with_text(text).output,
            line: w.with_text(text).line,
            ..w
        }),
        w.well_formed() ==> w.with_text(text).well_formed(),
{
    lemma_linebreak_frame(w);
}

} // verus!
