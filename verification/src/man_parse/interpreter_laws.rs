//! Laws of the interpreter: what holds of every state and token stream.
use crate::man_parse::term_writer::font_style::FontStyle;
use crate::man_parse::term_writer::layout_laws;
use crate::man_parse::term_writer::troff_term_writer::WriterView;
use crate::man_parse::troff_semantics as semantics;
use crate::man_parse::troff_semantics::{ParseError, ParserView, Tokens};
use crate::man_parse::troff_token_generator as lexer;
use crate::man_parse::troff_token_generator::TroffToken;
use vstd::prelude::*;

verus! {

/// While the section that was asked for is not the current one, text and
/// line breaks change nothing.
pub proof fn lemma_hidden_output(s: ParserView, text: Seq<char>)
    requires
        !s.section_matches(),
    ensures
        s.with_output(text) == s,
        s.with_linebreak() == s,
        s.with_blank_line() == s,
        s.with_single_linebreak() == s,
        s.traced(text) == s,
{
}

/// Font style and indentation are set whether output is visible or not.
pub proof fn lemma_state_changes_when_hidden(
    s: ParserView,
    style: FontStyle,
    indent: nat,
)
    ensures
        s.with_style(style, true).writer.style == s.writer.style.with(style, true),
        s.with_indent(indent).writer.indent == indent,
        s.with_indent(indent).with_indent_stored().writer.stored_indent == Some(indent),
{
}

/// A token that is consumed moves the cursor on by one, and leaves the
/// layout engine and the sections as they are.
pub proof fn lemma_consumed(s: ParserView, t: Tokens)
    requires
        s.cursor < t.len(),
    ensures
        s.consumed(t) == (ParserView {
            cursor: s.cursor + 1,
            trace: s.consumed(t).trace,
            ..s
        }),
{
}

/// `\-` renders as `-`: the two tokens are consumed, and a hyphen is added
/// to the output.
pub proof fn lemma_hyphen_escape(s: ParserView, t: Tokens)
    requires
        s.cursor + 1 < t.len(),
        t[s.cursor as int].value == seq!['\\'],
        t[(s.cursor + 1) as int].value == seq!['-'],
    ensures
        s.parse_backslash(t) == Ok::<ParserView, ParseError>(
            s.consumed(t).consumed(t).with_output(seq!['-']),
        ),
        s.parse_backslash(t)->Ok_0.cursor == s.cursor + 2,
        s.section_matches() ==> s.parse_backslash(t)->Ok_0.writer == s.writer.with_text(
            seq!['-'],
        ),
{
    reveal(ParserView::parse_backslash);
    assert(seq!['-'][0] == '-');
}

/// `\(cq` renders as an apostrophe: the three tokens are consumed, and an
/// apostrophe is added to the output.
pub proof fn lemma_apostrophe_escape(s: ParserView, t: Tokens)
    requires
        s.cursor + 2 < t.len(),
        t[s.cursor as int].value == seq!['\\'],
        t[(s.cursor + 1) as int].value == seq!['('],
        t[(s.cursor + 2) as int].value == seq!['c', 'q'],
    ensures
        s.parse_backslash(t) == Ok::<ParserView, ParseError>(
            s.consumed(t).consumed(t).with_output(seq!['\'']).consumed(t),
        ),
        s.parse_backslash(t)->Ok_0.cursor == s.cursor + 3,
        s.section_matches() ==> s.parse_backslash(t)->Ok_0.writer == s.writer.with_text(
            seq!['\''],
        ),
{
    reveal(ParserView::parse_backslash);
    assert(seq!['('][0] == '(');
    assert(seq!['-'][0] == '-');
}

/// Any other special character renders as nothing: the three tokens of
/// `\(xy` are consumed, and the layout engine stays as it is.
pub proof fn lemma_other_special_character(s: ParserView, t: Tokens)
    requires
        s.cursor + 2 < t.len(),
        t[s.cursor as int].value == seq!['\\'],
        t[(s.cursor + 1) as int].value == seq!['('],
        t[(s.cursor + 2) as int].value != seq!['c', 'q'],
    ensures
        s.parse_backslash(t) == Ok::<ParserView, ParseError>(
            s.consumed(t).consumed(t).consumed(t),
        ),
        s.parse_backslash(t)->Ok_0.cursor == s.cursor + 3,
        s.parse_backslash(t)->Ok_0.writer == s.writer,
{
    reveal(ParserView::parse_backslash);
    assert(seq!['('][0] == '(');
    assert(seq!['-'][0] == '-');
}

/// The tokens of `\-`: a backslash and the escape command `-`.
pub proof fn lemma_hyphen_tokens(starts_line: bool)
    ensures
        lexer::word_tokens(seq!['\\', '-'], starts_line)
            == seq![
            lexer::token(
                TroffToken::Backslash,
                seq!['\\'],
                starts_line,
            ),
            lexer::token(
                TroffToken::EscapeCommand,
                seq!['-'],
                false,
            ),
        ],
{
    let word = seq!['\\', '-'];
    reveal_with_fuel(lexer::text_tokens, 3);
    reveal_with_fuel(lexer::escape_tokens, 3);
    assert(word[0] == '\\' && word[1] == '-');
    assert(!crate::text::is_whitespace('\\'));
    assert(lexer::word_tokens(word, starts_line) =~= seq![
        lexer::token(
            TroffToken::Backslash,
            seq!['\\'],
            starts_line,
        ),
        lexer::token(
            TroffToken::EscapeCommand,
            seq!['-'],
            false,
        ),
    ]);
}

/// The tokens of `\(xy`: a backslash, the escape command `(` and the name
/// `xy` as one text word.
pub proof fn lemma_special_character_tokens(x: char, y: char, starts_line: bool)
    ensures
        lexer::word_tokens(
            seq!['\\', '(', x, y],
            starts_line,
        ) == seq![
            lexer::token(
                TroffToken::Backslash,
                seq!['\\'],
                starts_line,
            ),
            lexer::token(
                TroffToken::EscapeCommand,
                seq!['('],
                false,
            ),
            lexer::token(
                TroffToken::TextWord,
                seq![x, y],
                false,
            ),
        ],
{
    let word = seq!['\\', '(', x, y];
    reveal_with_fuel(lexer::text_tokens, 3);
    reveal_with_fuel(lexer::escape_tokens, 3);
    assert(word[0] == '\\' && word[1] == '(');
    assert(!crate::text::is_whitespace('\\'));
    assert(word.subrange(2, 4) =~= seq![x, y]);
    assert(lexer::word_tokens(word, starts_line) =~= seq![
        lexer::token(
            TroffToken::Backslash,
            seq!['\\'],
            starts_line,
        ),
        lexer::token(
            TroffToken::EscapeCommand,
            seq!['('],
            false,
        ),
        lexer::token(TroffToken::TextWord, seq![x, y], false),
    ]);
}

/// `.TP` without an argument gives the body of its paragraph the
/// indentation that was stored last, or the default if none was; the tag is
/// read without indentation either way. The macro has no argument where it
/// is the last token, or the next token starts a line and is not white
/// space.
pub proof fn lemma_tp_without_argument(s: ParserView, t: Tokens)
    requires
        s.cursor < t.len(),
        s.cursor + 1 < t.len() ==> t[(s.cursor + 1) as int].starts_line && t[(s.cursor
            + 1) as int].class != TroffToken::Whitespace,
    ensures
        s.tp_indent(t) == s.writer.stored_or_default_indent(),
        s.tp_tag(t).writer.indent == 0,
{
    reveal(ParserView::tp_tag);
    let at = s.consumed(t);
    semantics::lemma_spaces_skipped(at, t);
    assert(at.spaces_skipped(t) == at);
    lemma_tp_tag(s, t);
}

/// The tag of `.TP` is read without indentation, with or without an
/// argument.
pub proof fn lemma_tp_tag(s: ParserView, t: Tokens)
    requires
        s.cursor < t.len(),
    ensures
        s.tp_tag(t).writer.indent == 0,
        s.tp_tag(t).writer.margin == s.writer.margin,
{
    reveal(ParserView::tp_tag);
    let at = s.consumed(t);
    semantics::lemma_macro_arg(at, t);
    let flush = at.macro_arg(t).state.with_indent(0);
    lemma_single_linebreak_frame(flush);
    semantics::lemma_spaces_skipped(flush.with_single_linebreak(), t);
}

/// The body of `.TP` is read with the indentation of the paragraph, and that
/// indentation is the stored one from then on: the next `.TP` without an
/// argument takes it.
pub proof fn lemma_tp_body(tagged: ParserView, indent: nat)
    ensures
        tagged.tp_body(indent).writer.indent == indent,
        tagged.tp_body(indent).writer.stored_indent == Some(indent),
        tagged.tp_body(indent).writer.stored_or_default_indent() == indent,
        tagged.tp_body(indent).cursor == tagged.cursor,
{
    lemma_single_linebreak_frame(tagged.with_indent(indent).with_indent_stored());
}

/// `.RS` keeps the margin the sum of what was pushed.
pub proof fn lemma_rs_keeps_margin(s: ParserView, t: Tokens)
    requires
        s.writer.well_formed(),
        s.cursor <= t.len(),
        s.parse_rs(t) is Ok,
    ensures
        s.parse_rs(t)->Ok_0.writer.well_formed(),
{
    reveal(ParserView::parse_rs);
    let arg = s.consumed(t).macro_arg(t);
    semantics::lemma_macro_arg(s.consumed(t), t);
    let size = match arg.number(t) {
        Some(size) => size as nat,
        None => arg.state.writer.stored_or_default_indent(),
    };
    layout_laws::lemma_margin_pushed(arg.state.writer, size);
    let pushed = arg.state.with_writer(arg.state.writer.with_margin_pushed(size)).with_indent(0);
    lemma_single_linebreak_frame(pushed);
}

/// `.RE` keeps the margin the sum of what was pushed and not popped, and
/// fails exactly if it is to undo more increases than were made.
pub proof fn lemma_re_keeps_margin(s: ParserView, t: Tokens)
    requires
        s.writer.well_formed(),
        s.cursor <= t.len(),
    ensures
        s.parse_re(t) is Ok ==> s.parse_re(t)->Ok_0.writer.well_formed(),
        s.parse_re(t) is Err <==> s.parse_re(t) == Err::<ParserView, ParseError>(
            ParseError::MarginUnderflow,
        ),
        s.parse_re(t) is Err <==> (match s.consumed(t).macro_arg(t).number(t) {
            Some(count) => count as nat,
            None => 1,
        }) > s.writer.margin_stack.len(),
{
    reveal(ParserView::parse_re);
    let arg = s.consumed(t).macro_arg(t);
    semantics::lemma_macro_arg(s.consumed(t), t);
    let count = match arg.number(t) {
        Some(count) => count as nat,
        None => 1,
    };
    if count <= arg.state.writer.margin_stack.len() {
        layout_laws::lemma_margins_popped(arg.state.writer, count);
    }
}

/// A line break changes the output and the lengths of the current line, and
/// nothing else; it keeps the layout engine well formed.
pub proof fn lemma_single_linebreak_frame(s: ParserView)
    ensures
        s.with_single_linebreak() == s.with_writer(
            WriterView {
                output: s.with_single_linebreak().writer.output,
                line: s.with_single_linebreak().writer.line,
                ..s.writer
            },
        ),
        s.writer.well_formed() ==> s.with_single_linebreak().writer.well_formed(),
{
    layout_laws::lemma_linebreak_frame(s.writer);
}

} // verus!
