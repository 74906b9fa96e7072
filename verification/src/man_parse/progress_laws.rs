//! Two laws of every step of the interpreter: it moves the cursor on, so
//! that no token is looked at twice, and it keeps the layout engine well
//! formed, so that the margin stays the sum of what was pushed.
use crate::man_parse::term_writer::font_style::FontStyle;
use crate::man_parse::term_writer::layout_laws::{
    lemma_linebreak_frame, lemma_margin_pushed, lemma_margins_popped, lemma_text_frame,
};
use crate::man_parse::term_writer::troff_term_writer::DEFAULT_LEFT_MARGIN;
use crate::man_parse::troff_semantics as semantics;
use crate::man_parse::troff_semantics::{
    lemma_consumed_to, lemma_ip_body_moves_on, lemma_line_rest_end, lemma_macro_arg,
    lemma_quoted_group, lemma_spaces_skipped, MacroKind, ParseError, ParserView, Tokens,
};
use crate::man_parse::troff_token_generator::TroffToken;
use vstd::prelude::*;

verus! {

/// Whether `next` stands where `s` stands, with a layout engine that is well
/// formed if that of `s` is.
pub open spec fn holds_place(s: ParserView, next: ParserView) -> bool {
    &&& next.cursor == s.cursor
    &&& s.writer.well_formed() ==> next.writer.well_formed()
}

/// Whether `next` stands where `s` stands or further on in the stream, with a
/// layout engine that is well formed if that of `s` is.
pub open spec fn goes_on(s: ParserView, t: Tokens, next: ParserView) -> bool {
    &&& s.cursor <= next.cursor <= t.len()
    &&& s.writer.well_formed() ==> next.writer.well_formed()
}

/// Whether `next` stands further on in the stream than `s`, with a layout
/// engine that is well formed if that of `s` is.
pub open spec fn steps_on(s: ParserView, t: Tokens, next: ParserView) -> bool {
    &&& s.cursor < next.cursor <= t.len()
    &&& s.writer.well_formed() ==> next.writer.well_formed()
}

/// Whether the step from `s` with the given result has moved on, if it
/// succeeded.
pub open spec fn stepped_on(
    s: ParserView,
    t: Tokens,
    result: Result<ParserView, ParseError>,
) -> bool {
    match result {
        Ok(next) => steps_on(s, t, next),
        Err(_) => true,
    }
}

/// Whether the step from `s` with the given result has not moved back, if
/// it succeeded.
pub open spec fn gone_on(
    s: ParserView,
    t: Tokens,
    result: Result<ParserView, ParseError>,
) -> bool {
    match result {
        Ok(next) => goes_on(s, t, next),
        Err(_) => true,
    }
}

/// Output holds the place.
pub proof fn lemma_output_holds_place(s: ParserView, text: Seq<char>)
    ensures
        holds_place(s, s.with_output(text)),
{
    lemma_text_frame(s.writer, text);
}

/// Line breaks hold the place.
pub proof fn lemma_linebreak_holds_place(s: ParserView)
    ensures
        holds_place(s, s.with_linebreak()),
        holds_place(s, s.with_blank_line()),
        holds_place(s, s.with_single_linebreak()),
{
    lemma_linebreak_frame(s.writer);
    lemma_linebreak_frame(s.with_linebreak().writer);
}

/// Any number of line breaks holds the place.
pub proof fn lemma_linebreaks_hold_place(s: ParserView, count: nat)
    ensures
        holds_place(s, s.with_linebreaks(count)),
    decreases count,
{
    if count > 0 {
        lemma_linebreaks_hold_place(s, (count - 1) as nat);
        lemma_linebreak_holds_place(s.with_linebreaks((count - 1) as nat));
    }
}

/// The output of several tokens holds the place.
pub proof fn lemma_outputs_hold_place(s: ParserView, t: Tokens, from: nat, to: nat)
    ensures
        holds_place(s, s.with_outputs(t, from, to)),
    decreases to,
{
    if from < to && to <= t.len() {
        lemma_outputs_hold_place(s, t, from, (to - 1) as nat);
        lemma_output_holds_place(s.with_outputs(t, from, (to - 1) as nat), t[to - 1].value);
    }
}

/// A macro argument goes on, and steps on where it is not empty.
pub proof fn lemma_macro_arg_goes_on(s: ParserView, t: Tokens)
    requires
        s.cursor <= t.len(),
    ensures
        goes_on(s, t, s.macro_arg(t).state),
        s.macro_arg(t).from < s.macro_arg(t).to ==> steps_on(s, t, s.macro_arg(t).state),
{
    lemma_macro_arg(s, t);
}

/// White space that is skipped, and the rest of a line that is skipped, go
/// on.
pub proof fn lemma_skipping_goes_on(s: ParserView, t: Tokens)
    requires
        s.cursor <= t.len(),
    ensures
        goes_on(s, t, s.spaces_skipped(t)),
        goes_on(s, t, s.line_skipped(t)),
{
    lemma_spaces_skipped(s, t);
    lemma_line_rest_end(t, s.cursor);
    lemma_consumed_to(s, t, semantics::line_rest_end(t, s.cursor));
}

/// The title of a header goes on.
pub proof fn lemma_title_goes_on(s: ParserView, t: Tokens)
    requires
        s.cursor <= t.len(),
    ensures
        goes_on(s, t, s.title_collected(t).0),
    decreases t.len() - s.cursor,
{
    lemma_macro_arg_goes_on(s, t);
    let arg = s.macro_arg(t);
    if arg.from < arg.to {
        lemma_title_goes_on(arg.state, t);
    }
}

/// Plain text, white space and an empty line step on.
pub proof fn lemma_text_steps_on(s: ParserView, t: Tokens)
    requires
        s.cursor < t.len(),
    ensures
        steps_on(s, t, s.parse_textword(t)),
        steps_on(s, t, s.parse_whitespace(t)),
        steps_on(s, t, s.parse_empty_line(t)),
        steps_on(s, t, s.consumed(t)),
{
    lemma_output_holds_place(s, t[s.cursor as int].value);
    lemma_linebreak_holds_place(s.consumed(t));
}

/// `.PP`, `.PD`, `.sp`, `.br`, `.nf`, `.fi` and `.if` step on.
pub proof fn lemma_plain_macros_step_on(s: ParserView, t: Tokens)
    requires
        s.cursor < t.len(),
    ensures
        steps_on(s, t, s.parse_p(t)),
        steps_on(s, t, s.parse_pd(t)),
        steps_on(s, t, s.parse_sp(t)),
        steps_on(s, t, s.parse_br(t)),
        steps_on(s, t, s.parse_nf(t)),
        steps_on(s, t, s.parse_fi(t)),
        steps_on(s, t, s.parse_if(t)),
        steps_on(s, t, s.parse_unknown(t)),
{
    reveal(ParserView::parse_p);
    reveal(ParserView::parse_pd);
    reveal(ParserView::parse_sp);
    reveal(ParserView::parse_unknown);
    let at = s.consumed(t);
    lemma_linebreak_holds_place(at.with_indent(0).with_plain_style());
    lemma_macro_arg_goes_on(at, t);
    let arg = at.macro_arg(t);
    let count = if arg.from < arg.to && arg.from < t.len() {
        semantics::sp_count(t[arg.from as int].value)
    } else {
        2
    };
    lemma_linebreaks_hold_place(arg.state, count);
    lemma_linebreak_holds_place(at);
    lemma_skipping_goes_on(at, t);
}

/// `.SS` steps on.
pub proof fn lemma_ss_steps_on(s: ParserView, t: Tokens)
    requires
        s.cursor < t.len(),
    ensures
        steps_on(s, t, s.parse_ss(t)),
{
    reveal(ParserView::parse_ss);
    let at = s.consumed(t);
    lemma_linebreak_holds_place(at);
    lemma_macro_arg_goes_on(at.with_blank_line(), t);
    let arg = at.with_blank_line().macro_arg(t);
    lemma_outputs_hold_place(arg.state.with_style(FontStyle::Bold, true), t, arg.from, arg.to);
}

/// The title of a header holds the place.
pub proof fn lemma_header_holds_place(s: ParserView, title: Seq<char>)
    ensures
        holds_place(s, s.with_header(title)),
{
    let flush = s.with_writer(s.writer.with_zero_margin()).with_indent(0);
    assert(s.writer.well_formed() ==> flush.writer.well_formed());
    lemma_linebreak_holds_place(flush);
    let spaced = if flush.writer.line.other != 0 {
        flush.with_blank_line()
    } else {
        flush.with_linebreak()
    };
    lemma_output_holds_place(spaced.with_style(FontStyle::Bold, true), title);
    let titled = spaced.with_style(FontStyle::Bold, true).with_output(title).with_plain_style();
    if titled.writer.well_formed() {
        lemma_margin_pushed(
            titled.writer.with_zero_margin(),
            DEFAULT_LEFT_MARGIN as nat,
        );
    }
    let left = titled.with_writer(titled.writer.with_default_margin()).with_indent(0);
    assert(titled.writer.well_formed() ==> left.writer.well_formed());
    lemma_linebreak_holds_place(left);
}

/// `.SH` steps on.
pub proof fn lemma_sh_steps_on(s: ParserView, t: Tokens)
    requires
        s.cursor < t.len(),
    ensures
        steps_on(s, t, s.parse_sh(t)),
{
    reveal(ParserView::parse_sh);
    let (at, title) = s.consumed(t).title_collected(t);
    lemma_title_goes_on(s.consumed(t), t);
    lemma_header_holds_place(at, title);
}

/// `.RS` and `.RE` step on.
pub proof fn lemma_margin_macros_step_on(s: ParserView, t: Tokens)
    requires
        s.cursor < t.len(),
    ensures
        stepped_on(s, t, s.parse_rs(t)),
        stepped_on(s, t, s.parse_re(t)),
{
    reveal(ParserView::parse_rs);
    reveal(ParserView::parse_re);
    let at = s.consumed(t);
    lemma_macro_arg_goes_on(at, t);
    let arg = at.macro_arg(t);
    let size = match arg.number(t) {
        Some(size) => size as nat,
        None => arg.state.writer.stored_or_default_indent(),
    };
    if arg.state.writer.well_formed() {
        lemma_margin_pushed(arg.state.writer, size);
    }
    lemma_linebreak_holds_place(
        arg.state.with_writer(arg.state.writer.with_margin_pushed(size)).with_indent(0),
    );
    let count = match arg.number(t) {
        Some(count) => count as nat,
        None => 1,
    };
    if count <= arg.state.writer.margin_stack.len() && arg.state.writer.well_formed() {
        lemma_margins_popped(arg.state.writer, count);
    }
}

/// The name of a special character steps on.
pub proof fn lemma_special_character_steps_on(s: ParserView, t: Tokens)
    requires
        s.cursor < t.len(),
    ensures
        steps_on(s, t, s.parse_special_character(t)),
{
    let at = s.consumed(t);
    if at.cursor < t.len() {
        lemma_output_holds_place(at, seq!['\'']);
    }
}

/// A font steps on.
pub proof fn lemma_font_format_steps_on(s: ParserView, t: Tokens)
    requires
        s.cursor < t.len(),
    ensures
        steps_on(s, t, s.parse_font_format(t)),
{
}

/// A colour steps on.
pub proof fn lemma_color_format_steps_on(s: ParserView, t: Tokens)
    requires
        s.cursor < t.len(),
    ensures
        stepped_on(s, t, s.parse_color_format(t)),
{
    reveal(ParserView::parse_color_format);
}

/// An escape steps on.
pub proof fn lemma_backslash_steps_on(s: ParserView, t: Tokens)
    requires
        s.cursor < t.len(),
    ensures
        stepped_on(s, t, s.parse_backslash(t)),
{
    reveal(ParserView::parse_backslash);
    let at = s.consumed(t);
    assert(steps_on(s, t, at));
    if t[s.cursor as int].value == seq!['\\'] && at.cursor < t.len() {
        let command = t[at.cursor as int];
        if command.value == seq!['-'] {
            lemma_output_holds_place(at.consumed(t), seq!['-']);
        } else if command.value == seq!['('] {
            lemma_special_character_steps_on(at, t);
        } else if command.value == seq!['f'] {
            lemma_font_format_steps_on(at, t);
            lemma_output_holds_place(at.parse_font_format(t), seq![' ']);
        } else if command.value == seq!['m'] {
            lemma_color_format_steps_on(at, t);
        }
    }
}

/// The words of a line step on.
pub proof fn lemma_line_steps_on(s: ParserView, t: Tokens)
    requires
        s.cursor <= t.len(),
    ensures
        gone_on(s, t, s.parse_line(t)),
        s.cursor < t.len() ==> stepped_on(s, t, s.parse_line(t)),
    decreases t.len() - s.cursor, 4int,
{
    if s.cursor < t.len() {
        lemma_word_steps_on(s, t);
        match s.parse_word(t) {
            Ok(next) => {
                if !(next.cursor >= t.len() || t[next.cursor as int].starts_line
                    || !next.moved_on(t, s)) {
                    lemma_line_steps_on(next, t);
                }
            },
            Err(_) => {},
        }
    }
}

/// A word steps on.
pub proof fn lemma_word_steps_on(s: ParserView, t: Tokens)
    requires
        s.cursor < t.len(),
    ensures
        stepped_on(s, t, s.parse_word(t)),
    decreases t.len() - s.cursor, 2int,
{
    lemma_text_steps_on(s, t);
    match t[s.cursor as int].class {
        TroffToken::Macro => {
            lemma_macro_steps_on(s, t);
        },
        TroffToken::Backslash => {
            lemma_backslash_steps_on(s, t);
        },
        _ => {},
    }
}

/// A macro steps on.
pub proof fn lemma_macro_steps_on(s: ParserView, t: Tokens)
    requires
        s.cursor < t.len(),
    ensures
        stepped_on(s, t, s.parse_macro(t)),
    decreases t.len() - s.cursor, 1int,
{
    match semantics::macro_kind(t[s.cursor as int].value) {
        MacroKind::SH => {
            lemma_sh_steps_on(s, t);
        },
        MacroKind::SS => {
            lemma_ss_steps_on(s, t);
        },
        MacroKind::TP => {
            lemma_tp_steps_on(s, t);
        },
        MacroKind::IP => {
            lemma_ip_steps_on(s, t);
        },
        MacroKind::B | MacroKind::I => {
            lemma_styled_lines_step_on(s, t);
        },
        MacroKind::IR | MacroKind::RB | MacroKind::BI => {
            lemma_alternations_step_on(s, t);
        },
        MacroKind::RS | MacroKind::RE => {
            lemma_margin_macros_step_on(s, t);
        },
        _ => {
            lemma_plain_macros_step_on(s, t);
        },
    }
}

/// `.TP` steps on.
pub proof fn lemma_tp_steps_on(s: ParserView, t: Tokens)
    requires
        s.cursor < t.len(),
    ensures
        stepped_on(s, t, s.parse_tp(t)),
    decreases t.len() - s.cursor, 0int,
{
    reveal(ParserView::tp_tag);
    let at = s.consumed(t);
    lemma_macro_arg_goes_on(at, t);
    let flush = at.macro_arg(t).state.with_indent(0);
    lemma_linebreak_holds_place(flush);
    lemma_skipping_goes_on(flush.with_single_linebreak(), t);
    let tag = s.tp_tag(t);
    lemma_line_steps_on(tag, t);
    match tag.parse_line(t) {
        Ok(tagged) => {
            let indented = tagged.with_indent(s.tp_indent(t)).with_indent_stored();
            lemma_linebreak_holds_place(indented);
            let body = tagged.tp_body(s.tp_indent(t));
            if body.moved_on(t, s) {
                lemma_line_steps_on(body, t);
            }
        },
        Err(_) => {},
    }
}

/// The state in which the body of `.IP` is read lies behind the macro.
pub proof fn lemma_ip_body_steps_on(s: ParserView, t: Tokens)
    requires
        s.cursor < t.len(),
    ensures
        steps_on(s, t, s.ip_body(t)),
{
    reveal(ParserView::ip_body);
    lemma_ip_body_moves_on(s, t);
    let flush = s.consumed(t).with_indent(0);
    lemma_linebreak_holds_place(flush);
    let blank = flush.with_blank_line();
    lemma_skipping_goes_on(blank, t);
    lemma_macro_arg_goes_on(blank.spaces_skipped(t), t);
    let marker = blank.spaces_skipped(t).macro_arg(t);
    lemma_outputs_hold_place(marker.state, t, marker.from, marker.to);
    let written = marker.state.with_outputs(t, marker.from, marker.to);
    lemma_skipping_goes_on(written, t);
    lemma_macro_arg_goes_on(written.spaces_skipped(t), t);
    let width = written.spaces_skipped(t).macro_arg(t);
    let indented = if width.from < width.to && width.from < t.len() {
        width.state.with_indent(
            semantics::ip_width(t[width.from as int].value),
        ).with_indent_stored()
    } else {
        width.state.with_indent(width.state.writer.stored_or_default_indent())
    };
    lemma_linebreak_holds_place(indented);
}

/// `.IP` steps on.
pub proof fn lemma_ip_steps_on(s: ParserView, t: Tokens)
    requires
        s.cursor < t.len(),
    ensures
        stepped_on(s, t, s.parse_ip(t)),
    decreases t.len() - s.cursor, 0int,
{
    lemma_ip_body_steps_on(s, t);
    lemma_line_steps_on(s.ip_body(t), t);
}

/// A line in one font style goes on.
pub proof fn lemma_line_with_style_goes_on(s: ParserView, t: Tokens, style: FontStyle)
    requires
        s.cursor <= t.len(),
    ensures
        gone_on(s, t, s.parse_line_with_style(t, style)),
    decreases t.len() - s.cursor, 5int,
{
    let on = s.with_style(style, true);
    lemma_skipping_goes_on(on, t);
    let styled = on.spaces_skipped(t);
    lemma_line_steps_on(styled, t);
    match styled.parse_line(t) {
        Ok(written) => {
            lemma_output_holds_place(written.with_style(style, false), seq![' ']);
        },
        Err(_) => {},
    }
}

/// `.B` and `.I` step on.
pub proof fn lemma_styled_lines_step_on(s: ParserView, t: Tokens)
    requires
        s.cursor < t.len(),
    ensures
        stepped_on(s, t, s.parse_b(t)),
        stepped_on(s, t, s.parse_i(t)),
    decreases t.len() - s.cursor, 0int,
{
    lemma_line_with_style_goes_on(s.consumed(t), t, FontStyle::Bold);
    lemma_line_with_style_goes_on(s.consumed(t), t, FontStyle::Italic);
}

/// A word in a font style steps on.
pub proof fn lemma_styled_word_steps_on(s: ParserView, t: Tokens, style: FontStyle)
    requires
        s.cursor < t.len(),
    ensures
        stepped_on(s, t, s.styled_word(t, style)),
    decreases t.len() - s.cursor, 3int,
{
    let styled = s.with_style(style, true);
    if t[s.cursor as int].class == TroffToken::DoubleQuote {
        lemma_quoted_group(styled, t);
        let group = styled.quoted_group(t);
        lemma_outputs_hold_place(group.state, t, group.from, group.to);
    } else {
        lemma_word_steps_on(styled, t);
    }
}

/// The words of a line in two font styles go on.
pub proof fn lemma_alternation_goes_on(
    s: ParserView,
    t: Tokens,
    first: FontStyle,
    second: FontStyle,
    on_first: bool,
)
    requires
        s.cursor <= t.len(),
    ensures
        gone_on(s, t, s.alternation(t, first, second, on_first)),
    decreases t.len() - s.cursor, 4int,
{
    if s.cursor >= t.len() {
    } else if t[s.cursor as int].starts_line {
        lemma_output_holds_place(s, seq![' ']);
    } else if t[s.cursor as int].class == TroffToken::Whitespace {
        lemma_spaces_skipped(s, t);
        lemma_alternation_goes_on(s.spaces_skipped(t), t, first, second, !on_first);
    } else {
        let style = if on_first {
            first
        } else {
            second
        };
        lemma_styled_word_steps_on(s, t, style);
        match s.styled_word(t, style) {
            Ok(next) => {
                lemma_alternation_goes_on(next, t, first, second, on_first);
            },
            Err(_) => {},
        }
    }
}

/// `.IR`, `.RB` and `.BI` step on.
pub proof fn lemma_alternations_step_on(s: ParserView, t: Tokens)
    requires
        s.cursor < t.len(),
    ensures
        stepped_on(s, t, s.parse_ir(t)),
        stepped_on(s, t, s.parse_rb(t)),
        stepped_on(s, t, s.parse_bi(t)),
    decreases t.len() - s.cursor, 0int,
{
    let at = s.consumed(t);
    lemma_spaces_skipped(at, t);
    let spaced = at.spaces_skipped(t);
    lemma_alternation_goes_on(spaced, t, FontStyle::Italic, FontStyle::Regular, true);
    lemma_alternation_goes_on(spaced, t, FontStyle::Regular, FontStyle::Bold, true);
    lemma_alternation_goes_on(spaced, t, FontStyle::Bold, FontStyle::Italic, true);
}

/// Every step at the top level moves the cursor on and keeps the layout
/// engine well formed.
pub proof fn lemma_token_steps_on(s: ParserView, t: Tokens)
    requires
        s.cursor < t.len(),
    ensures
        stepped_on(s, t, s.parse_token(t)),
{
    lemma_linebreak_holds_place(s);
    let token = t[s.cursor as int];
    let at = if s.writer.nofill && token.starts_line {
        s.with_single_linebreak()
    } else {
        s
    };
    if token.class == TroffToken::Macro {
        lemma_macro_steps_on(at, t);
    } else {
        lemma_line_steps_on(at, t);
        match at.parse_line(t) {
            Ok(written) => {
                lemma_output_holds_place(written, seq![' ']);
            },
            Err(_) => {},
        }
    }
}

/// A token stream that is interpreted without an error is interpreted to
/// its end, and leaves the layout engine well formed: the margin is the sum
/// of the increases that were not undone.
pub proof fn lemma_tokens_are_consumed(s: ParserView, t: Tokens)
    requires
        s.cursor <= t.len(),
        s.writer.well_formed(),
    ensures
        s.parse_tokens(t) matches Ok(end) ==> end.cursor == t.len() && end.writer.well_formed(),
    decreases t.len() - s.cursor,
{
    if s.cursor < t.len() {
        lemma_token_steps_on(s, t);
        match s.parse_token(t) {
            Ok(next) => {
                lemma_tokens_are_consumed(next, t);
            },
            Err(_) => {},
        }
    }
}

/// The law of [`lemma_tokens_are_consumed`] for a whole stream.
pub proof fn lemma_stream_is_consumed(s: ParserView, t: Tokens)
    requires
        s.cursor <= t.len(),
        s.writer.well_formed(),
    ensures
        s.parse(t) matches Ok(end) ==> end.cursor == t.len() && end.writer.well_formed(),
{
    lemma_tokens_are_consumed(s.started(t), t);
}

} // verus!
