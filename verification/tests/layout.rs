use explain::man_parse::term_writer::font_style::{FontStyle, FontStyleState};
use explain::man_parse::term_writer::line_info::{LengthRule, LineInfo};
use explain::man_parse::term_writer::troff_term_writer::{line_length, TroffTermWriter};
use explain::text_format::term_writer::TermWriter;
use explain::text_format::text_format::TextFormat;

fn writer_of_width_72() -> TroffTermWriter {
    TroffTermWriter::for_dimensions(Some((80, 24)))
}

#[test]
fn styles_wrap_text_in_escape_sequences() {
    assert_eq!("x".bold(), "\x1b[1mx\x1b[0m");
    assert_eq!("x".italic(), "\x1b[4mx\x1b[0m");
    assert_eq!("x".underlined(), "\x1b[4mx\x1b[0m");
    assert_eq!("".bold(), "\x1b[1m\x1b[0m");
}

#[test]
fn highest_style_applies() {
    let mut style = FontStyleState::default();
    assert_eq!(style.stylize_text("x"), None);

    style.set_fontstyle_value(FontStyle::Underlined, true);
    assert_eq!(style.stylize_text("x"), Some("\x1b[4mx\x1b[0m".to_owned()));

    style.set_fontstyle_value(FontStyle::Italic, true);
    assert_eq!(style.stylize_text("x"), Some("\x1b[4mx\x1b[0m".to_owned()));

    style.set_fontstyle_value(FontStyle::Bold, true);
    assert_eq!(style.stylize_text("x"), Some("\x1b[1mx\x1b[0m".to_owned()));

    style.set_fontstyle_value(FontStyle::Bold, false);
    assert_eq!(style.stylize_text("x"), Some("\x1b[4mx\x1b[0m".to_owned()));

    style.set_fontstyle_value(FontStyle::Regular, true);
    assert_eq!(style.stylize_text("x"), None);
}

#[test]
fn regular_switches_every_style_off_either_way() {
    let mut style = FontStyleState::default();
    style.set_fontstyle_value(FontStyle::Bold, true);
    style.set_fontstyle_value(FontStyle::Regular, false);

    assert_eq!(style.stylize_text("x"), None);
}

#[test]
fn single_space_is_never_styled() {
    let mut style = FontStyleState::default();
    style.set_fontstyle_value(FontStyle::Bold, true);

    assert_eq!(style.stylize_text(" "), None);
    assert_eq!(style.stylize_text("  "), Some("\x1b[1m  \x1b[0m".to_owned()));
}

#[test]
fn line_info_counts_white_space_apart() {
    let mut line = LineInfo::default();
    assert!(line.is_whitespace_only());
    assert_eq!(line.len(LengthRule::Everything), 0);

    line.increase_len("   ");
    assert!(line.is_whitespace_only());
    line.increase_len("");
    line.increase_len("Nikšić");
    line.increase_len("\t");

    assert!(!line.is_whitespace_only());
    assert_eq!(line.len(LengthRule::Whitespace), 4);
    assert_eq!(line.len(LengthRule::NonWhitespace), 6);
    assert_eq!(line.len(LengthRule::Everything), 10);

    line.reset();
    assert!(line.is_whitespace_only());
    assert_eq!(line.len(LengthRule::Everything), 0);
}

#[test]
fn line_length_is_the_width_less_the_right_margin() {
    assert_eq!(line_length(None), 72);
    assert_eq!(line_length(Some((80, 24))), 72);
    assert_eq!(line_length(Some((81, 24))), 73);
    assert_eq!(line_length(Some((200, 1))), 192);
    assert_eq!(line_length(Some((10, 24))), 72);
    assert_eq!(line_length(Some((0, 0))), 72);
}

#[test]
fn new_writer_is_empty_and_wide_enough() {
    let writer = TroffTermWriter::new();

    assert!(writer.max_line_length() >= 72);
    assert_eq!(writer.buf(), "");
    assert_eq!(writer.indent(), 0);
    assert_eq!(writer.margin(), 0);
    assert_eq!(writer.margin_depth(), 0);
    assert_eq!(writer.stored_indent(), None);
    assert_eq!(writer.stored_or_default_indent(), 7);
    assert!(!writer.is_nofill());
    assert!(writer.is_curline_whitespace_only());
}

#[test]
fn margin_is_the_sum_of_what_was_pushed() {
    let mut writer = writer_of_width_72();

    writer.increase_margin(4);
    writer.increase_margin(3);
    writer.increase_margin(10);
    assert_eq!(writer.margin(), 17);
    assert_eq!(writer.margin_depth(), 3);

    writer.pop_margin();
    assert_eq!(writer.margin(), 7);
    writer.pop_margin();
    assert_eq!(writer.margin(), 4);
    writer.increase_margin(1);
    assert_eq!(writer.margin(), 5);
    writer.pop_margin();
    writer.pop_margin();
    assert_eq!(writer.margin(), 0);
    assert_eq!(writer.margin_depth(), 0);
}

#[test]
fn default_margin_replaces_what_was_pushed() {
    let mut writer = writer_of_width_72();
    writer.increase_margin(4);
    writer.increase_margin(3);

    writer.default_margin();
    assert_eq!(writer.margin(), 7);
    assert_eq!(writer.margin_depth(), 1);

    writer.zero_margin();
    assert_eq!(writer.margin(), 0);
    assert_eq!(writer.margin_depth(), 0);
}

#[test]
fn indent_is_set_stored_and_cleared() {
    let mut writer = writer_of_width_72();

    writer.set_indent(5);
    assert_eq!(writer.indent(), 5);
    assert_eq!(writer.stored_or_default_indent(), 7);
    writer.store_indent();
    assert_eq!(writer.stored_indent(), Some(5));
    assert_eq!(writer.stored_or_default_indent(), 5);
    writer.zero_indent();
    assert_eq!(writer.indent(), 0);
    assert_eq!(writer.stored_or_default_indent(), 5);
    writer.clear_stored_indent();
    assert_eq!(writer.stored_indent(), None);
    writer.default_indent();
    assert_eq!(writer.indent(), 7);
}

#[test]
fn no_fill_mode_is_switched() {
    let mut writer = writer_of_width_72();

    writer.enable_nofill();
    assert!(writer.is_nofill());
    writer.disable_nofill();
    assert!(!writer.is_nofill());
}

#[test]
fn line_break_pads_to_margin_and_indent() {
    let mut writer = writer_of_width_72();
    writer.increase_margin(3);
    writer.set_indent(2);

    writer.add_to_buf("a");
    writer.add_linebreak();
    writer.add_to_buf("b");
    writer.add_to_buf("\n");
    writer.add_to_buf("c");

    assert_eq!(writer.buf(), "a\n     b\n     c");
}

#[test]
fn padding_only_ever_adds_white_space() {
    let mut writer = writer_of_width_72();
    writer.set_indent(4);
    writer.set_whitespace_to_startpos();
    assert_eq!(writer.buf(), "    ");

    writer.set_indent(6);
    writer.set_whitespace_to_startpos();
    assert_eq!(writer.buf(), "      ");

    writer.set_indent(2);
    writer.set_whitespace_to_startpos();
    assert_eq!(writer.buf(), "      ");
    assert!(writer.is_curline_whitespace_only());
}

#[test]
fn text_that_fits_exactly_stays_on_its_line() {
    let mut writer = writer_of_width_72();

    writer.add_to_buf(&"x".repeat(71));
    writer.add_to_buf("y");
    assert_eq!(writer.buf(), format!("{}y", "x".repeat(71)));

    writer.add_to_buf("z");
    assert_eq!(writer.buf(), format!("{}y\nz", "x".repeat(71)));
}

#[test]
fn space_that_does_not_fit_is_dropped() {
    let mut writer = writer_of_width_72();

    writer.add_to_buf(&"x".repeat(72));
    writer.add_to_buf(" ");
    writer.add_to_buf("y");

    assert_eq!(writer.buf(), format!("{}\ny", "x".repeat(72)));
}

#[test]
fn word_longer_than_the_line_gets_a_line_of_its_own() {
    let mut writer = writer_of_width_72();

    writer.add_to_buf("a");
    writer.add_to_buf(&"x".repeat(100));
    writer.add_to_buf("b");

    assert_eq!(writer.buf(), format!("a\n{}\nb", "x".repeat(100)));
}

#[test]
fn width_counts_characters_not_bytes_or_style_sequences() {
    let mut writer = writer_of_width_72();
    writer.set_fontstyle(FontStyle::Bold);

    writer.add_to_buf(&"š".repeat(72));
    writer.unset_fontstyle(FontStyle::Bold);
    assert_eq!(writer.buf(), format!("\x1b[1m{}\x1b[0m", "š".repeat(72)));

    writer.add_to_buf("!");
    assert_eq!(writer.buf(), format!("\x1b[1m{}\x1b[0m\n!", "š".repeat(72)));
}

#[test]
fn styles_of_the_writer_apply_to_text() {
    let mut writer = writer_of_width_72();

    writer.set_fontstyle(FontStyle::Italic);
    writer.add_to_buf("a");
    writer.add_to_buf(" ");
    writer.set_fontstyle(FontStyle::Bold);
    writer.add_to_buf("b");
    writer.reset_font_properties();
    writer.add_to_buf("c");

    assert_eq!(writer.buf(), "\x1b[4ma\x1b[0m \x1b[1mb\x1b[0mc");
}

#[test]
fn debug_mode_draws_the_margin() {
    let mut writer = writer_of_width_72();
    writer.enable_debug();
    writer.increase_margin(2);
    writer.set_indent(1);
    writer.add_linebreak();
    writer.disable_debug();
    writer.add_linebreak();

    assert_eq!(writer.buf(), "\nMMI\n   ");
}

#[test]
fn plain_writer_collects_text() {
    let mut writer = TermWriter::new();
    assert_eq!(writer.buf(), "");

    writer.add_to_buf("one");
    writer.add_to_buf(" two");

    assert_eq!(writer.buf(), "one two");
}
