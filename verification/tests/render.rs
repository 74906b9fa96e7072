use explain::man_parse::man_section::ManSection;
use explain::man_parse::term_writer::troff_term_writer::TroffTermWriter;
use explain::man_parse::troff_parser::{
    classify_macro, format_token, unknown_macro_note, TroffParser,
};
use explain::man_parse::troff_semantics::{MacroKind, ParseError};
use explain::man_parse::troff_token_generator::{TroffToken, TroffTokenGenerator};
use explain::simple_parser::token::Token;
use explain::simple_parser::tokenizer::tokenize;

const BOLD: &str = "\x1b[1m";
const UNDERLINE: &str = "\x1b[4m";
const CLOSE: &str = "\x1b[0m";

fn parser_of_width_72() -> TroffParser {
    TroffParser::with_writer(TroffTermWriter::for_dimensions(Some((80, 24))))
}

fn render(source: &str) -> String {
    let tokens = tokenize(source, &TroffTokenGenerator {});
    let mut parser = parser_of_width_72();
    assert_eq!(parser.parse(&tokens), Ok(()));
    parser.result_text()
}

fn render_section(source: &str, section: &str) -> String {
    let tokens = tokenize(source, &TroffTokenGenerator {});
    let mut parser = parser_of_width_72().for_section(ManSection::from(section));
    assert_eq!(parser.parse(&tokens), Ok(()));
    parser.result_text()
}

fn bold(text: &str) -> String {
    format!("{}{}{}", BOLD, text, CLOSE)
}

fn underlined(text: &str) -> String {
    format!("{}{}{}", UNDERLINE, text, CLOSE)
}

const PAGE: &str = ".SH NAME
foo - does a thing
.SH SYNOPSIS
foo [OPTIONS]
.SH DESCRIPTION
Full description.
";

#[test]
fn section_is_isolated() {
    let text = render_section(PAGE, "synopsis");

    assert_eq!(text, "foo [OPTIONS] ");
    assert_eq!(text.trim(), "foo [OPTIONS]");
    assert!(!text.contains("does a thing"));
    assert!(!text.contains("Full description."));
}

#[test]
fn section_name_is_matched_whatever_its_case() {
    assert_eq!(render_section(PAGE, "SYNOPSIS"), "foo [OPTIONS] ");
    assert_eq!(render_section(PAGE, "Name"), "foo - does a thing ");
    assert_eq!(render_section(PAGE, "description"), "Full description. ");
}

#[test]
fn section_that_is_not_there_gives_no_text() {
    assert_eq!(render_section(PAGE, "options"), "");
    assert_eq!(render_section(PAGE, "nonsense"), "");
}

#[test]
fn unknown_section_matches_a_header_that_is_unknown() {
    let page = ".SH NAME\nfoo\n.SH BUGS\nmany\n";

    assert_eq!(render_section(page, "nonsense"), "many ");
}

#[test]
fn whole_page_is_rendered_with_headers_in_bold() {
    let text = render(".SH NAME\nfoo - does a thing\n");

    assert_eq!(
        text,
        format!("\n{}\n       foo - does a thing ", bold("NAME"))
    );
}

#[test]
fn header_after_text_is_set_off_by_a_blank_line() {
    let text = render("intro\n.SH NAME\nfoo\n");

    assert_eq!(text, format!("intro \n\n{}\n       foo ", bold("NAME")));
}

#[test]
fn quoted_header_keeps_its_white_space() {
    let text = render(".SH \"SEE ALSO\"\nbar\n");

    assert_eq!(text, format!("\n{}\n       bar ", bold("SEE ALSO")));
}

#[test]
fn quote_that_is_not_closed_ends_with_its_line() {
    let text = render(".SH \"SEE ALSO\nbar\n");

    assert_eq!(text, format!("\n{}\n       bar ", bold("SEE ALSO")));
}

#[test]
fn empty_quoted_argument_ends_the_title() {
    let text = render(".SH A \"\" B\nbar\n");

    assert_eq!(text, format!("\n{}\n        B bar ", bold("A")));
}

#[test]
fn header_arguments_are_joined() {
    let text = render(".SH SEE ALSO\nbar\n");

    assert_eq!(text, format!("\n{}\n       bar ", bold("SEEALSO")));
}

#[test]
fn hyphen_escape_renders_as_hyphen() {
    assert_eq!(render("a\\-b"), "a-b ");
    assert_eq!(render("\\-\\-verbose"), "--verbose ");
}

#[test]
fn cq_renders_as_apostrophe() {
    assert_eq!(render("don\\(cqt"), "don't ");
}

#[test]
fn other_special_characters_render_as_nothing() {
    assert_eq!(render("x\\(emy"), "xy ");
    assert_eq!(render("x\\(buy"), "xy ");
}

#[test]
fn unknown_escapes_are_passed_over() {
    assert_eq!(render("a\\&b"), "ab ");
}

#[test]
fn font_escapes_switch_styles() {
    assert_eq!(
        render("\\fBbold\\fR plain \\fIitalic\\fP end"),
        format!("{} plain {} end ", bold("bold"), underlined("italic"))
    );
}

#[test]
fn font_escape_at_the_end_of_a_line_adds_a_space() {
    assert_eq!(
        render("\\fBone\\fR\ntwo"),
        format!("{}  two ", bold("one"))
    );
}

#[test]
fn font_escape_at_the_end_of_the_text_adds_a_space() {
    assert_eq!(render("one\\fB"), "one  ");
    assert_eq!(render("\\fB"), " ");
}

#[test]
fn colour_escapes_render_as_nothing() {
    assert_eq!(render("a\\m[red]b\\m[]c"), "abc ");
    assert_eq!(render("a\\m(rdb"), "ab ");
    assert_eq!(render("a\\mrb"), "ab ");
    assert_eq!(render("a\\m[red"), "a ");
}

#[test]
fn bold_is_applied_before_italic() {
    assert_eq!(
        render("\\fI\\fBboth\\fR"),
        format!("{}  ", bold("both"))
    );
}

#[test]
fn b_macro_sets_its_line_in_bold() {
    assert_eq!(
        render(".B bold text\nnext"),
        format!("{} {} next ", bold("bold"), bold("text"))
    );
}

#[test]
fn b_macro_alone_sets_the_next_line_in_bold() {
    assert_eq!(
        render(".B\nbold\nnext"),
        format!("{} next ", bold("bold"))
    );
}

#[test]
fn i_macro_sets_its_line_in_italics() {
    assert_eq!(
        render(".I file\nnext"),
        format!("{} next ", underlined("file"))
    );
}

#[test]
fn ir_macro_alternates_italic_and_regular() {
    assert_eq!(
        render(".IR one two three"),
        format!("{}two{}", underlined("one"), underlined("three"))
    );
}

#[test]
fn rb_macro_alternates_regular_and_bold() {
    assert_eq!(
        render(".RB [ option ]\nnext"),
        format!("[{}] next ", bold("option"))
    );
}

#[test]
fn bi_macro_alternates_bold_and_italic() {
    assert_eq!(
        render(".BI \\-f \" file\""),
        format!("{}{}{}", bold("-"), bold("f"), format!("{}{}", " ", underlined("file")))
    );
}

#[test]
fn tp_without_argument_uses_the_default_indent_and_then_the_stored_one() {
    assert_eq!(
        render(".TP\ntag\nbody\n.TP\ntag2\nbody2"),
        "tag\n       body\ntag2\n       body2"
    );
    assert_eq!(
        render(".TP 4\ntag\nbody\n.TP\ntag2\nbody2"),
        "tag\n    body\ntag2\n    body2"
    );
}

#[test]
fn tp_tag_is_flush_left_at_the_margin() {
    assert_eq!(
        render(".SH OPTIONS\n.TP\n.B \\-v\nverbose\n"),
        format!(
            "\n{}\n       {}{} \n              verbose",
            bold("OPTIONS"),
            bold("-"),
            bold("v")
        )
    );
}

#[test]
fn tp_with_an_argument_that_is_no_number_uses_the_stored_indent() {
    assert_eq!(render(".TP x\ntag\nbody"), "tag\n       body");
}

#[test]
fn ip_writes_marker_and_indents_body() {
    assert_eq!(render(".IP x 4\nbody"), "\n\nx\n    body");
    assert_eq!(render(".IP x 2.9\nbody"), "\n\nx\n  body");
    assert_eq!(render(".IP x\nbody"), "\n\nx\n       body");
    assert_eq!(render(".IP x wide\nbody"), "\n\nx\nbody");
}

#[test]
fn ip_stores_its_width_for_tp() {
    assert_eq!(
        render(".IP x 3\nbody\n.TP\ntag\ntext"),
        "\n\nx\n   body\ntag\n   text"
    );
}

#[test]
fn rs_and_re_move_the_margin() {
    assert_eq!(render(".RS 4\nfoo\n.RE\nbar"), "    foo bar ");
    assert_eq!(
        render(".RS 4\n.RS 2\nfoo\n.br\n.RE\nbar\n.br\n.RE\nbaz\n.br\nend"),
        "      foo \n      bar \n    baz \nend "
    );
}

#[test]
fn re_with_a_count_pops_that_many() {
    assert_eq!(
        render(".RS 4\n.RS 2\nfoo\n.RE 2\n.br\nbar"),
        "      foo \nbar "
    );
}

#[test]
fn rs_without_argument_uses_the_stored_indent() {
    assert_eq!(render(".RS\nfoo"), "       foo ");
    assert_eq!(
        render(".TP 3\ntag\nbody\n.RS\nfoo"),
        "tag\n   body\n   foo "
    );
}

#[test]
fn re_without_rs_is_an_error() {
    let tokens = tokenize(".RE\n", &TroffTokenGenerator {});
    let mut parser = parser_of_width_72();

    assert_eq!(parser.parse(&tokens), Err(ParseError::MarginUnderflow));
}

#[test]
fn re_that_pops_too_many_is_an_error() {
    let tokens = tokenize(".RS 2\nfoo\n.RE 2\n", &TroffTokenGenerator {});
    let mut parser = parser_of_width_72();

    assert_eq!(parser.parse(&tokens), Err(ParseError::MarginUnderflow));
}

#[test]
fn rs_beyond_the_greatest_number_is_an_error() {
    let source = format!(".RS {}\n.RS 1\n", usize::MAX);
    let tokens = tokenize(&source, &TroffTokenGenerator {});
    let mut parser = parser_of_width_72();

    assert_eq!(parser.parse(&tokens), Err(ParseError::MarginOverflow));
}

#[test]
fn margin_beyond_the_line_is_cut_to_the_line() {
    let text = render(".RS 100\nfoo");

    assert_eq!(
        text,
        format!("{0}\n{0}foo\n{0}", " ".repeat(72))
    );
}

#[test]
fn backslash_token_without_backslash_is_an_error() {
    let tokens = vec![Token::new(TroffToken::Backslash, "x".to_owned(), true)];
    let mut parser = parser_of_width_72();

    assert_eq!(parser.parse(&tokens), Err(ParseError::UnexpectedToken));
}

#[test]
fn colour_that_is_not_closed_is_an_error() {
    let open = vec![
        Token::new(TroffToken::Backslash, "\\".to_owned(), true),
        Token::new(TroffToken::EscapeCommand, "m".to_owned(), false),
        Token::new(TroffToken::ArgOpenBracket, "[".to_owned(), false),
        Token::new(TroffToken::CommandArg, "red".to_owned(), false),
    ];
    let mut parser = parser_of_width_72();
    assert_eq!(parser.parse(&open), Err(ParseError::UnexpectedEnd));

    let mut wrong = open;
    wrong.push(Token::new(TroffToken::TextWord, "oops".to_owned(), false));
    let mut parser = parser_of_width_72();
    assert_eq!(parser.parse(&wrong), Err(ParseError::UnexpectedToken));
}

#[test]
fn br_breaks_once() {
    assert_eq!(render("a\n.br\n.br\nb"), "a \nb ");
}

#[test]
fn sp_adds_line_breaks_after_text_only() {
    assert_eq!(render("a\n.sp\nb"), "a \n\nb ");
    assert_eq!(render("a\n.sp 3\nb"), "a \n\n\nb ");
    assert_eq!(render("a\n.sp 0\nb"), "a \n\nb ");
    assert_eq!(render("a\n.sp -1\nb"), "a \n\nb ");
    assert_eq!(render("a\n.sp x\nb"), "a \n\nb ");
    assert_eq!(render(".sp 3\nb"), "b ");
}

#[test]
fn pp_begins_a_paragraph() {
    assert_eq!(render("a\n.PP\nb"), "a \n\nb ");
    assert_eq!(render("a\n.LP\nb"), "a \n\nb ");
    assert_eq!(render("a\n.P\nb"), "a \n\nb ");
    assert_eq!(render(".PP\nb"), "b ");
    assert_eq!(
        render("\\fBa\n.PP\nb"),
        format!("{} \n\nb ", bold("a"))
    );
}

#[test]
fn pd_sets_the_indent() {
    assert_eq!(render("a\n.PD 3\n.br\nb"), "a \n   b ");
    assert_eq!(render(".PD 3\n.br\na\n.PD\n.br\nb"), "   a \nb ");
    assert_eq!(render("a\n.PD x\n.br\nb"), "a \nb ");
}

#[test]
fn ss_writes_a_bold_title_after_a_blank_line() {
    assert_eq!(
        render("a\n.SS Sub\nb"),
        format!("a \n\n{}b ", bold("Sub"))
    );
}

#[test]
fn if_line_is_passed_over() {
    assert_eq!(render(".if n .sp\nfoo"), "foo ");
}

#[test]
fn unknown_macro_is_passed_over_alone() {
    assert_eq!(render(".XX arg\nfoo"), " arg foo ");
}

#[test]
fn no_fill_mode_keeps_line_breaks() {
    assert_eq!(
        render(".nf\nline1\nline2\n.fi\ntext\nmore"),
        "line1 \nline2 \ntext more "
    );
}

#[test]
fn white_space_between_words_is_kept() {
    assert_eq!(render("a   b\tc"), "a   b\tc ");
}

#[test]
fn double_quotes_in_text_are_passed_over() {
    assert_eq!(render("say \"hello\" now"), "say hello now ");
}

#[test]
fn fill_mode_joins_lines() {
    assert_eq!(render("one\ntwo\nthree"), "one two three ");
}

#[test]
fn empty_line_gives_a_blank_line() {
    assert_eq!(render("a\n\nb"), "a \n\nb ");
}

#[test]
fn comments_render_as_nothing() {
    assert_eq!(render(".\\\" a comment\nfoo\n\\\" more\n\\# more\n.\nbar"), "foo bar ");
}

#[test]
fn long_line_is_wrapped_at_the_width() {
    let source = "a ".repeat(40);
    let text = render(source.trim_end());
    let lines: Vec<&str> = text.split('\n').collect();

    assert_eq!(lines.len(), 2);
    assert_eq!(lines[0], "a ".repeat(36));
    assert_eq!(lines[0].chars().count(), 72);
    assert_eq!(lines[1], "a ".repeat(4));
}

#[test]
fn wrapped_lines_begin_at_margin_and_indent() {
    let source = format!(".RS 4\n{}", "word ".repeat(15).trim_end());
    let text = render(&source);
    let lines: Vec<&str> = text.split('\n').collect();

    assert_eq!(lines.len(), 2);
    assert_eq!(lines[0], format!("    {}", "word ".repeat(13)));
    assert_eq!(lines[0].chars().count(), 69);
    assert_eq!(lines[1], "    word word ");
    for line in lines {
        assert!(line.chars().count() <= 72);
    }
}

#[test]
fn trace_records_the_tokens_and_unknown_macros() {
    let tokens = tokenize(".XX\nfoo bar\n\nend", &TroffTokenGenerator {});
    let mut parser = parser_of_width_72();
    assert_eq!(parser.parse(&tokens), Ok(()));

    assert_eq!(
        parser.before_section_text(),
        "\n.XX [skipping unknown macro: \".XX\"]\nfoo   bar \n[el] \nend "
    );
}

#[test]
fn trace_is_kept_only_while_the_section_matches() {
    let tokens = tokenize(PAGE, &TroffTokenGenerator {});
    let mut parser = parser_of_width_72().for_section(ManSection::Synopsis);
    assert_eq!(parser.parse(&tokens), Ok(()));

    assert_eq!(
        parser.before_section_text(),
        "  [OPTIONS] \n.SH   DESCRIPTION \nFull "
    );
}

#[test]
fn new_parser_has_no_text() {
    let parser = TroffParser::new();

    assert_eq!(parser.result_text(), "");
    assert_eq!(parser.before_section_text(), "");
}

#[test]
fn debug_mode_draws_margin_and_indent() {
    let tokens = tokenize(".RS 2\n.PD 3\nfoo\n.br\nbar", &TroffTokenGenerator {});
    let mut parser = parser_of_width_72();
    parser.enable_debug();
    assert_eq!(parser.parse(&tokens), Ok(()));

    assert_eq!(parser.result_text(), "  foo \nMMIIIbar ");
}

#[test]
fn empty_stream_renders_nothing() {
    assert_eq!(render(""), "");
    let mut parser = parser_of_width_72().with_args(vec!["-l".to_owned()]);
    assert_eq!(parser.parse(&Vec::new()), Ok(()));
    assert_eq!(parser.result_text(), "");
}

#[test]
fn macros_are_known_by_their_names() {
    let known = [
        (".SH", MacroKind::SH),
        (".SS", MacroKind::SS),
        (".sp", MacroKind::Sp),
        (".br", MacroKind::Br),
        (".nf", MacroKind::Nf),
        (".fi", MacroKind::Fi),
        (".TP", MacroKind::TP),
        (".PD", MacroKind::PD),
        (".B", MacroKind::B),
        (".I", MacroKind::I),
        (".IR", MacroKind::IR),
        (".BI", MacroKind::BI),
        (".IP", MacroKind::IP),
        (".RS", MacroKind::RS),
        (".RB", MacroKind::RB),
        (".RE", MacroKind::RE),
        (".if", MacroKind::If),
        (".PP", MacroKind::P),
        (".LP", MacroKind::P),
        (".P", MacroKind::P),
    ];
    for (name, kind) in known {
        assert_eq!(classify_macro(name), kind);
    }
    for name in [".sh", ".TH", ".", "", "SH", ".SH ", ".BR", ".SP"] {
        assert_eq!(classify_macro(name), MacroKind::Unknown);
    }
}

#[test]
fn tokens_are_traced_by_their_text() {
    let word = Token::new(TroffToken::TextWord, "foo".to_owned(), false);
    let first = Token::new(TroffToken::Macro, ".SH".to_owned(), true);
    let space = Token::new(TroffToken::Whitespace, "\t\t".to_owned(), false);
    let empty = Token::new(TroffToken::EmptyLine, "".to_owned(), true);

    assert_eq!(format_token(&word), "foo ");
    assert_eq!(format_token(&first), "\n.SH ");
    assert_eq!(format_token(&space), "  ");
    assert_eq!(format_token(&empty), "\n[el] ");
}

#[test]
fn unknown_macros_are_noted() {
    assert_eq!(
        unknown_macro_note("\".XX\""),
        "[skipping unknown macro: \".XX\"]"
    );
}

#[test]
fn unknown_macro_names_are_quoted_with_escapes() {
    let tokens = tokenize(".a\"b\\c", &TroffTokenGenerator {});
    let mut parser = parser_of_width_72();
    assert_eq!(parser.parse(&tokens), Ok(()));

    assert_eq!(
        parser.before_section_text(),
        "\n.a\"b\\c [skipping unknown macro: \".a\\\"b\\\\c\"]"
    );
}

#[test]
fn small_page_is_rendered_whole() {
    let source = ".TH FOO 1
.SH NAME
foo \\- frobnicate things
.SH SYNOPSIS
.B foo
.RB [ options ]
.SH OPTIONS
.TP
.B \\-v
Be verbose.
";
    let expected = format!(
        " FOO 1 \n\n{}\n       foo - frobnicate things \n\n{}\n       {} [{}] \n\n{}\n       {}{} \n              Be verbose.",
        bold("NAME"),
        bold("SYNOPSIS"),
        bold("foo"),
        bold("options"),
        bold("OPTIONS"),
        bold("-"),
        bold("v"),
    );

    assert_eq!(render(source), expected);
}
