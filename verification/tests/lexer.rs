use explain::man_parse::troff_token_generator::{TroffToken, TroffTokenGenerator};
use explain::simple_parser::token::Token;
use explain::simple_parser::token_generator::TokenGenerator;
use explain::simple_parser::tokenizer::tokenize;

fn tok(class: TroffToken, value: &str, starts_line: bool) -> Token<TroffToken> {
    Token::new(class, value.to_owned(), starts_line)
}

#[test]
fn lexing_gives_the_same_tokens_each_time() {
    let source = ".SH NAME\nfoo \\- \\fBbar\\fR \"baz\"\n\n.TP 4\n";

    let first = tokenize(source, &TroffTokenGenerator {});
    let second = tokenize(source, &TroffTokenGenerator {});

    assert_eq!(first, second);
    assert!(!first.is_empty());
}

#[test]
fn macro_line_gives_one_macro_token() {
    let tokens = tokenize(".TP\\fB\"x 4 .B\n", &TroffTokenGenerator {});

    assert_eq!(
        tokens,
        vec![
            tok(TroffToken::Macro, ".TP\\fB\"x", true),
            tok(TroffToken::Whitespace, " ", false),
            tok(TroffToken::TextWord, "4", false),
            tok(TroffToken::Whitespace, " ", false),
            tok(TroffToken::TextWord, ".B", false),
        ]
    );
}

#[test]
fn dot_inside_a_line_is_no_macro() {
    let tokens = tokenize(" .SH\n", &TroffTokenGenerator {});

    assert_eq!(
        tokens,
        vec![
            tok(TroffToken::Whitespace, " ", true),
            tok(TroffToken::TextWord, ".SH", false),
        ]
    );
}

#[test]
fn white_space_tokens_hold_one_repeated_character() {
    let tokens = tokenize("a \t\t  \u{a0}b", &TroffTokenGenerator {});

    assert_eq!(
        tokens,
        vec![
            tok(TroffToken::TextWord, "a", true),
            tok(TroffToken::Whitespace, " ", false),
            tok(TroffToken::Whitespace, "\t\t", false),
            tok(TroffToken::Whitespace, "  ", false),
            tok(TroffToken::Whitespace, "\u{a0}", false),
            tok(TroffToken::TextWord, "b", false),
        ]
    );
    for token in tokens {
        if token.class == TroffToken::Whitespace {
            let first = token.value.chars().next().unwrap();
            assert!(first.is_whitespace());
            assert!(token.value.chars().all(|c| c == first));
        }
    }
}

#[test]
fn blank_line_gives_an_empty_line_token() {
    let tokens = tokenize("a\n\nb\n", &TroffTokenGenerator {});

    assert_eq!(
        tokens,
        vec![
            tok(TroffToken::TextWord, "a", true),
            tok(TroffToken::EmptyLine, "", true),
            tok(TroffToken::TextWord, "b", true),
        ]
    );
}

#[test]
fn lines_may_end_with_carriage_return_and_line_feed() {
    let tokens = tokenize("a\r\n\r\nb\rc\r\nd\r", &TroffTokenGenerator {});

    assert_eq!(
        tokens,
        vec![
            tok(TroffToken::TextWord, "a", true),
            tok(TroffToken::EmptyLine, "", true),
            tok(TroffToken::TextWord, "b", true),
            tok(TroffToken::Whitespace, "\r", false),
            tok(TroffToken::TextWord, "c", false),
            tok(TroffToken::TextWord, "d", true),
            tok(TroffToken::Whitespace, "\r", false),
        ]
    );
}

#[test]
fn empty_text_gives_no_tokens() {
    assert_eq!(tokenize("", &TroffTokenGenerator {}), vec![]);
    assert_eq!(
        tokenize("\n", &TroffTokenGenerator {}),
        vec![tok(TroffToken::EmptyLine, "", true)]
    );
}

#[test]
fn comment_lines_give_no_tokens() {
    let source = "\\\" one\n.\\\" two\n\\# three\n.\na \\\" kept\n. b\n";

    assert_eq!(
        tokenize(source, &TroffTokenGenerator {}),
        vec![
            tok(TroffToken::TextWord, "a", true),
            tok(TroffToken::Whitespace, " ", false),
            tok(TroffToken::Backslash, "\\", false),
            tok(TroffToken::EscapeCommand, "\"", false),
            tok(TroffToken::Whitespace, " ", false),
            tok(TroffToken::TextWord, "kept", false),
        ]
    );
}

#[test]
fn comments_are_told_by_their_first_word() {
    let generator = TroffTokenGenerator {};

    assert!(generator.is_comment("\\\""));
    assert!(generator.is_comment("\\\"text"));
    assert!(generator.is_comment(".\\\""));
    assert!(generator.is_comment("\\#"));
    assert!(generator.is_comment("."));
    assert!(!generator.is_comment(".."));
    assert!(!generator.is_comment(".SH"));
    assert!(!generator.is_comment("\\"));
    assert!(!generator.is_comment("\""));
    assert!(!generator.is_comment(""));
    assert!(!generator.is_comment("a\\\""));
}

#[test]
fn empty_word_is_an_empty_line_only_at_line_start() {
    let generator = TroffTokenGenerator {};

    assert_eq!(
        generator.generate("", true),
        vec![tok(TroffToken::EmptyLine, "", true)]
    );
    assert_eq!(generator.generate("", false), vec![]);
}

#[test]
fn white_space_word_is_one_token() {
    let generator = TroffTokenGenerator {};

    assert_eq!(
        generator.generate("   ", true),
        vec![tok(TroffToken::Whitespace, "   ", true)]
    );
}

#[test]
fn special_character_takes_two_characters() {
    let generator = TroffTokenGenerator {};

    assert_eq!(
        generator.generate("\\(cqfoo", false),
        vec![
            tok(TroffToken::Backslash, "\\", false),
            tok(TroffToken::EscapeCommand, "(", false),
            tok(TroffToken::TextWord, "cq", false),
            tok(TroffToken::TextWord, "foo", false),
        ]
    );
    assert_eq!(
        generator.generate("\\(c", false),
        vec![
            tok(TroffToken::Backslash, "\\", false),
            tok(TroffToken::EscapeCommand, "(", false),
            tok(TroffToken::TextWord, "c", false),
        ]
    );
    assert_eq!(
        generator.generate("\\(", false),
        vec![
            tok(TroffToken::Backslash, "\\", false),
            tok(TroffToken::EscapeCommand, "(", false),
            tok(TroffToken::TextWord, "", false),
        ]
    );
}

#[test]
fn arguments_take_each_of_their_forms() {
    let generator = TroffTokenGenerator {};

    assert_eq!(
        generator.generate("\\m(rdx", true),
        vec![
            tok(TroffToken::Backslash, "\\", true),
            tok(TroffToken::EscapeCommand, "m", false),
            tok(TroffToken::ArgOpenParen, "(", false),
            tok(TroffToken::CommandArg, "rd", false),
            tok(TroffToken::TextWord, "x", false),
        ]
    );
    assert_eq!(
        generator.generate("\\m[red]x", false),
        vec![
            tok(TroffToken::Backslash, "\\", false),
            tok(TroffToken::EscapeCommand, "m", false),
            tok(TroffToken::ArgOpenBracket, "[", false),
            tok(TroffToken::CommandArg, "red", false),
            tok(TroffToken::ArgCloseBracket, "]", false),
            tok(TroffToken::TextWord, "x", false),
        ]
    );
    assert_eq!(
        generator.generate("\\s+1x", false),
        vec![
            tok(TroffToken::Backslash, "\\", false),
            tok(TroffToken::EscapeCommand, "s", false),
            tok(TroffToken::CommandArg, "+1", false),
            tok(TroffToken::TextWord, "x", false),
        ]
    );
    assert_eq!(
        generator.generate("\\fBx", false),
        vec![
            tok(TroffToken::Backslash, "\\", false),
            tok(TroffToken::EscapeCommand, "f", false),
            tok(TroffToken::CommandArg, "B", false),
            tok(TroffToken::TextWord, "x", false),
        ]
    );
}

#[test]
fn arguments_that_the_word_cuts_short_end_with_the_word() {
    let generator = TroffTokenGenerator {};

    assert_eq!(
        generator.generate("\\f", false),
        vec![
            tok(TroffToken::Backslash, "\\", false),
            tok(TroffToken::EscapeCommand, "f", false),
        ]
    );
    assert_eq!(
        generator.generate("\\m(r", false),
        vec![
            tok(TroffToken::Backslash, "\\", false),
            tok(TroffToken::EscapeCommand, "m", false),
            tok(TroffToken::ArgOpenParen, "(", false),
            tok(TroffToken::CommandArg, "r", false),
        ]
    );
    assert_eq!(
        generator.generate("\\s-", false),
        vec![
            tok(TroffToken::Backslash, "\\", false),
            tok(TroffToken::EscapeCommand, "s", false),
            tok(TroffToken::CommandArg, "-", false),
        ]
    );
    assert_eq!(
        generator.generate("\\m[red", false),
        vec![
            tok(TroffToken::Backslash, "\\", false),
            tok(TroffToken::EscapeCommand, "m", false),
            tok(TroffToken::ArgOpenBracket, "[", false),
            tok(TroffToken::CommandArg, "red", false),
            tok(TroffToken::ArgCloseBracket, "]", false),
        ]
    );
}

#[test]
fn escaped_special_characters_are_commands() {
    let generator = TroffTokenGenerator {};

    assert_eq!(
        generator.generate("\\\\\\\"x", false),
        vec![
            tok(TroffToken::Backslash, "\\", false),
            tok(TroffToken::EscapeCommand, "\\", false),
            tok(TroffToken::Backslash, "\\", false),
            tok(TroffToken::EscapeCommand, "\"", false),
            tok(TroffToken::TextWord, "x", false),
        ]
    );
}

#[test]
fn wide_characters_are_kept_whole() {
    let generator = TroffTokenGenerator {};

    assert_eq!(
        generator.generate("Nik\\(cqšić\"ž", true),
        vec![
            tok(TroffToken::TextWord, "Nik", true),
            tok(TroffToken::Backslash, "\\", false),
            tok(TroffToken::EscapeCommand, "(", false),
            tok(TroffToken::TextWord, "cq", false),
            tok(TroffToken::TextWord, "šić", false),
            tok(TroffToken::DoubleQuote, "\"", false),
            tok(TroffToken::TextWord, "ž", false),
        ]
    );
}
