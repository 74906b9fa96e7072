use explain::man_parse::troff_token_generator::{TroffToken, TroffTokenGenerator};
use explain::simple_parser::token::Token;
use explain::simple_parser::token_generator::TokenGenerator;

#[test]
fn troff_token_generator_test_long_word() {
    let word = "\"MyBigWord\""; // "MyBigWord"
    let generator = TroffTokenGenerator {};

    let actual = generator.generate(word, false);

    let expected = vec![
        Token::new(TroffToken::DoubleQuote, "\"".to_owned(), false),
        Token::new(TroffToken::TextWord, "MyBigWord".to_owned(), false),
        Token::new(TroffToken::DoubleQuote, "\"".to_owned(), false),
    ];

    assert!(
        actual == expected,
        "expected: {:?}\nactual: {:?}",
        expected,
        actual
    );
}

#[test]
fn troff_token_generator_test_short_word() {
    let word = "\"I\""; // "I"
    let generator = TroffTokenGenerator {};

    let actual = generator.generate(word, false);

    let expected = vec![
        Token::new(TroffToken::DoubleQuote, "\"".to_owned(), false),
        Token::new(TroffToken::TextWord, "I".to_owned(), false),
        Token::new(TroffToken::DoubleQuote, "\"".to_owned(), false),
    ];

    assert!(
        actual == expected,
        "expected: {:?}\nactual: {:?}",
        expected,
        actual
    );
}

#[test]
fn troff_token_generator_test_quote_only() {
    let word = "\"";
    let generator = TroffTokenGenerator {};

    let actual = generator.generate(word, false);

    let expected = vec![Token::new(TroffToken::DoubleQuote, "\"".to_owned(), false)];

    assert!(
        actual == expected,
        "expected: {:?}\nactual: {:?}",
        expected,
        actual
    );
}

#[test]
fn troff_token_generator_test_double_quote() {
    let word = "\"\"";
    let generator = TroffTokenGenerator {};

    let actual = generator.generate(word, false);

    let expected = vec![
        Token::new(TroffToken::DoubleQuote, "\"".to_owned(), false),
        Token::new(TroffToken::DoubleQuote, "\"".to_owned(), false),
    ];

    assert!(
        actual == expected,
        "expected: {:?}\nactual: {:?}",
        expected,
        actual
    );
}

#[test]
fn test_empty_square_brackets() {
    let sentence = "Git User Manual\\m[]";
    let generator = TroffTokenGenerator {};

    let mut actual = Vec::new();

    for word in sentence.split_whitespace() {
        let mut result = generator.generate(word, false);
        actual.append(&mut result);
    }

    let expected = vec![
        Token::new(TroffToken::TextWord, "Git".to_owned(), false),
        Token::new(TroffToken::TextWord, "User".to_owned(), false),
        Token::new(TroffToken::TextWord, "Manual".to_owned(), false),
        Token::new(TroffToken::Backslash, "\\".to_owned(), false),
        Token::new(TroffToken::EscapeCommand, "m".to_owned(), false),
        Token::new(TroffToken::ArgOpenBracket, "[".to_owned(), false),
        Token::new(TroffToken::CommandArg, "".to_owned(), false),
        Token::new(TroffToken::ArgCloseBracket, "]".to_owned(), false),
    ];

    assert_eq!(actual, expected);
}

#[test]
fn test_backslash_s() {
    let sentence = "Manual\\fR\\m[]\\&\\s-2\\u[1]\\d\\s+2";
    let generator = TroffTokenGenerator {};

    let mut actual = Vec::new();

    for word in sentence.split_whitespace() {
        let mut result = generator.generate(word, false);
        actual.append(&mut result);
    }

    let expected = vec![
        Token::new(TroffToken::TextWord, "Manual".to_owned(), false),
        Token::new(TroffToken::Backslash, "\\".to_owned(), false),
        Token::new(TroffToken::EscapeCommand, "f".to_owned(), false),
        Token::new(TroffToken::CommandArg, "R".to_owned(), false),
        Token::new(TroffToken::Backslash, "\\".to_owned(), false),
        Token::new(TroffToken::EscapeCommand, "m".to_owned(), false),
        Token::new(TroffToken::ArgOpenBracket, "[".to_owned(), false),
        Token::new(TroffToken::CommandArg, "".to_owned(), false),
        Token::new(TroffToken::ArgCloseBracket, "]".to_owned(), false),
        Token::new(TroffToken::Backslash, "\\".to_owned(), false),
        Token::new(TroffToken::EscapeCommand, "&".to_owned(), false),
        Token::new(TroffToken::Backslash, "\\".to_owned(), false),
        Token::new(TroffToken::EscapeCommand, "s".to_owned(), false),
        Token::new(TroffToken::CommandArg, "-2".to_owned(), false),
        Token::new(TroffToken::Backslash, "\\".to_owned(), false),
        Token::new(TroffToken::EscapeCommand, "u".to_owned(), false),
        Token::new(TroffToken::TextWord, "[1]".to_owned(), false),
        Token::new(TroffToken::Backslash, "\\".to_owned(), false),
        Token::new(TroffToken::EscapeCommand, "d".to_owned(), false),
        Token::new(TroffToken::Backslash, "\\".to_owned(), false),
        Token::new(TroffToken::EscapeCommand, "s".to_owned(), false),
        Token::new(TroffToken::CommandArg, "+2".to_owned(), false),
    ];

    assert_eq!(actual, expected);
}

#[test]
fn troff_token_generator_test_multiple_splits() {
    let word = "\\-lefthalf\\-righthalf\\";
    let generator = TroffTokenGenerator {};

    let actual = generator.generate(word, true);

    let expected = vec![
        Token::new(TroffToken::Backslash, "\\".to_owned(), true),
        Token::new(TroffToken::EscapeCommand, "-".to_owned(), false),
        Token::new(TroffToken::TextWord, "lefthalf".to_owned(), false),
        Token::new(TroffToken::Backslash, "\\".to_owned(), false),
        Token::new(TroffToken::EscapeCommand, "-".to_owned(), false),
        Token::new(TroffToken::TextWord, "righthalf".to_owned(), false),
        Token::new(TroffToken::Backslash, "\\".to_owned(), false),
    ];

    assert!(
        actual == expected,
        "expected: {:?}\nactual: {:?}",
        expected,
        actual
    );
}

#[test]
fn troff_token_generator_test_inline_macro() {
    let words = "\\fBHello world\\fP".split_whitespace();
    let generator = TroffTokenGenerator {};

    let mut actual = Vec::new();

    for word in words {
        let mut result = generator.generate(word, true);
        actual.append(&mut result);
    }

    let expected = vec![
        Token::new(TroffToken::Backslash, "\\".to_owned(), true),
        Token::new(TroffToken::EscapeCommand, "f".to_owned(), false),
        Token::new(TroffToken::CommandArg, "B".to_owned(), false),
        Token::new(TroffToken::TextWord, "Hello".to_owned(), false),
        Token::new(TroffToken::TextWord, "world".to_owned(), true),
        Token::new(TroffToken::Backslash, "\\".to_owned(), false),
        Token::new(TroffToken::EscapeCommand, "f".to_owned(), false),
        Token::new(TroffToken::CommandArg, "P".to_owned(), false),
    ];

    assert!(
        actual == expected,
        "expected: {:?}\nactual: {:?}",
        expected,
        actual
    );
}
