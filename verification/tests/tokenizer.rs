use explain::simple_parser::token::{Token, TokenClass};
use explain::simple_parser::token_generator::TokenGenerator;
use explain::simple_parser::tokenizer;

#[derive(PartialEq, Debug)]
enum TestToken {
    LParen,
    RParen,
    NumVal(i32),
    AddOp,
    Space,
}

impl TokenClass for TestToken {}

struct TestGenerator;

impl TokenGenerator<TestToken> for TestGenerator {
    fn generate(&self, word: &str, starts_line: bool) -> Vec<Token<TestToken>> {
        match word {
            "(" => return vec![Token::new(TestToken::LParen, "(".into(), starts_line)],
            ")" => return vec![Token::new(TestToken::RParen, ")".into(), starts_line)],
            "+" => return vec![Token::new(TestToken::AddOp, "+".into(), starts_line)],
            w if w.parse::<i32>().is_ok() => vec![Token::new(
                TestToken::NumVal(w.parse::<i32>().unwrap()),
                w.into(),
                starts_line,
            )],
            _ => vec![Token::new(TestToken::Space, word.into(), starts_line)],
        }
    }

    fn is_comment(&self, _word: &str) -> bool {
        false
    }
}

#[test]
fn test_simple_line() {
    let s = "( 1 +      8 )";

    let generator = TestGenerator {};
    let result = tokenizer::tokenize(s, &generator);

    let expected = vec![
        Token::new(TestToken::LParen, "(".to_owned(), true),
        Token::new(TestToken::Space, " ".to_owned(), false),
        Token::new(TestToken::NumVal(1), "1".to_owned(), false),
        Token::new(TestToken::Space, " ".to_owned(), false),
        Token::new(TestToken::AddOp, "+".to_owned(), false),
        Token::new(TestToken::Space, "      ".to_owned(), false),
        Token::new(TestToken::NumVal(8), "8".to_owned(), false),
        Token::new(TestToken::Space, " ".to_owned(), false),
        Token::new(TestToken::RParen, ")".to_owned(), false),
    ];

    assert_eq!(
        expected, result,
        "expected: {:?} actual: {:?}",
        expected, result
    );
}
