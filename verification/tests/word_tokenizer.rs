use explain::man_parse::token::{Classification, Classifier, Token};
use explain::man_parse::tokenizer;

#[derive(PartialEq, Debug)]
enum TestToken {
    LParen,
    RParen,
    NumVal(i32),
    AddOp,
}

impl Classification for TestToken {}

struct TestClassifier;

impl Classifier<TestToken> for TestClassifier {
    fn classify(&self, word: &str) -> TestToken {
        println!("classifying: {}", word);

        match word {
            "(" => return TestToken::LParen,
            ")" => return TestToken::RParen,
            "+" => return TestToken::AddOp,
            w if w.parse::<i32>().is_ok() => TestToken::NumVal(w.parse::<i32>().unwrap()),
            &_ => panic!("found an illegal character: {}", word),
        }
    }
}

#[test]
fn test_tokenize() {
    let s = "( 1 +      8 )";

    let classifier = TestClassifier {};
    let result = tokenizer::tokenize(s, &classifier);

    let expected = vec![
        Token::new(TestToken::LParen, "(".to_owned()),
        Token::new(TestToken::NumVal(1), "1".to_owned()),
        Token::new(TestToken::AddOp, "+".to_owned()),
        Token::new(TestToken::NumVal(8), "8".to_owned()),
        Token::new(TestToken::RParen, ")".to_owned()),
    ];

    assert!(
        expected == result,
        "expected: {:?} actual: {:?}",
        expected,
        result
    );
}

#[test]
fn words_are_separated_by_any_white_space() {
    let classifier = TestClassifier {};
    let result = tokenizer::tokenize("\t1\n\n2 \u{a0}3  ", &classifier);

    let expected = vec![
        Token::new(TestToken::NumVal(1), "1".to_owned()),
        Token::new(TestToken::NumVal(2), "2".to_owned()),
        Token::new(TestToken::NumVal(3), "3".to_owned()),
    ];

    assert_eq!(expected, result);
    assert_eq!(tokenizer::tokenize("", &classifier), vec![]);
    assert_eq!(tokenizer::tokenize("  \t ", &classifier), vec![]);
}
