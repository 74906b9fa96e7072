use explain::simple_parser::token_splitter::TokenSplitter;

#[test]
fn token_splitter_split_includes_whitespace() {
    let my_str = "Hello, this is my string!";

    let result: Vec<&str> = TokenSplitter::new(my_str).collect();

    let expected = vec!["Hello,", " ", "this", " ", "is", " ", "my", " ", "string!"];

    assert_eq!(result, expected);
}

#[test]
fn token_splitter_split_keeps_multilength_spaces() {
    let my_str = "Hello,   this is my    string!";

    let result: Vec<&str> = TokenSplitter::new(my_str).collect();

    let expected = vec![
        "Hello,", "   ", "this", " ", "is", " ", "my", "    ", "string!",
    ];

    assert_eq!(result, expected);
}

#[test]
fn token_splitter_split_understands_tabs() {
    let my_str = "Hello,\tthis is my string!";

    let result: Vec<&str> = TokenSplitter::new(my_str).collect();

    let expected = vec!["Hello,", "\t", "this", " ", "is", " ", "my", " ", "string!"];

    assert_eq!(result, expected);
}

#[test]
fn token_splitter_split_understands_newlines() {
    let my_str = "Hello,\nthis is my\n string!";

    let result: Vec<&str> = TokenSplitter::new(my_str).collect();

    let expected = vec![
        "Hello,", "\n", "this", " ", "is", " ", "my", "\n", " ", "string!",
    ];

    assert_eq!(result, expected);
}
