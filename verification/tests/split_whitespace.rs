use explain::simple_parser::split_whitespace::{SplitWhitespaceInclusive, WhitespaceSplitInclusive};

#[test]
fn split_whitespace_split_includes_whitespace() {
    let my_str = "Hello, this is my string!";

    let result: Vec<&str> = SplitWhitespaceInclusive::new(my_str).collect();

    let expected = vec!["Hello,", " ", "this", " ", "is", " ", "my", " ", "string!"];

    assert_eq!(result, expected);
}

#[test]
fn split_whitespace_split_keeps_multilength_spaces() {
    let my_str = "Hello,   this is my    string!";

    let result: Vec<&str> = SplitWhitespaceInclusive::new(my_str).collect();

    let expected = vec![
        "Hello,", "   ", "this", " ", "is", " ", "my", "    ", "string!",
    ];

    assert_eq!(result, expected);
}

#[test]
fn split_whitespace_split_understands_tabs() {
    let my_str = "Hello,\tthis is my string!";

    let result: Vec<&str> = SplitWhitespaceInclusive::new(my_str).collect();

    let expected = vec!["Hello,", "\t", "this", " ", "is", " ", "my", " ", "string!"];

    assert_eq!(result, expected);
}

#[test]
fn split_whitespace_split_understands_newlines() {
    let my_str = "Hello,\nthis is my\n string!";

    let result: Vec<&str> = SplitWhitespaceInclusive::new(my_str).collect();

    let expected = vec![
        "Hello,", "\n", "this", " ", "is", " ", "my", "\n", " ", "string!",
    ];

    assert_eq!(result, expected);
}

#[test]
fn split_segregates_whitespaces_types() {
    let my_str = "Hello,\t  \t my whitespace is  \nnon-homogenous!";

    let result: Vec<&str> = SplitWhitespaceInclusive::new(my_str).collect();

    let expected = vec![
        "Hello,",
        "\t",
        "  ",
        "\t",
        " ",
        "my",
        " ",
        "whitespace",
        " ",
        "is",
        "  ",
        "\n",
        "non-homogenous!",
    ];

    assert_eq!(result, expected);
}

#[test]
fn split_understands_wide_chars() {
    let my_str = "Originally written by Hrvoje Nikšić <hniksic@xemacs.org>.";

    let result: Vec<&str> = SplitWhitespaceInclusive::new(my_str).collect();

    let expected = vec![
        "Originally",
        " ",
        "written",
        " ",
        "by",
        " ",
        "Hrvoje",
        " ",
        "Nikšić",
        " ",
        "<hniksic@xemacs.org>.",
    ];

    assert_eq!(result, expected);
}

#[test]
fn trait_works() {
    let my_str = "This is a test of the trait!";
    let iterator = my_str.split_whitespace_inclusive();
    let result: Vec<&str> = iterator.collect();

    let expected = vec![
        "This", " ", "is", " ", "a", " ", "test", " ", "of", " ", "the", " ", "trait!",
    ];

    assert_eq!(result, expected);
}
