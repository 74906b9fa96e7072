use explain::man_parse::man_section::ManSection;
use explain::text::{
    char_is_whitespace, chars_of, parse_decimal, parse_truncated, str_eq, str_eq_ignoring_case,
    string_of, string_of_range,
};

#[test]
fn decimal_numbers_are_read() {
    assert_eq!(parse_decimal("0"), Some(0));
    assert_eq!(parse_decimal("12"), Some(12));
    assert_eq!(parse_decimal("+7"), Some(7));
    assert_eq!(parse_decimal("007"), Some(7));
    assert_eq!(
        parse_decimal(&format!("{}", usize::MAX)),
        Some(usize::MAX)
    );
}

#[test]
fn what_is_no_decimal_number_is_refused() {
    assert_eq!(parse_decimal(""), None);
    assert_eq!(parse_decimal("+"), None);
    assert_eq!(parse_decimal("-1"), None);
    assert_eq!(parse_decimal("1x"), None);
    assert_eq!(parse_decimal("x1"), None);
    assert_eq!(parse_decimal("1 "), None);
    assert_eq!(parse_decimal("1.5"), None);
    assert_eq!(parse_decimal("++1"), None);
    assert_eq!(parse_decimal(&format!("{}0", usize::MAX)), None);
    assert_eq!(parse_decimal("99999999999999999999999999999999"), None);
}

#[test]
fn decimal_fractions_are_cut_to_their_whole_part() {
    assert_eq!(parse_truncated("4"), Some(4));
    assert_eq!(parse_truncated("2.9"), Some(2));
    assert_eq!(parse_truncated("+2.9"), Some(2));
    assert_eq!(parse_truncated(".5"), Some(0));
    assert_eq!(parse_truncated("5."), Some(5));
    assert_eq!(
        parse_truncated("99999999999999999999999999999999.5"),
        Some(usize::MAX)
    );
}

#[test]
fn what_is_no_decimal_fraction_is_refused() {
    assert_eq!(parse_truncated(""), None);
    assert_eq!(parse_truncated("."), None);
    assert_eq!(parse_truncated("+"), None);
    assert_eq!(parse_truncated("1.2.3"), None);
    assert_eq!(parse_truncated("1e3"), None);
    assert_eq!(parse_truncated("-1.5"), None);
    assert_eq!(parse_truncated("wide"), None);
}

#[test]
fn white_space_is_told_from_other_characters() {
    for c in [' ', '\t', '\n', '\r', '\u{b}', '\u{c}', '\u{85}', '\u{a0}', '\u{2003}', '\u{3000}'] {
        assert!(char_is_whitespace(c));
    }
    for c in ['a', '.', '\\', '"', '\u{200b}', 'š'] {
        assert!(!char_is_whitespace(c));
    }
}

#[test]
fn white_space_is_what_the_standard_library_takes_for_it() {
    for code in 0..=0x10ffffu32 {
        if let Some(c) = char::from_u32(code) {
            assert_eq!(char_is_whitespace(c), c.is_whitespace());
        }
    }
}

#[test]
fn strings_and_characters_convert_both_ways() {
    let chars = chars_of("Nikšić");

    assert_eq!(chars, vec!['N', 'i', 'k', 'š', 'i', 'ć']);
    assert_eq!(string_of(&chars), "Nikšić");
    assert_eq!(string_of_range(&chars, 2, 5), "kši");
    assert_eq!(string_of_range(&chars, 3, 3), "");
}

#[test]
fn strings_are_compared_by_their_characters() {
    assert!(str_eq("", ""));
    assert!(str_eq(".SH", ".SH"));
    assert!(!str_eq(".SH", ".SS"));
    assert!(!str_eq(".S", ".SH"));
    assert!(!str_eq(".SH", ".S"));
    assert!(str_eq_ignoring_case("NaMe", "name"));
    assert!(!str_eq_ignoring_case("names", "name"));
    assert!(!str_eq_ignoring_case("nam", "name"));
    assert!(!str_eq_ignoring_case("n\u{e4}me", "n\u{c4}me"));
}

#[test]
fn sections_are_named_in_any_case() {
    assert_eq!(ManSection::from("name"), ManSection::Name);
    assert_eq!(ManSection::from("SYNOPSIS"), ManSection::Synopsis);
    assert_eq!(ManSection::from("Options"), ManSection::Options);
    assert_eq!(ManSection::from("dEsCrIpTiOn"), ManSection::Description);
    assert_eq!(ManSection::from("bugs"), ManSection::Unknown);
    assert_eq!(ManSection::from(""), ManSection::Unknown);
}

#[test]
fn headers_name_sections_in_upper_case() {
    assert_eq!(ManSection::from_title("NAME"), ManSection::Name);
    assert_eq!(ManSection::from_title("SYNOPSIS"), ManSection::Synopsis);
    assert_eq!(ManSection::from_title("DESCRIPTION"), ManSection::Description);
    assert_eq!(ManSection::from_title("OPTIONS"), ManSection::Options);
    assert_eq!(ManSection::from_title("Name"), ManSection::Unknown);
    assert_eq!(ManSection::from_title("SEE ALSO"), ManSection::Unknown);
}
