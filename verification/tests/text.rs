use tf2_bot_kicker::player::steamid32_to_64;
use tf2_bot_kicker::text::{
    parse_decimal, push_decimal, slice_text, split_lines, str_eq, to_chars,
};

#[test]
fn split_lines_ends_lines_at_line_feeds() {
    assert_eq!(split_lines(""), Vec::<String>::new());
    assert_eq!(split_lines("a"), vec!["a"]);
    assert_eq!(split_lines("a\n"), vec!["a"]);
    assert_eq!(split_lines("a\nb"), vec!["a", "b"]);
    assert_eq!(split_lines("a\r\nb\r\n"), vec!["a", "b"]);
    assert_eq!(split_lines("\n\nx\n"), vec!["", "", "x"]);
    assert_eq!(split_lines("a\rb\n\r\nc\r"), vec!["a\rb", "", "c\r"]);
    assert_eq!(split_lines("é\nü"), vec!["é", "ü"]);
}

#[test]
fn split_lines_agrees_with_the_lines_of_a_text() {
    for text in ["", "x", "one\ntwo\n", "one\r\ntwo", "\n", "\n\n", "a\n\nb", "tail\r\n\r\n"] {
        let expected: Vec<String> = text.lines().map(|l| l.to_string()).collect();
        assert_eq!(split_lines(text), expected, "{:?}", text);
    }
}

#[test]
fn decimal_numbers_are_read_and_written() {
    let v = to_chars("x0042y4294967295z4294967296");
    assert_eq!(parse_decimal(&v, 1, 5), Some(42));
    assert_eq!(parse_decimal(&v, 1, 1), Some(0));
    assert_eq!(parse_decimal(&v, 6, 16), Some(4294967295));
    assert_eq!(parse_decimal(&v, 17, 27), None);
    let mut out = String::from("n=");
    push_decimal(&mut out, 0);
    push_decimal(&mut out, 7);
    push_decimal(&mut out, 10);
    push_decimal(&mut out, 4294967295);
    assert_eq!(out, "n=07104294967295");
}

#[test]
fn strings_are_compared_and_cut_by_characters() {
    assert!(str_eq("", ""));
    assert!(str_eq("Zoë", "Zoë"));
    assert!(!str_eq("Zoë", "Zoe"));
    assert!(!str_eq("ab", "abc"));
    let v = to_chars("héllo");
    assert_eq!(v, vec!['h', 'é', 'l', 'l', 'o']);
    assert_eq!(slice_text(&v, 1, 4), "éll");
    assert_eq!(slice_text(&v, 2, 2), "");
}

#[test]
fn account_identifiers_have_a_64_bit_form() {
    assert_eq!(steamid32_to_64("U:1:103663727"), Some(76561198063929455));
    assert_eq!(steamid32_to_64("U:1:0"), Some(76561197960265728));
    assert_eq!(steamid32_to_64("U:1:4294967295"), Some(76561202255233023));
    assert_eq!(steamid32_to_64("U:1:4294967296"), None);
    assert_eq!(steamid32_to_64("U:1:"), None);
    assert_eq!(steamid32_to_64("[U:1:5]"), None);
    assert_eq!(steamid32_to_64("U:1:5 "), None);
    assert_eq!(steamid32_to_64(""), None);
}

#[test]
fn decimal_numbers_hold_digits_only() {
    let v = to_chars("12a4 -5 ٣");
    assert_eq!(parse_decimal(&v, 0, 2), Some(12));
    assert_eq!(parse_decimal(&v, 0, 3), None);
    assert_eq!(parse_decimal(&v, 2, 3), None);
    assert_eq!(parse_decimal(&v, 5, 7), None);
    assert_eq!(parse_decimal(&v, 8, 9), None);
    assert_eq!(parse_decimal(&v, 3, 4), Some(4));
}
