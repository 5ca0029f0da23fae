use amalgam::text::{chars_of, parse_digits, parse_unsigned, same_text};

fn chars(text: &str) -> Vec<char> {
    text.chars().collect()
}

#[test]
fn characters_are_listed_in_order() {
    assert_eq!(chars_of(""), chars(""));
    assert_eq!(chars_of("a\u{e9}\u{1f600}z"), vec!['a', '\u{e9}', '\u{1f600}', 'z']);
}

#[test]
fn texts_are_compared_by_character() {
    assert!(same_text("", ""));
    assert!(same_text("sshd", "sshd"));
    assert!(!same_text("sshd", "sshd "));
    assert!(!same_text("sshd", "sshe"));
    assert!(!same_text("", "a"));
}

#[test]
fn unsigned_decimal_agrees_with_std() {
    for text in [
        "0", "7", "007", "65535", "65536", "+65535", "+", "", "-0", "+-1", "++1", "1+", "12 ",
        "18446744073709551615", "18446744073709551616", "99999999999999999999999", "４２",
    ] {
        assert_eq!(parse_unsigned(&chars(text), u64::MAX), text.parse::<u64>().ok(), "{:?}", text);
        assert_eq!(
            parse_unsigned(&chars(text), 65535),
            text.parse::<u16>().ok().map(u64::from),
            "{:?}",
            text
        );
    }
}

#[test]
fn digits_are_read_within_bounds() {
    let text = chars("ab1234cd");
    assert_eq!(parse_digits(&text, 2, 6, 9999), Some(1234));
    assert_eq!(parse_digits(&text, 2, 6, 1234), Some(1234));
    assert_eq!(parse_digits(&text, 2, 6, 1233), None);
    assert_eq!(parse_digits(&text, 3, 5, 255), Some(23));
    assert_eq!(parse_digits(&text, 2, 2, 0), Some(0));
    assert_eq!(parse_digits(&text, 1, 4, 9999), None);
    assert_eq!(parse_digits(&text, 2, 7, 99999), None);
}
