use herdr::schema::LaunchEnv;
use herdr::text::{
    chars_of, has_char, has_text, has_white_space, hex_digit_value, is_white_space, parse_unsigned,
    position, push_decimal, push_hex_byte, split_chars, starts_with, string_of, trimmed,
};

#[test]
fn white_space_is_that_of_char() {
    for code in 0..=0x10ffff_u32 {
        if let Some(c) = char::from_u32(code) {
            assert_eq!(is_white_space(c), c.is_whitespace(), "{code:x}");
            assert_eq!(hex_digit_value(c), c.to_digit(16), "{code:x}");
        }
    }
}

#[test]
fn numbers_are_read_as_std_reads_them() {
    for text in [
        "0", "7", "255", "256", "007", "+7", "++7", "-7", "", "+", " 7", "7 ", "1x", "٣",
        "18446744073709551615", "18446744073709551616", "99999999999999999999999",
    ] {
        let chars = chars_of(text);
        assert_eq!(parse_unsigned(&chars, u64::MAX), text.parse::<u64>().ok(), "{text:?}");
        assert_eq!(
            parse_unsigned(&chars, u8::MAX as u64),
            text.parse::<u8>().ok().map(u64::from),
            "{text:?}"
        );
    }
}

#[test]
fn text_is_split_and_trimmed_as_std_does() {
    for text in ["", "a", "\t", "a\tb", "\ta\t\tb\t", " a \t\u{a0}b\u{2003}", "\r\n x y \n"] {
        let chars = chars_of(text);
        let pieces: Vec<String> = split_chars(&chars, '\t').iter().map(|p| string_of(p)).collect();
        assert_eq!(pieces, text.split('\t').collect::<Vec<_>>(), "{text:?}");
        assert_eq!(string_of(trimmed(&chars)), text.trim(), "{text:?}");
        assert_eq!(has_white_space(&chars), text.contains(char::is_whitespace));
        assert_eq!(position(&chars, 'b'), text.chars().position(|c| c == 'b'));
        assert_eq!(has_char(&chars, 'b'), text.contains('b'));
    }
}

#[test]
fn texts_are_searched() {
    let chars = chars_of("no server");
    assert!(has_text(&chars, &chars_of("server")));
    assert!(has_text(&chars, &chars_of("no server")));
    assert!(has_text(&chars, &[]));
    assert!(!has_text(&chars, &chars_of("servers")));
    assert!(!has_text(&[], &chars_of("a")));
    assert!(starts_with(&chars, &chars_of("no")));
    assert!(starts_with(&chars, &[]));
    assert!(!starts_with(&chars, &chars_of("o")));
}

#[test]
fn numbers_are_written_as_std_writes_them() {
    for n in [0, 9, 10, 255, 1_725_000_000, u64::MAX] {
        let mut decimal = String::from("n=");
        push_decimal(&mut decimal, n);
        assert_eq!(decimal, format!("n={n}"));
    }
    for b in 0..=255u8 {
        let mut hex = String::from("0x");
        push_hex_byte(&mut hex, b);
        assert_eq!(hex, format!("0x{b:02x}"));
    }
}

#[test]
fn later_variables_replace_earlier_ones() {
    let env = LaunchEnv::new()
        .with("A".into(), "1".into())
        .with("B".into(), "2".into())
        .with("A".into(), "3".into());
    let mut entries = env.entries().clone();
    entries.sort();
    assert_eq!(
        entries,
        vec![
            ("A".to_string(), "3".to_string()),
            ("B".to_string(), "2".to_string()),
        ]
    );
    assert!(LaunchEnv::new().entries().is_empty());
}
