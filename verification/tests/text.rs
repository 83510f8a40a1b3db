use helpbot::text::{char_is_whitespace, chars_of, parse_bounded, split_whitespace, str_eq, token_end};

#[test]
fn whitespace_is_what_std_calls_whitespace() {
    let mut code: u32 = 0;
    let mut seen: u32 = 0;
    while code <= 0x10FFFF {
        if let Some(c) = char::from_u32(code) {
            assert_eq!(char_is_whitespace(c), c.is_whitespace(), "U+{:04X}", code);
            if char_is_whitespace(c) {
                seen += 1;
            }
        }
        code += 1;
    }
    assert_eq!(seen, 25);
}

#[test]
fn whitespace_examples() {
    assert!(char_is_whitespace(' '));
    assert!(char_is_whitespace('\t'));
    assert!(char_is_whitespace('\n'));
    assert!(char_is_whitespace('\r'));
    assert!(char_is_whitespace('\u{A0}'));
    assert!(char_is_whitespace('\u{3000}'));
    assert!(!char_is_whitespace('a'));
    assert!(!char_is_whitespace('!'));
    assert!(!char_is_whitespace('\u{200B}'));
    assert!(!char_is_whitespace('\u{8}'));
    assert!(!char_is_whitespace('\u{E}'));
}

#[test]
fn chars_of_keeps_every_character() {
    assert_eq!(chars_of(""), Vec::<char>::new());
    assert_eq!(chars_of("a b"), vec!['a', ' ', 'b']);
    assert_eq!(chars_of("é越🤖"), vec!['é', '越', '🤖']);
}

#[test]
fn str_eq_compares_characters() {
    assert!(str_eq("", ""));
    assert!(str_eq("ping", "ping"));
    assert!(!str_eq("ping", "Ping"));
    assert!(!str_eq("ping", "pin"));
    assert!(!str_eq("pin", "ping"));
    assert!(!str_eq("ping", "pong"));
}

#[test]
fn token_end_stops_at_whitespace() {
    let chars = chars_of("!cmd arg");
    assert_eq!(token_end(&chars, 0), 4);
    assert_eq!(token_end(&chars, 1), 4);
    assert_eq!(token_end(&chars, 4), 4);
    assert_eq!(token_end(&chars, 5), 8);
    assert_eq!(token_end(&chars, 8), 8);
}

#[test]
fn split_whitespace_examples() {
    assert_eq!(split_whitespace(""), Vec::<String>::new());
    assert_eq!(split_whitespace("   "), Vec::<String>::new());
    assert_eq!(split_whitespace("a"), vec!["a"]);
    assert_eq!(split_whitespace("a b"), vec!["a", "b"]);
    assert_eq!(split_whitespace("  a \t b\n"), vec!["a", "b"]);
    assert_eq!(split_whitespace("arg1 arg2"), vec!["arg1", "arg2"]);
    assert_eq!(split_whitespace("é\u{A0}越\u{2003}🤖"), vec!["é", "越", "🤖"]);
}

#[test]
fn split_whitespace_is_what_std_splits() {
    let samples = [
        "",
        " ",
        "a",
        " a",
        "a ",
        "a b c",
        "a  b   c",
        "\ta\nb\rc\u{B}d\u{C}e",
        "one\u{85}two\u{1680}three\u{2028}four\u{2029}five\u{202F}six\u{205F}seven",
        "no-break\u{A0}space and ideographic\u{3000}space",
        "zero\u{200B}width is no space",
        "!help delete_channel",
    ];
    for sample in samples {
        let expected: Vec<String> = sample.split_whitespace().map(|word| word.to_string()).collect();
        assert_eq!(split_whitespace(sample), expected, "{:?}", sample);
    }
}

#[test]
fn padding_does_not_change_the_tokens() {
    assert_eq!(split_whitespace(" \t a b \n "), split_whitespace("a b"));
    assert_eq!(split_whitespace("a b").len(), 2);
    assert_eq!(split_whitespace("   a b").len(), 2);
    assert_eq!(split_whitespace("a b   ").len(), 2);
}

#[test]
fn parse_bounded_reads_decimal_numbers() {
    assert_eq!(parse_bounded("0", 100), Some(0));
    assert_eq!(parse_bounded("7", 100), Some(7));
    assert_eq!(parse_bounded("42", 100), Some(42));
    assert_eq!(parse_bounded("100", 100), Some(100));
    assert_eq!(parse_bounded("007", 100), Some(7));
    assert_eq!(parse_bounded("0000000000000000000000000100", 100), Some(100));
}

#[test]
fn parse_bounded_refuses_what_is_too_large() {
    assert_eq!(parse_bounded("101", 100), None);
    assert_eq!(parse_bounded("150", 100), None);
    assert_eq!(parse_bounded("1000", 100), None);
    assert_eq!(parse_bounded("99999999999999999999999999999999999999999999", 100), None);
    assert_eq!(parse_bounded("1", 0), None);
    assert_eq!(parse_bounded("0", 0), Some(0));
}

#[test]
fn parse_bounded_refuses_what_is_no_number() {
    assert_eq!(parse_bounded("", 100), None);
    assert_eq!(parse_bounded("abc", 100), None);
    assert_eq!(parse_bounded("1a", 100), None);
    assert_eq!(parse_bounded("a1", 100), None);
    assert_eq!(parse_bounded("+5", 100), None);
    assert_eq!(parse_bounded("-5", 100), None);
    assert_eq!(parse_bounded(" 5", 100), None);
    assert_eq!(parse_bounded("5 ", 100), None);
    assert_eq!(parse_bounded("1.0", 100), None);
    assert_eq!(parse_bounded("٣", 100), None);
}

#[test]
fn parse_bounded_reaches_the_largest_number() {
    assert_eq!(parse_bounded("18446744073709551615", u64::MAX), Some(u64::MAX));
    assert_eq!(parse_bounded("18446744073709551616", u64::MAX), None);
    assert_eq!(parse_bounded("18446744073709551614", u64::MAX), Some(u64::MAX - 1));
    assert_eq!(parse_bounded("184467440737095516150", u64::MAX), None);
}
