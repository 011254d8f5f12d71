use sp_cli::text::{contains, format_number, is_whitespace, parse_number, split, trim};

#[test]
fn whitespace_is_that_of_the_standard_library() {
    for n in 0..=0x10ffff_u32 {
        if let Some(c) = char::from_u32(n) {
            assert_eq!(is_whitespace(c), c.is_whitespace());
        }
    }
}

#[test]
fn numbers_are_read_as_by_the_standard_library() {
    let texts = [
        "", "+", "-", "-0", "0", "+7", "007", "1_0", " 1", "1 ", "18446744073709551615",
        "18446744073709551616", "99999999999999999999", "1a", "++1", "\u{661}",
    ];
    for s in texts {
        assert_eq!(parse_number(s), s.parse::<u64>().ok());
    }
    assert_eq!(parse_number("+7"), Some(7));
}

#[test]
fn written_numbers_are_read_back() {
    for n in [0, 9, 10, 99, 100, 1_234_567_890, u64::MAX] {
        assert_eq!(format_number(n), n.to_string());
        assert_eq!(parse_number(&format_number(n)), Some(n));
    }
}

#[test]
fn text_is_split_at_every_separator() {
    for s in ["", ":", "a", "a:b", ":a:", "a::b", "\u{e9}:\u{1f600}"] {
        let expected: Vec<&str> = s.split(':').collect();
        assert_eq!(split(s, ':'), expected);
    }
}

#[test]
fn text_is_trimmed_at_both_ends() {
    for s in ["", " ", " a", "a ", "\t a b \u{3000}\n", "\u{e9}\u{a0}"] {
        assert_eq!(trim(s), s.trim());
    }
    assert_eq!(trim(" a b\n"), "a b");
}

#[test]
fn occurrences_are_found_anywhere() {
    let cases = [("", ""), ("a", ""), ("", "a"), ("ab", "ab"), ("xab", "ab"), ("aab", "ab"), ("ba", "ab"), ("timed-out", "timed out")];
    for (hay, needle) in cases {
        assert_eq!(contains(hay, needle), hay.contains(needle));
    }
}
