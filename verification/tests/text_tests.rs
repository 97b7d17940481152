use appointment_agent::text::{chars_of, contains, parse_i32, split_char, string_from_chars, trim};

#[test]
fn trim_removes_unicode_white_space_at_both_ends() {
    assert_eq!(trim("  \t 15 \n"), "15");
    assert_eq!(trim("\u{a0}\u{3000}day\u{2028}"), "day");
    assert_eq!(trim("   "), "");
    assert_eq!(trim("a b"), "a b");
}

#[test]
fn contains_finds_substrings() {
    assert!(contains("<h1>Thank you!</h1>", "Thank you!"));
    assert!(!contains("<h1>Thanks</h1>", "Thank you!"));
    assert!(contains("abc", ""));
    assert!(!contains("", "a"));
}

#[test]
fn parse_i32_follows_std() {
    for s in ["09", "0", "-5", "+7", "2147483647", "-2147483648", "", "+", "-", "1a", " 1", "2147483648", "99999999999"] {
        assert_eq!(parse_i32(s), s.parse::<i32>().ok(), "input {:?}", s);
    }
}

#[test]
fn split_char_matches_std_split() {
    for s in ["09:00", "9", ":", "a::b", "", "1:2:3"] {
        let expected: Vec<String> = s.split(':').map(|p| p.to_string()).collect();
        assert_eq!(split_char(s, ':'), expected, "input {:?}", s);
    }
}

#[test]
fn chars_round_trip() {
    let cs = chars_of("héllo🎫");
    assert_eq!(cs.len(), 6);
    assert_eq!(string_from_chars(&cs), "héllo🎫");
}
