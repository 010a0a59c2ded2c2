use pieeg_local_bridge::text::{
    chars_of, concat3, contains, find, is_white_space, parse_u32, same, split, split_words,
    string_from, to_decimal, trim, trim_end_of, Separator,
};

fn text(chars: &Vec<char>) -> String {
    string_from(chars, 0, chars.len())
}

#[test]
fn white_space_is_that_of_unicode() {
    for c in '\0'..=char::MAX {
        assert_eq!(is_white_space(c), c.is_whitespace(), "{:x}", c as u32);
    }
}

#[test]
fn trimming_agrees_with_std() {
    for s in ["", " ", " a ", "\u{a0}x y\u{3000}\r\n", "abc", "\ta", "b\u{2029}"] {
        assert_eq!(text(&trim(&chars_of(s))), s.trim());
    }
    for s in ["", "/", "a//", "/a", "https://x/"] {
        assert_eq!(trim_end_of(s, '/'), s.trim_end_matches('/'));
    }
}

#[test]
fn splitting_agrees_with_std() {
    for s in ["", ".", "a.b", "..a", "1.2.3."] {
        let parts: Vec<String> =
            split(&chars_of(s), Separator::Char('.')).iter().map(text).collect();
        assert_eq!(parts, s.split('.').collect::<Vec<_>>());
    }
    for s in ["", "  ", " a  b\tc\n", "x", "\u{2003}y\u{85}z"] {
        let words: Vec<String> = split_words(&chars_of(s)).iter().map(text).collect();
        assert_eq!(words, s.split_whitespace().collect::<Vec<_>>());
    }
}

#[test]
fn finding_gives_the_first_position() {
    assert_eq!(find(&chars_of("ababab"), &chars_of("ba")), Some(1));
    assert_eq!(find(&chars_of("abc"), &chars_of("")), Some(0));
    assert_eq!(find(&chars_of(""), &chars_of("")), Some(0));
    assert_eq!(find(&chars_of("abc"), &chars_of("c")), Some(2));
    assert_eq!(find(&chars_of("abc"), &chars_of("abcd")), None);
}

#[test]
fn numbers_are_read_as_std_reads_them() {
    for s in [
        "", "+", "0", "007", "+12", "-1", "4294967295", "4294967296", "99999999999999999999999",
        "1 ", "a", "1a", "++1", "000000000000000000000000001", "\u{661}",
    ] {
        assert_eq!(parse_u32(&chars_of(s)), s.parse::<u32>().ok(), "{s}");
    }
}

#[test]
fn decimal_form_agrees_with_std() {
    for n in [0u64, 9, 10, 99, 100, 47800, u64::MAX] {
        assert_eq!(to_decimal(n), n.to_string());
    }
}

#[test]
fn strings_are_put_together_and_compared() {
    assert_eq!(pieeg_local_bridge::text::concat("a", "\u{e9}b"), "a\u{e9}b");
    assert_eq!(concat3("a", "", "c"), "ac");
    assert!(same("\u{e9}", "\u{e9}"));
    assert!(!same("a", "A"));
    assert!(!same("a", "ab"));
    let list = vec!["x".to_string(), "y".to_string()];
    assert!(contains(&list, "y"));
    assert!(!contains(&list, "z"));
    assert_eq!(string_from(&chars_of("h\u{e9}llo"), 1, 3), "\u{e9}l");
}
