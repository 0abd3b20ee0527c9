use lmoclient::text::{
    char_is_space, chars_of, ends_with, find, matches_at, push_decimal, push_str, same_text,
    split_lines, starts_with, string_of, sub_vec, text_of, trimmed,
};

fn v(s: &str) -> Vec<char> {
    s.chars().collect()
}

fn lines(s: &str) -> Vec<String> {
    split_lines(&v(s)).iter().map(|l| l.iter().collect()).collect()
}

#[test]
fn characters_and_back() {
    assert_eq!(chars_of("aé\u{1F600}"), vec!['a', 'é', '\u{1F600}']);
    assert!(chars_of("").is_empty());
    assert_eq!(string_of(&v("aé")), "aé");
    assert_eq!(text_of(&v("hello"), 1, 3), "el");
    assert_eq!(text_of(&v("hello"), 2, 2), "");
    assert_eq!(sub_vec(&v("hello"), 0, 5), v("hello"));
    assert_eq!(sub_vec(&v("hello"), 4, 5), v("o"));
}

#[test]
fn lines_agree_with_the_standard_library() {
    let cases = [
        "", "a", "a\n", "a\nb", "a\n\n", "\n", "\n\n", "a\r\nb", "a\r", "\r\n", "a\r\n", "\r",
        "a\rb\n", "a\n\rb", "a\r\r\nb", "\r\n\r\n", "x\ny\nz",
    ];
    for case in cases {
        let expected: Vec<String> = case.lines().map(|l| l.to_string()).collect();
        assert_eq!(lines(case), expected, "{:?}", case);
    }
    assert_eq!(lines("a\r\nb\n\nc"), vec!["a", "b", "", "c"]);
}

#[test]
fn white_space_agrees_with_the_standard_library() {
    for code in 0..=0x3100u32 {
        if let Some(c) = char::from_u32(code) {
            assert_eq!(char_is_space(c), c.is_whitespace(), "U+{:04X}", code);
        }
    }
    assert!(!char_is_space('\u{FEFF}'));
    assert!(!char_is_space('\u{10FFFF}'));
}

#[test]
fn trimming_agrees_with_the_standard_library() {
    for case in ["", " ", "a", " a", "a ", " a b ", "\t\r\n a\u{a0}", "\u{3000}x\u{2028}", "  \n "] {
        assert_eq!(trimmed(&v(case)), v(case.trim()), "{:?}", case);
    }
}

#[test]
fn prefixes_suffixes_and_occurrences() {
    assert!(starts_with(&v("data: x"), &v("data: ")));
    assert!(starts_with(&v("a"), &v("")));
    assert!(starts_with(&v(""), &v("")));
    assert!(!starts_with(&v("dat"), &v("data")));
    assert!(!starts_with(&v("xdata"), &v("data")));
    assert!(ends_with(&v("{}"), &v("}")));
    assert!(ends_with(&v("a"), &v("")));
    assert!(!ends_with(&v("}"), &v("{}")));
    assert!(!ends_with(&v("} "), &v("}")));
    assert!(same_text(&v("ab"), &v("ab")));
    assert!(!same_text(&v("ab"), &v("abc")));
    assert!(!same_text(&v("ab"), &v("ac")));
    assert!(matches_at(&v("abc"), &v("bc"), 1));
    assert!(matches_at(&v("abc"), &v(""), 3));
    assert!(!matches_at(&v("abc"), &v(""), 4));
    assert!(!matches_at(&v("abc"), &v("bc"), 2));
    assert_eq!(find(&v("a\n\n\nb"), &v("\n\n")), Some(1));
    assert_eq!(find(&v("abcabc"), &v("bc")), Some(1));
    assert_eq!(find(&v("abc"), &v("")), Some(0));
    assert_eq!(find(&v(""), &v("")), Some(0));
    assert_eq!(find(&v("abc"), &v("abc")), Some(0));
    assert_eq!(find(&v("abc"), &v("c")), Some(2));
    assert_eq!(find(&v("abc"), &v("d")), None);
    assert_eq!(find(&v("ab"), &v("abc")), None);
}

#[test]
fn decimals() {
    for (n, text) in [(0u64, "0"), (7, "7"), (10, "10"), (909, "909"), (u64::MAX, "18446744073709551615")]
    {
        let mut out = v("n=");
        push_decimal(&mut out, n);
        assert_eq!(string_of(&out), format!("n={}", text));
    }
    let mut out = v("a");
    push_str(&mut out, "é!");
    push_str(&mut out, "");
    assert_eq!(out, v("aé!"));
}
