use ccn::json::{append, put, Json};
use ccn::text::{
    chars, cut, find_from, find_tail, head, is_whitespace, join, lines, parse_u16,
    push_decimal, same, starts_with, strip, text, trim, trim_end_matches, trim_start_matches, words,
};

fn c(s: &str) -> Vec<char> {
    s.chars().collect()
}

#[test]
fn white_space_is_what_unicode_says() {
    for ch in '\0'..=char::MAX {
        assert_eq!(is_whitespace(ch), ch.is_whitespace(), "{ch:?}");
    }
}

#[test]
fn a_text_is_its_characters() {
    assert_eq!(chars("aé\u{1f600}"), c("aé\u{1f600}"));
    assert_eq!(text(&c("aé")), "aé");
    assert!(same("é", "é"));
    assert!(!same("a", "ab"));
    assert!(!same("ab", "ac"));
}

#[test]
fn trimming_and_matching_agree_with_the_standard_library() {
    for s in ["", "  ", " a b ", "\u{3000}x\t", "http://http://x//", "aab"] {
        let v = c(s);
        assert_eq!(text(trim(&v)), s.trim());
        assert_eq!(
            text(trim_start_matches(&v, &c("http://"))),
            s.trim_start_matches("http://")
        );
        assert_eq!(text(trim_end_matches(&v, '/')), s.trim_end_matches('/'));
        assert_eq!(starts_with(&v, &c("a")), s.starts_with('a'));
        assert_eq!(
            words(&v),
            s.split_whitespace().map(str::to_string).collect::<Vec<_>>()
        );
    }
}

#[test]
fn lines_agree_with_the_standard_library() {
    for s in ["", "a", "a\n", "a\nb", "a\r\nb\r", "\n\n", "a\n\nb\n", "\r\n"] {
        assert_eq!(
            lines(s),
            s.lines().map(str::to_string).collect::<Vec<_>>(),
            "{s:?}"
        );
    }
}

#[test]
fn parts_are_joined() {
    assert_eq!(join(&["a".into(), "".into(), "b".into()], ", "), "a, , b");
    assert_eq!(join(&[], ", "), "");
    assert_eq!(ccn::text::concat(&["a", "", "bc"]), "abc");
}

#[test]
fn a_text_is_cut_with_a_mark_or_without() {
    assert_eq!(cut(&c("abcdef"), 4), "abc…");
    assert_eq!(cut(&c("abcd"), 4), "abcd");
    assert_eq!(cut(&c("ab"), 0), "…");
    assert_eq!(head(&c("abcdef"), 4), "abcd");
    assert_eq!(head(&c("ab"), 4), "ab");
}

#[test]
fn numbers_are_written_and_read_as_in_the_standard_library() {
    for n in [0u128, 9, 10, 65535, u128::MAX] {
        let mut out = "x".to_string();
        push_decimal(&mut out, n);
        assert_eq!(out, format!("x{n}"));
    }
    for s in ["0", "+7", "65535", "65536", "", "+", "-1", "1a", "00012"] {
        assert_eq!(parse_u16(&c(s)), s.parse::<u16>().ok(), "{s:?}");
    }
}

#[test]
fn characters_are_found() {
    assert_eq!(find_from(&c("abcabc"), 'b', 2), 4);
    assert_eq!(find_from(&c("abc"), 'x', 0), 3);
    assert_eq!(find_tail(&c("a:b:c"), ':'), 4);
}

#[test]
fn escape_sequences_are_dropped() {
    assert_eq!(strip(&c("a\u{1b}[1;2mb\u{1b}[0mc")), c("abc"));
    assert_eq!(strip(&c("a\u{1b}[1")), c("a"));
    assert_eq!(strip(&c("a\u{1b}")), c("a"));
}

#[test]
fn json_reads_back_what_it_wrote() {
    for s in [
        "null",
        "true",
        "18446744073709551615",
        "-3",
        "1.5",
        r#""a\n\"é""#,
        r#"[1,[],{}]"#,
        r#"{"a":{"b":[null]},"c":2}"#,
    ] {
        let v = Json::parse(s).unwrap();
        assert_eq!(v.to_text(), s);
        assert_eq!(Json::parse(&v.to_pretty()).unwrap().to_text(), s);
        assert_eq!(v.copy().to_text(), s);
        assert_eq!(Json::parse_bytes(s.as_bytes()).unwrap().to_text(), s);
    }
}

#[test]
fn the_last_of_two_entries_with_a_key_counts() {
    let v = Json::parse(r#"{"a":1,"a":2}"#).unwrap();
    assert_eq!(v.u64_at("a"), Some(2));
    let mut f = Vec::new();
    put(&mut f, "a", Json::uint(1));
    put(&mut f, "b", Json::text("x"));
    put(&mut f, "a", Json::uint(2));
    let v = Json::Object(f);
    assert_eq!(v.u64_at("a"), Some(2));
    assert_eq!(v.str_at("b"), Some("x"));
    assert_eq!(v.to_text(), r#"{"a":2,"b":"x"}"#);
}

#[test]
fn values_are_told_apart() {
    let v = Json::parse(r#"{"n":3,"m":-3,"f":3.0,"s":"t","a":[1]}"#).unwrap();
    assert_eq!(v.u64_at("n"), Some(3));
    assert_eq!(v.u64_at("m"), None);
    assert_eq!(v.u64_at("f"), None);
    assert_eq!(v.str_at("n"), None);
    assert_eq!(v.get("a").unwrap().as_array().unwrap().len(), 1);
    assert!(v.get("s").unwrap().as_array().is_none());
    assert!(v.get("zz").is_none());
    assert!(Json::text("x").get("x").is_none());
    assert_eq!(Json::integer(-1).to_text(), "-1");
    assert_eq!(Json::integer(1).as_u64(), Some(1));
    assert_eq!(Json::integer(-1).as_u64(), None);
}

#[test]
fn what_is_no_json_says_so() {
    assert!(Json::parse("{").unwrap_err().contains("EOF"));
    assert!(Json::parse_bytes(b"\xff").is_err());
    let mut a = Vec::new();
    append(&mut a, Json::Bool(true));
    assert_eq!(Json::Array(a).to_text(), "[true]");
}
