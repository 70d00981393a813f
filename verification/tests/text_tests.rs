use llm_router_gateway_api::text::{
    chars_of, is_whitespace_char, joined, push_decimal, str_eq, string_from_chars, trimmed,
    trimmed_eq,
};

fn decimal(n: u64) -> String {
    let mut out = String::new();
    push_decimal(&mut out, n);
    out
}

#[test]
fn white_space_is_what_the_standard_library_calls_white_space() {
    for code in 0..=0x10FFFFu32 {
        if let Some(c) = char::from_u32(code) {
            assert_eq!(is_whitespace_char(c), c.is_whitespace(), "U+{:04X}", code);
        }
    }
}

#[test]
fn trimming_agrees_with_the_standard_library() {
    for text in [
        "",
        " ",
        "a",
        " a",
        "a ",
        "  a b  ",
        "\t\r\n x \u{a0}\u{2003}",
        "\u{3000}\u{3000}",
        "é \u{1680} é",
        "\u{feff}a\u{feff}",
        "\u{200b} a",
    ] {
        assert_eq!(trimmed(text), text.trim(), "{:?}", text);
    }
}

#[test]
fn trimmed_equality() {
    assert!(trimmed_eq("a", "a"));
    assert!(trimmed_eq(" a\n", "\ta "));
    assert!(trimmed_eq("", "   "));
    assert!(trimmed_eq("a b", " a b "));
    assert!(!trimmed_eq("a b", "ab"));
    assert!(!trimmed_eq("a", "A"));
    assert!(!trimmed_eq("a", "ab"));
    assert!(!trimmed_eq("é", "e"));
}

#[test]
fn equality_of_strings() {
    assert!(str_eq("", ""));
    assert!(str_eq("héllo", "héllo"));
    assert!(!str_eq("héllo", "hello"));
    assert!(!str_eq("a", "ab"));
    assert!(!str_eq("ab", "a"));
    assert!(!str_eq("a", " a"));
}

#[test]
fn characters_and_back() {
    assert_eq!(chars_of("héy"), vec!['h', 'é', 'y']);
    assert!(chars_of("").is_empty());
    let chars = chars_of("héllo wörld");
    assert_eq!(string_from_chars(&chars), "héllo wörld");
    assert_eq!(string_from_chars(&vec![]), "");
    assert_eq!(string_from_chars(&vec!['é']), "é");
    assert_eq!(joined("ab", "cd"), "abcd");
    assert_eq!(joined("", ""), "");
}

#[test]
fn decimal_digits() {
    assert_eq!(decimal(0), "0");
    assert_eq!(decimal(7), "7");
    assert_eq!(decimal(10), "10");
    assert_eq!(decimal(404), "404");
    assert_eq!(decimal(1_000_000), "1000000");
    assert_eq!(decimal(u64::MAX), "18446744073709551615");
    let mut out = String::from("n=");
    push_decimal(&mut out, 42);
    assert_eq!(out, "n=42");
}
