use wasi_test_generator::escape::{
    checked_quote, is_quoted_form_of, plain_quote, quote, unescape,
};

fn chars(text: &str) -> Vec<char> {
    text.chars().collect()
}

fn read_back(text: &str) -> Option<String> {
    unescape(&chars(text)).map(|v| v.into_iter().collect())
}

#[test]
fn plain_text_is_only_quoted() {
    for text in ["", "hello", "it's 100% (fine)", "caf\u{e9} \u{65e5}\u{672c} \u{1f600}"] {
        assert_eq!(quote(text), format!("\"{}\"", text));
        assert_eq!(plain_quote(text), format!("\"{}\"", text));
    }
}

#[test]
fn named_escapes() {
    for (text, quoted) in [
        ("hello\n", "\"hello\\n\""),
        ("a\tb", "\"a\\tb\""),
        ("a\r\nb", "\"a\\r\\nb\""),
        ("\0", "\"\\0\""),
        ("\\", "\"\\\\\""),
        ("\"", "\"\\\"\""),
        ("say \"hi\"", "\"say \\\"hi\\\"\""),
        ("\\n", "\"\\\\n\""),
    ] {
        assert_eq!(quote(text), quoted);
        assert_eq!(plain_quote(text), quoted);
    }
}

#[test]
fn control_characters_are_written_by_their_code() {
    for (text, quoted) in [
        ("\u{1}", "\"\\u{1}\""),
        ("\u{7}", "\"\\u{7}\""),
        ("\u{b}\u{c}", "\"\\u{b}\\u{c}\""),
        ("\u{1b}[0m", "\"\\u{1b}[0m\""),
        ("\u{1f}", "\"\\u{1f}\""),
        ("\u{7f}", "\"\\u{7f}\""),
        ("\u{80}\u{85}\u{9f}", "\"\\u{80}\\u{85}\\u{9f}\""),
    ] {
        assert_eq!(quote(text), quoted);
        assert_eq!(plain_quote(text), quoted);
    }
}

#[test]
fn white_space_but_the_space_is_written_by_its_code() {
    for (text, quoted) in [
        ("a b", "\"a b\""),
        ("a\u{a0}b", "\"a\\u{a0}b\""),
        ("\u{1680}\u{2000}\u{200a}", "\"\\u{1680}\\u{2000}\\u{200a}\""),
        ("\u{2028}\u{2029}", "\"\\u{2028}\\u{2029}\""),
        ("\u{202f}\u{205f}\u{3000}", "\"\\u{202f}\\u{205f}\\u{3000}\""),
    ] {
        assert_eq!(quote(text), quoted);
        assert_eq!(plain_quote(text), quoted);
    }
}

#[test]
fn quote_writes_what_debug_writes() {
    for code in 0u32..=0x10FFFF {
        if let Some(c) = char::from_u32(code) {
            let text = c.to_string();
            assert_eq!(quote(&text), format!("{:?}", text), "U+{:04X}", code);
        }
    }
    let mixed = "tab\there \"quoted\" back\\slash e\u{301} zero\u{200b}width \u{feff}\u{ad}\n";
    assert_eq!(quote(mixed), format!("{:?}", mixed));
}

#[test]
fn quote_escapes_more_than_it_must() {
    assert_eq!(quote("e\u{301}"), "\"e\\u{301}\"");
    assert_eq!(plain_quote("e\u{301}"), "\"e\u{301}\"");
    assert_eq!(quote("\u{200b}\u{feff}"), "\"\\u{200b}\\u{feff}\"");
    assert_eq!(plain_quote("\u{200b}\u{feff}"), "\"\u{200b}\u{feff}\"");
}

#[test]
fn plain_quote_escapes_what_must_be_escaped_and_nothing_else() {
    for code in 0u32..=0x10FFFF {
        if let Some(c) = char::from_u32(code) {
            let text = c.to_string();
            let quoted = plain_quote(&text);
            let must = c.is_control() || (c.is_whitespace() && c != ' ') || c == '"' || c == '\\';
            if must {
                assert!(quoted.starts_with("\"\\"), "U+{:04X}", code);
            } else {
                assert_eq!(quoted, format!("\"{}\"", c), "U+{:04X}", code);
            }
            assert!(is_quoted_form_of(&quoted, &text), "U+{:04X}", code);
        }
    }
    assert_eq!(plain_quote("\u{a1}\u{1681}"), "\"\u{a1}\u{1681}\"");
    assert_eq!(plain_quote("\u{10ffff}"), "\"\u{10ffff}\"");
}

#[test]
fn quoted_text_is_on_one_line() {
    let text = "line one\nline two\r\n\u{85}\u{2028}\u{2029}\u{b}\u{c}end";
    for quoted in [quote(text), plain_quote(text)] {
        assert_eq!(quoted.lines().count(), 1);
        assert!(quoted.chars().all(|c| !c.is_control()));
        assert!(quoted.chars().all(|c| c == ' ' || !c.is_whitespace()));
    }
}

#[test]
fn what_is_quoted_reads_back() {
    for text in [
        "",
        "hello\n",
        "say \"hi\"\tnow\\\r\n",
        "nul\0 bell\u{7} caf\u{e9} e\u{301} \u{200b} \u{1f600} \u{10ffff}",
        "\\u{41}",
        "}{",
    ] {
        for quoted in [quote(text), plain_quote(text)] {
            assert!(is_quoted_form_of(&quoted, text));
            let inner = &quoted[1..quoted.len() - 1];
            assert_eq!(read_back(inner), Some(text.to_string()));
        }
    }
}

#[test]
fn unescape_reads_every_escape() {
    assert_eq!(read_back(""), Some(String::new()));
    assert_eq!(read_back("plain text"), Some("plain text".to_string()));
    assert_eq!(read_back("\\0\\t\\n\\r\\\\\\\""), Some("\0\t\n\r\\\"".to_string()));
    assert_eq!(read_back("\\u{41}\\u{e9}\\u{1f600}"), Some("A\u{e9}\u{1f600}".to_string()));
    assert_eq!(read_back("\\u{0041}"), Some("A".to_string()));
    assert_eq!(read_back("\\u{10ffff}"), Some("\u{10ffff}".to_string()));
    assert_eq!(read_back("\\u{d7ff}\\u{e000}"), Some("\u{d7ff}\u{e000}".to_string()));
    assert_eq!(read_back("a'b"), Some("a'b".to_string()));
}

#[test]
fn unescape_refuses_what_is_no_quoted_text() {
    for text in [
        "a\"b",
        "a\nb",
        "tab\there",
        "a\u{a0}b",
        "\u{7f}",
        "\\",
        "a\\",
        "\\x41",
        "\\'",
        "\\u",
        "\\u{",
        "\\u{}",
        "\\u{41",
        "\\u41}",
        "\\u{4g}",
        "\\u{4A}",
        "\\u{110000}",
        "\\u{d800}",
        "\\u{dfff}",
        "\\u{ffffffffffffffffffff}",
        "\\u{100000000}",
    ] {
        assert_eq!(read_back(text), None, "{:?}", text);
    }
}

#[test]
fn quoted_form_needs_both_quotes() {
    assert!(is_quoted_form_of("\"abc\"", "abc"));
    assert!(is_quoted_form_of("\"\"", ""));
    assert!(is_quoted_form_of("\"a\\u{62}c\"", "abc"));
    assert!(!is_quoted_form_of("\"abc\"", "abd"));
    assert!(!is_quoted_form_of("abc", "abc"));
    assert!(!is_quoted_form_of("\"abc", "abc"));
    assert!(!is_quoted_form_of("abc\"", "abc"));
    assert!(!is_quoted_form_of("\"", ""));
    assert!(!is_quoted_form_of("", ""));
    assert!(!is_quoted_form_of("\"a\"b\"", "a\"b"));
    assert!(!is_quoted_form_of("\"a\nb\"", "a\nb"));
}

#[test]
fn checked_quote_keeps_a_form_that_stands_for_the_text() {
    assert_eq!(checked_quote("\"a\\u{62}c\"".to_string(), "abc"), "\"a\\u{62}c\"");
    assert_eq!(checked_quote("\"abc\"".to_string(), "abc"), "\"abc\"");
    assert_eq!(checked_quote("\"a\\nb\"".to_string(), "a\nb"), "\"a\\nb\"");
}

#[test]
fn checked_quote_replaces_a_form_that_does_not() {
    assert_eq!(checked_quote("abc".to_string(), "abc"), "\"abc\"");
    assert_eq!(checked_quote("\"abd\"".to_string(), "abc"), "\"abc\"");
    assert_eq!(checked_quote("\"a\nb\"".to_string(), "a\nb"), "\"a\\nb\"");
    assert_eq!(checked_quote(String::new(), "e\u{301}"), "\"e\u{301}\"");
    assert_eq!(checked_quote("'x'".to_string(), "x\"y"), "\"x\\\"y\"");
}
