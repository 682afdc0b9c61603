use roast::text::{fill_template, replace, same_text, trim};
use roast::token::{format_token, parse_token};

#[test]
fn format_token_writes_decimal() {
    assert_eq!(format_token(0), "0");
    assert_eq!(format_token(7), "7");
    assert_eq!(format_token(1234567890), "1234567890");
    assert_eq!(format_token(u64::MAX), "18446744073709551615");
}

#[test]
fn parse_token_accepts_digits_and_plus() {
    assert_eq!(parse_token("42"), Some(42));
    assert_eq!(parse_token("+42"), Some(42));
    assert_eq!(parse_token("0007"), Some(7));
    assert_eq!(parse_token("18446744073709551615"), Some(u64::MAX));
}

#[test]
fn parse_token_rejects_what_from_str_rejects() {
    assert_eq!(parse_token(""), None);
    assert_eq!(parse_token("+"), None);
    assert_eq!(parse_token("-1"), None);
    assert_eq!(parse_token(" 5"), None);
    assert_eq!(parse_token("5 "), None);
    assert_eq!(parse_token("12a"), None);
    assert_eq!(parse_token("++1"), None);
    assert_eq!(parse_token("18446744073709551616"), None);
    assert_eq!(parse_token("99999999999999999999999"), None);
}

#[test]
fn parse_token_agrees_with_std() {
    for s in ["1", "+0", "", "x", "-0", "18446744073709551615", "18446744073709551616", "٣"] {
        assert_eq!(parse_token(s), s.parse::<u64>().ok(), "on {:?}", s);
    }
}

#[test]
fn format_then_parse_gives_the_token_back() {
    for n in [0u64, 1, 9, 10, 99, 100, 4242, u64::MAX - 1, u64::MAX] {
        assert_eq!(parse_token(&format_token(n)), Some(n));
    }
}

#[test]
fn trim_removes_surrounding_white_space() {
    assert_eq!(trim("  start \n"), "start");
    assert_eq!(trim("\u{3000}x y\u{85}\t"), "x y");
    assert_eq!(trim(""), "");
    assert_eq!(trim(" \r\n\u{2028} "), "");
    assert_eq!(trim("a"), "a");
}

#[test]
fn trim_agrees_with_std() {
    for s in ["  a b  ", "\u{a0}z\u{205f}", "\u{200b}q", "\u{1680}\u{2001}", "ok"] {
        assert_eq!(trim(s), s.trim(), "on {:?}", s);
    }
}

#[test]
fn same_text_compares_characters() {
    assert!(same_text("start", "start"));
    assert!(!same_text("start", "Start"));
    assert!(!same_text("start", "star"));
    assert!(same_text("", ""));
}

#[test]
fn replace_replaces_every_occurrence_left_to_right() {
    assert_eq!(replace("a{{x}}b{{x}}", "{{x}}", "1"), "a1b1");
    assert_eq!(replace("aaa", "aa", "b"), "ba");
    assert_eq!(replace("none here", "{{x}}", "1"), "none here");
    assert_eq!(replace("{{x}}", "{{x}}", ""), "");
    assert_eq!(replace("é{{x}}é", "{{x}}", "ü"), "éüé");
}

#[test]
fn replace_agrees_with_std() {
    for (s, p, r) in [("abab", "ab", "x"), ("aaaa", "aa", "a"), ("x", "xyz", "q"), ("", "a", "b")] {
        assert_eq!(replace(s, p, r), s.replace(p, r));
    }
}

#[test]
fn fill_template_applies_substitutions_in_order() {
    let page = fill_template("<p>{{ a }} {{ b }}</p>", &[("{{ a }}", "{{ b }}"), ("{{ b }}", "B")]);
    assert_eq!(page, "<p>B B</p>");
    assert_eq!(fill_template("same", &[]), "same");
}
