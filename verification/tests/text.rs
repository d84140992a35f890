use polaris_et::text::{blank, decimal_string, replace, trim};

#[test]
fn trim_strips_unicode_whitespace_at_both_ends() {
    assert_eq!(trim("  \t hello world \n"), "hello world");
    assert_eq!(trim("\u{3000}\u{a0}x\u{2028}"), "x");
    assert_eq!(trim("   "), "");
    assert_eq!(trim(""), "");
    assert_eq!(trim("a b"), "a b");
}

#[test]
fn trim_matches_std_on_samples() {
    let samples = ["", " ", "abc", "  abc", "abc  ", "\u{85}a\u{2009}b\u{200a}", "\r\n x \r\n", "\u{feff}x"];
    for s in samples {
        assert_eq!(trim(s), s.trim());
    }
}

#[test]
fn blank_detects_whitespace_only_text() {
    assert!(blank(" \t\n"));
    assert!(blank(""));
    assert!(!blank(" x "));
}

#[test]
fn decimal_rendering_matches_to_string() {
    for n in [0u64, 7, 10, 99, 100, 1024, 65535, u64::MAX] {
        assert_eq!(decimal_string(n), n.to_string());
    }
}

#[test]
fn replace_substitutes_every_occurrence() {
    assert_eq!(replace("{n} peers", "{n}", "3"), "3 peers");
    assert_eq!(replace("{n} of {n}", "{n}", "12"), "12 of 12");
    assert_eq!(replace("none here", "{n}", "1"), "none here");
    assert_eq!(replace("aaa", "aa", "b"), "ba");
    assert_eq!(replace("", "x", "y"), "");
}
