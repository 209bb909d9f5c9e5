use moondream::text::{find_newline, is_whitespace, strip_prefix, trim};

#[test]
fn whitespace_is_the_unicode_property() {
    for code in 0..=0x10ffffu32 {
        if let Some(c) = char::from_u32(code) {
            assert_eq!(is_whitespace(c), c.is_whitespace());
        }
    }
}

#[test]
fn trim_removes_both_ends() {
    assert_eq!(trim("  a b \t\r\n"), "a b");
    assert_eq!(trim("a"), "a");
    assert_eq!(trim(""), "");
    assert_eq!(trim(" \u{a0}\u{3000} "), "");
    assert_eq!(trim("\u{2003}x\u{e9} y\u{85}"), "x\u{e9} y");
    assert_eq!(trim("x  "), "x");
    assert_eq!(trim("  x"), "x");
}

#[test]
fn trim_agrees_with_std() {
    for text in [" data: {} ", "\n\n", "\u{feff} a", "a\u{200b} ", " \u{1680}b\u{180e} "] {
        assert_eq!(trim(text), text.trim());
    }
}

#[test]
fn strip_prefix_cuts_or_refuses() {
    assert_eq!(strip_prefix("data: x", "data: "), Some("x"));
    assert_eq!(strip_prefix("data: ", "data: "), Some(""));
    assert_eq!(strip_prefix("data:", "data: "), None);
    assert_eq!(strip_prefix("dat", "data: "), None);
    assert_eq!(strip_prefix("abc", ""), Some("abc"));
    assert_eq!(strip_prefix("\u{e9}t\u{e9}", "\u{e9}"), Some("t\u{e9}"));
    assert_eq!(strip_prefix("xdata: ", "data: "), None);
}

#[test]
fn find_newline_counts_characters() {
    assert_eq!(find_newline(""), None);
    assert_eq!(find_newline("abc"), None);
    assert_eq!(find_newline("\n"), Some(0));
    assert_eq!(find_newline("ab\ncd\n"), Some(2));
    assert_eq!(find_newline("\u{e9}\u{1f600}\n"), Some(2));
    assert_eq!(find_newline("a\rb"), None);
}
