use webhook_relay::text::{is_whitespace, trim};

#[test]
fn trim_removes_white_space_at_both_ends() {
    assert_eq!(trim("  hello world \n"), "hello world");
    assert_eq!(trim("\t\r\n x\u{a0}"), "x");
}

#[test]
fn trim_keeps_white_space_inside() {
    assert_eq!(trim(" a  b\tc "), "a  b\tc");
}

#[test]
fn trim_of_nothing_but_white_space_is_empty() {
    assert_eq!(trim(""), "");
    assert_eq!(trim(" "), "");
    assert_eq!(trim(" \t\n\u{3000}\u{2028}"), "");
}

#[test]
fn trim_leaves_text_without_white_space_around_it() {
    assert_eq!(trim("{\"msg\":\"hi\"}"), "{\"msg\":\"hi\"}");
    assert_eq!(trim("x"), "x");
}

#[test]
fn trim_twice_is_trim_once() {
    let once = trim(" \u{2003}a b \u{85}");
    assert_eq!(once, "a b");
    assert_eq!(trim(once), once);
}

#[test]
fn trim_counts_characters_not_bytes() {
    assert_eq!(trim("\u{2000}\u{e9}t\u{e9}\u{205f}"), "\u{e9}t\u{e9}");
    assert_eq!(trim(" \u{1f600} "), "\u{1f600}");
}

#[test]
fn white_space_is_what_std_calls_white_space() {
    let mut code: u32 = 0;
    while code <= 0x10FFFF {
        if let Some(c) = char::from_u32(code) {
            assert_eq!(is_whitespace(c), c.is_whitespace(), "U+{:04X}", code);
        }
        code += 1;
    }
}

#[test]
fn white_space_named_one_by_one() {
    for c in [
        '\t', '\n', '\u{b}', '\u{c}', '\r', ' ', '\u{85}', '\u{a0}', '\u{1680}', '\u{2000}',
        '\u{2005}', '\u{200a}', '\u{2028}', '\u{2029}', '\u{202f}', '\u{205f}', '\u{3000}',
    ] {
        assert!(is_whitespace(c), "U+{:04X}", c as u32);
    }
    for c in ['\u{8}', '\u{e}', '\u{1f}', '!', 'a', '\u{84}', '\u{86}', '\u{200b}', '\u{feff}', '\u{180e}'] {
        assert!(!is_whitespace(c), "U+{:04X}", c as u32);
    }
}

#[test]
fn trim_agrees_with_std_around_every_white_space_character() {
    let mut code: u32 = 0;
    while code <= 0x3100 {
        if let Some(c) = char::from_u32(code) {
            let text = format!("{}a{}b{}", c, c, c);
            assert_eq!(trim(&text), text.trim(), "U+{:04X}", code);
        }
        code += 1;
    }
}
