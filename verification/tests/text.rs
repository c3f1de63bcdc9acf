//! White space, trimming, numerals and visible tabs.

use ricat::text::{blank, decimal_string, digit_char, show_tabs, trim, white_space};

#[test]
fn white_space_agrees_with_unicode_on_every_character() {
    let mut code: u32 = 0;
    while code <= 0x10FFFF {
        if let Some(c) = char::from_u32(code) {
            assert_eq!(white_space(c), c.is_whitespace(), "U+{:04X}", code);
        }
        code += 1;
    }
}

#[test]
fn white_space_knows_the_named_characters() {
    assert!(white_space(' '));
    assert!(white_space('\t'));
    assert!(white_space('\n'));
    assert!(white_space('\r'));
    assert!(white_space('\u{0B}'));
    assert!(white_space('\u{0C}'));
    assert!(white_space('\u{85}'));
    assert!(white_space('\u{A0}'));
    assert!(white_space('\u{1680}'));
    assert!(white_space('\u{2000}'));
    assert!(white_space('\u{200A}'));
    assert!(white_space('\u{2028}'));
    assert!(white_space('\u{2029}'));
    assert!(white_space('\u{202F}'));
    assert!(white_space('\u{205F}'));
    assert!(white_space('\u{3000}'));
    assert!(!white_space('a'));
    assert!(!white_space('\u{08}'));
    assert!(!white_space('\u{0E}'));
    assert!(!white_space('\u{200B}'));
    assert!(!white_space('\u{1F}'));
}

#[test]
fn blank_lines_are_those_of_white_space_only() {
    assert!(blank(""));
    assert!(blank(" "));
    assert!(blank(" \t \r"));
    assert!(blank("\u{3000}\u{A0}"));
    assert!(!blank("a"));
    assert!(!blank("   a"));
    assert!(!blank("a   "));
    assert!(!blank("  \u{200B}  "));
}

#[test]
fn blank_agrees_with_trimming() {
    for line in ["", " ", "x", " x ", "\t\t", "\u{2003}", "\u{2003}.", "é", " é"] {
        assert_eq!(blank(line), line.trim().is_empty(), "{:?}", line);
    }
}

#[test]
fn trim_removes_white_space_at_both_ends() {
    assert_eq!(trim("  abc  "), "abc");
    assert_eq!(trim("abc"), "abc");
    assert_eq!(trim("  abc"), "abc");
    assert_eq!(trim("abc  "), "abc");
    assert_eq!(trim("a b  c"), "a b  c");
    assert_eq!(trim(" \t a b \n"), "a b");
    assert_eq!(trim("\u{2003}x y\u{3000}"), "x y");
}

#[test]
fn trim_of_nothing_but_white_space_is_empty() {
    assert_eq!(trim(""), "");
    assert_eq!(trim(" "), "");
    assert_eq!(trim(" \t\r\n "), "");
}

#[test]
fn trim_keeps_characters_of_several_bytes() {
    assert_eq!(trim(" héllo wörld "), "héllo wörld");
    assert_eq!(trim("\u{A0}日本語\u{A0}"), "日本語");
    assert_eq!(trim("é"), "é");
}

#[test]
fn trim_agrees_with_std() {
    for text in ["", "a", " a", "a ", " a b ", "\n\n", "reg:\\d+ ", "  (?i)  x", "\u{85}z\u{85}"] {
        assert_eq!(trim(text), text.trim(), "{:?}", text);
    }
}

#[test]
fn decimal_numerals() {
    assert_eq!(decimal_string(0), "0");
    assert_eq!(decimal_string(7), "7");
    assert_eq!(decimal_string(9), "9");
    assert_eq!(decimal_string(10), "10");
    assert_eq!(decimal_string(42), "42");
    assert_eq!(decimal_string(100), "100");
    assert_eq!(decimal_string(9_007_199), "9007199");
    assert_eq!(decimal_string(1_234_567_890), "1234567890");
}

#[test]
fn decimal_numeral_of_the_largest_number() {
    assert_eq!(decimal_string(usize::MAX), usize::MAX.to_string());
}

#[test]
fn decimal_numerals_agree_with_std() {
    let mut n: usize = 0;
    while n < 2_000 {
        assert_eq!(decimal_string(n), n.to_string());
        n += 1;
    }
}

#[test]
fn digit_characters() {
    let digits: Vec<char> = (0..10).map(digit_char).collect();
    assert_eq!(digits, vec!['0', '1', '2', '3', '4', '5', '6', '7', '8', '9']);
}

#[test]
fn tabs_become_visible() {
    assert_eq!(show_tabs("\t"), "^I");
    assert_eq!(show_tabs("\t\t"), "^I^I");
    assert_eq!(show_tabs("a\tb\tc"), "a^Ib^Ic");
    assert_eq!(show_tabs("\tstart"), "^Istart");
    assert_eq!(show_tabs("end\t"), "end^I");
}

#[test]
fn only_tabs_are_touched() {
    assert_eq!(show_tabs(""), "");
    assert_eq!(show_tabs("no tabs here"), "no tabs here");
    assert_eq!(show_tabs("  spaces  "), "  spaces  ");
    assert_eq!(show_tabs("line\u{0B}feed\r"), "line\u{0B}feed\r");
    assert_eq!(show_tabs("^I"), "^I");
    assert_eq!(show_tabs("é\tü"), "é^Iü");
}

#[test]
fn visible_tabs_agree_with_replace() {
    for line in ["", "\t", "a\tb", "\t\t\t", "x", "日\t本"] {
        assert_eq!(show_tabs(line), line.replace('\t', "^I"));
    }
}
