use pinenote_dbus_service::text::{chars_of, split_lines, str_eq, string_of, trim, trim_end};

#[test]
fn trim_end_removes_trailing_whitespace_only() {
    assert_eq!(trim_end("  abc \t\r\n"), "  abc");
    assert_eq!(trim_end(""), "");
    assert_eq!(trim_end(" \n"), "");
    assert_eq!(trim_end("a\u{3000}"), "a");
    assert_eq!(trim_end("a\u{2000}b"), "a\u{2000}b");
}

#[test]
fn trim_removes_both_ends() {
    assert_eq!(trim("  Y \n"), "Y");
    assert_eq!(trim("\u{A0}x y\u{85}"), "x y");
    assert_eq!(trim("   "), "");
}

#[test]
fn trim_agrees_with_std() {
    for s in ["", " a ", "\tb\n", "c\u{200A}", "\u{1680}d", "e\u{200B}", "x\u{0B}\u{0C}"] {
        assert_eq!(trim(s), s.trim());
        assert_eq!(trim_end(s), s.trim_end());
    }
}

#[test]
fn chars_round_trip() {
    let v = chars_of("héllo");
    assert_eq!(v, vec!['h', 'é', 'l', 'l', 'o']);
    assert_eq!(string_of(&v, 1, 4), "éll");
    assert_eq!(string_of(&v, 2, 2), "");
}

#[test]
fn str_eq_compares_text() {
    assert!(str_eq("on", "on"));
    assert!(!str_eq("on", "auto"));
    assert!(!str_eq("on", "on "));
    assert!(str_eq("", ""));
}

fn lines_of(s: &str) -> Vec<String> {
    split_lines(&chars_of(s)).into_iter().map(|l| l.into_iter().collect()).collect()
}

#[test]
fn split_lines_matches_str_lines() {
    for s in ["", "a", "a\n", "a\nb", "a\r\nb\r\n", "\n", "\n\n", "a\rb\n", "x\r", "a\n\r\nb"] {
        let expected: Vec<String> = s.lines().map(|l| l.to_string()).collect();
        assert_eq!(lines_of(s), expected, "input {:?}", s);
    }
}

#[test]
fn whitespace_set_matches_char_is_whitespace() {
    for code in 0u32..0x3100 {
        if let Some(c) = char::from_u32(code) {
            let s = format!("a{c}");
            assert_eq!(trim_end(&s), s.trim_end(), "char {:#x}", code);
            let t = format!("{c}b{c}");
            assert_eq!(trim(&t), t.trim(), "char {:#x}", code);
        }
    }
}
