use soksak_sidecar_speech_sherpa::text::{is_blank, same_text};

#[test]
fn blank_lines() {
    assert!(is_blank(""));
    assert!(is_blank("   "));
    assert!(is_blank(" \t\r\n"));
    assert!(is_blank("\u{3000}\u{a0}"));
    assert!(!is_blank(" a "));
    assert!(!is_blank("안녕"));
    assert!(!is_blank("\u{200b}"));
}

#[test]
fn blank_agrees_with_trim() {
    for s in ["", " x", "x ", "\u{2028}", "\u{85}", "\u{feff}", " \u{1680} "] {
        assert_eq!(is_blank(s), s.trim().is_empty(), "{:?}", s);
    }
}

#[test]
fn same_text_compares_chars() {
    assert!(same_text("vits", "vits"));
    assert!(!same_text("vits", "Vits"));
    assert!(!same_text("vits", "vits "));
    assert!(same_text("", ""));
}

#[test]
fn whitespace_agrees_with_std_on_every_char() {
    for u in 0..=0x10ffffu32 {
        if let Some(c) = char::from_u32(u) {
            let mut buf = [0u8; 4];
            let s: &str = c.encode_utf8(&mut buf);
            assert_eq!(is_blank(s), c.is_whitespace(), "U+{:04X}", u);
        }
    }
}
