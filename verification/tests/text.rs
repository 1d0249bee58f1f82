use powerext::text::{
    cat3, contains_text, decimal_text, one_of, padded_text, parse_u32, text_eq, trim,
};

fn parse(s: &str) -> Option<u32> {
    parse_u32(&s.chars().collect(), 0)
}

#[test]
fn numbers_are_padded() {
    assert_eq!(padded_text(7, 4), "0007");
    assert_eq!(padded_text(0, 4), "0000");
    assert_eq!(padded_text(1234, 4), "1234");
    assert_eq!(padded_text(12345, 4), "12345");
    assert_eq!(padded_text(5, 0), "5");
}

#[test]
fn numbers_are_written_in_decimal() {
    assert_eq!(decimal_text(0), "0");
    assert_eq!(decimal_text(30), "30");
    assert_eq!(decimal_text(u64::MAX), "18446744073709551615");
}

#[test]
fn padded_numbers_read_back() {
    for n in [0u32, 1, 9, 10, 999, 1000, 9999, 10000, u32::MAX] {
        assert_eq!(parse(&padded_text(n as u64, 4)), Some(n));
    }
}

#[test]
fn numbers_are_parsed_as_std_does() {
    for s in [
        "", "+", "0", "00", "001", "+7", "++7", "-1", " 1", "1 ", "1a", "4294967295",
        "4294967296", "00004294967295", "99999999999999999999", "٣",
    ] {
        assert_eq!(parse(s), s.parse::<u32>().ok(), "{s:?}");
    }
}

#[test]
fn white_space_is_trimmed() {
    for s in ["", " ", "/usr/bin/ffmpeg\n", "\r\n a b \t", "\u{a0}x\u{3000}", "x", "\u{85}\u{2028}"] {
        assert_eq!(trim(s), s.trim(), "{s:?}");
    }
}

#[test]
fn texts_are_searched() {
    assert!(contains_text("button returned:Convert, gave up:false", "Convert"));
    assert!(!contains_text("button returned:Skip", "Convert"));
    assert!(!contains_text("", "Convert"));
    assert!(contains_text("Convert", "Convert"));
    assert!(!contains_text("ConverConver", "Convert"));
    assert!(contains_text("abc", ""));
}

#[test]
fn texts_are_compared_and_joined() {
    assert!(text_eq("→", "→"));
    assert!(!text_eq("png", "PNG"));
    assert!(!text_eq("png", "pn"));
    assert!(one_of("gif", &["gif", "webp"]));
    assert!(!one_of("GIF", &["gif", "webp"]));
    assert_eq!(cat3("a", "", "→"), "a→");
}

#[test]
fn every_kind_of_white_space_is_trimmed() {
    for c in (0..=0x10ffff_u32).filter_map(char::from_u32) {
        if c.is_whitespace() || c.is_control() || (c as u32) < 0x3100 {
            let s = c.to_string();
            assert_eq!(trim(&s), s.trim(), "{c:?}");
        }
    }
}
