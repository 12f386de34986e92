use flicker::text::{is_white_space_char, push_decimal, same_text, trim_string};
use flicker::usb::parse_sector_count;

#[test]
fn white_space_is_unicode_white_space() {
    for u in 0u32..0x110000 {
        if let Some(c) = char::from_u32(u) {
            assert_eq!(is_white_space_char(c), c.is_whitespace(), "char {:#x}", u);
        }
    }
}

#[test]
fn trim_matches_str_trim() {
    let samples = [
        "", "   ", "abc", "  abc  ", "\t\nabc def\r\n", "\u{3000}x\u{a0}", "a b", " \u{2028}",
        "SanDisk ", "1\n",
    ];
    for s in samples {
        assert_eq!(trim_string(s), s.trim(), "sample {:?}", s);
    }
}

#[test]
fn decimal_rendering() {
    let mut s = String::from("n=");
    push_decimal(&mut s, 0);
    assert_eq!(s, "n=0");
    let mut s = String::new();
    push_decimal(&mut s, 16013942784);
    assert_eq!(s, "16013942784");
    let mut s = String::new();
    push_decimal(&mut s, u128::MAX);
    assert_eq!(s, u128::MAX.to_string());
}

#[test]
fn same_text_compares_characters() {
    assert!(same_text("sdb", "sdb"));
    assert!(!same_text("sdb", "sdc"));
    assert!(!same_text("sdb", "sdb1"));
    assert!(same_text("", ""));
}

#[test]
fn sector_counts_parse_like_u64_from_str() {
    let samples = [
        "0", "30031872\n", " 42 ", "+7", "-1", "", "+", "12a", "18446744073709551615",
        "18446744073709551616", "00012", "99999999999999999999999",
    ];
    for s in samples {
        assert_eq!(parse_sector_count(s), s.trim().parse::<u64>().ok(), "sample {:?}", s);
    }
}
