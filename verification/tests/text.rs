use usage_widget::text::{contains, decimal, parse_number, same_text, trim, wide};

#[test]
fn wide_ends_in_nul() {
    assert_eq!(wide(""), vec![0]);
    assert_eq!(wide("open"), vec![0x6F, 0x70, 0x65, 0x6E, 0]);
}

#[test]
fn wide_matches_std() {
    for s in ["", "usage-widget", "é…€", "\u{FFFF}\u{10000}", "😀 50%", "\u{10FFFF}"] {
        let mut expected: Vec<u16> = s.encode_utf16().collect();
        expected.push(0);
        assert_eq!(wide(s), expected);
    }
}

#[test]
fn wide_surrogate_pair() {
    assert_eq!(wide("😀"), vec![0xD83D, 0xDE00, 0]);
}

#[test]
fn wide_has_a_single_nul() {
    let units = wide("Shell_TrayWnd 😀");
    assert_eq!(units.iter().filter(|u| **u == 0).count(), 1);
    assert_eq!(*units.last().unwrap(), 0);
}

#[test]
fn wide_tells_texts_apart() {
    assert_ne!(wide("a"), wide("b"));
    assert_ne!(wide("\u{10000}"), wide("\u{10400}"));
}

#[test]
fn decimal_numbers() {
    assert_eq!(decimal(0), "0");
    assert_eq!(decimal(9), "9");
    assert_eq!(decimal(10), "10");
    assert_eq!(decimal(1050), "1050");
    assert_eq!(decimal(u64::MAX), u64::MAX.to_string());
}

#[test]
fn decimal_reads_back() {
    for n in [0, 7, 60, 12345678901234567890] {
        assert_eq!(parse_number(&decimal(n), u64::MAX), Some(n));
        assert_eq!(parse_number(trim(&format!(" {}\n", decimal(n))), u64::MAX), Some(n));
    }
}

#[test]
fn trim_both_ends() {
    assert_eq!(trim(" \t 5 min\r\n"), "5 min");
    assert_eq!(trim("5"), "5");
    assert_eq!(trim(""), "");
    assert_eq!(trim(" \n "), "");
    assert_eq!(trim(trim("  x y  ")), "x y");
}

#[test]
fn trim_every_character_as_std() {
    for c in '\0'..=char::MAX {
        let s = c.to_string();
        assert_eq!(trim(&s), s.trim(), "{:x}", c as u32);
    }
}

#[test]
fn trim_keeps_words() {
    let s = "  ERROR: The system was unable to find the key.\r\n";
    assert!(contains(s, "unable to find"));
    assert!(contains(trim(s), "unable to find"));
}

#[test]
fn parse_as_std() {
    for s in [
        "", "+", "-", "0", "5", "+5", "++5", "-0", "-1", "005", "1e3", "5 ", " 5", "٥", "18446744073709551615",
        "18446744073709551616", "+18446744073709551615", "99999999999999999999999", "0000000000000000000000007",
    ] {
        assert_eq!(parse_number(s, u64::MAX), s.parse::<u64>().ok(), "{s:?}");
        assert_eq!(parse_number(s, u32::MAX as u64).map(|n| n as u32), s.parse::<u32>().ok(), "{s:?}");
    }
}

#[test]
fn parse_up_to_a_limit() {
    assert_eq!(parse_number("4294967295", u32::MAX as u64), Some(4294967295));
    assert_eq!(parse_number("4294967296", u32::MAX as u64), None);
    assert_eq!(parse_number("7", 6), None);
}

#[test]
fn contains_as_std() {
    for s in ["", "a", "unable to find", "ERROR: unable to find it", "unable to fin", "aab", "…x…"] {
        for part in ["", "a", "ab", "unable to find", "x…", "…"] {
            assert_eq!(contains(s, part), s.contains(part), "{s:?} {part:?}");
        }
    }
}

#[test]
fn same_text_compares() {
    assert!(same_text("--startup", "--startup"));
    assert!(!same_text("--startup", "--no-startup"));
    assert!(!same_text("", " "));
}
