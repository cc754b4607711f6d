use clipsync::encoding::decode_base64;
use clipsync::table::Table;
use clipsync::text::{
    after_last, comes_before, decimal, eq_ignore_ascii_case, lines, parse_number, same, signed_decimal,
    starts_with, strip_prefix, to_ascii_lowercase, trim, words,
};

const SAMPLES: [&str; 12] = [
    "",
    " ",
    "a",
    " a b ",
    "a\nb\r\nc",
    "\n",
    "a\n\n",
    "x\r",
    "\r\n\r\n",
    "\u{a0}olá\u{2003}mundo\u{3000}",
    "tab\tsep\u{85}x\u{200b}y",
    "é\u{1680}ß\u{2028}z\u{205f}",
];

#[test]
fn splitting_agrees_with_std() {
    for s in SAMPLES {
        assert_eq!(trim(s), s.trim(), "{s:?}");
        assert_eq!(words(s), s.split_whitespace().collect::<Vec<_>>(), "{s:?}");
        assert_eq!(lines(s), s.lines().collect::<Vec<_>>(), "{s:?}");
        assert_eq!(after_last(s, 'b'), s.rsplit('b').next().unwrap(), "{s:?}");
        assert_eq!(to_ascii_lowercase(s), s.to_ascii_lowercase());
    }
}

#[test]
fn white_space_agrees_with_std() {
    for n in 0..0x11_0000u32 {
        if let Some(c) = char::from_u32(n) {
            assert_eq!(clipsync::text::whitespace(c), c.is_whitespace(), "{n:x}");
        }
    }
}

#[test]
fn comparing_agrees_with_std() {
    for a in SAMPLES {
        for b in SAMPLES {
            assert_eq!(same(a, b), a == b);
            assert_eq!(comes_before(a, b), a < b, "{a:?} {b:?}");
            assert_eq!(starts_with(a, b), a.starts_with(b));
            assert_eq!(strip_prefix(a, b).as_deref(), a.strip_prefix(b));
            assert_eq!(eq_ignore_ascii_case(a, b), a.eq_ignore_ascii_case(b));
        }
    }
    assert!(eq_ignore_ascii_case("Image/PNG", "image/png"));
    assert!(!eq_ignore_ascii_case("É", "é"));
}

#[test]
fn numbers_agree_with_std() {
    for n in [0, 7, 10, 99, 100, 12345, u64::MAX] {
        assert_eq!(decimal(n), n.to_string());
    }
    for n in [0, -1, 5, i64::MIN, i64::MAX] {
        assert_eq!(signed_decimal(n), n.to_string());
    }
    for s in ["", "+", "-1", "0", "00", "+5", "65535", "65536", "1_0", "٣", "18446744073709551615", "18446744073709551616"] {
        assert_eq!(parse_number(s, u64::MAX), s.parse::<u64>().ok(), "{s}");
        assert_eq!(parse_number(s, 65535), s.parse::<u16>().ok().map(u64::from), "{s}");
    }
}

#[test]
fn base64_agrees_with_its_format() {
    assert_eq!(decode_base64("AAECAw=="), Some(vec![0, 1, 2, 3]));
    assert_eq!(decode_base64("AAECAw="), None);
    assert_eq!(decode_base64("AAECAw"), None);
    assert_eq!(decode_base64("-_8="), None);
}

#[test]
fn tables_hold_one_value_for_a_key() {
    let mut t: Table<u32> = Table::new();
    t.insert("a".into(), 1);
    t.insert("b".into(), 2);
    t.insert("a".into(), 3);
    assert_eq!(t.len(), 2);
    assert_eq!(t.get("a"), Some(&3));
    assert!(t.contains_key("b") && !t.contains_key("c"));
    assert_eq!(t.key_at(0), "a");
    assert_eq!(t.value_at(1), &2);
    assert_eq!(t.position("b"), Some(1));
    assert_eq!(t.remove("a"), Some(3));
    assert_eq!(t.remove("a"), None);
    assert_eq!((t.len(), t.get("a")), (1, None));
}
