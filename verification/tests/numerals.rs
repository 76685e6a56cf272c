use uwufetch::numerals::{fmt_u32, fmt_u64, parse_u32, parse_u64};

fn chars(x: &str) -> Vec<char> {
    x.chars().collect()
}

fn text(v: &[char]) -> String {
    v.iter().copied().collect()
}

#[test]
fn numerals_format_exactly() {
    assert_eq!(text(&fmt_u64(0)), "0");
    assert_eq!(text(&fmt_u64(7)), "7");
    assert_eq!(text(&fmt_u64(1024)), "1024");
    assert_eq!(text(&fmt_u64(18446744073709551615)), "18446744073709551615");
    assert_eq!(text(&fmt_u32(4294967295)), "4294967295");
}

#[test]
fn numerals_parse_exactly() {
    assert_eq!(parse_u64(&chars("0")), Some(0));
    assert_eq!(parse_u64(&chars("12345")), Some(12345));
    assert_eq!(parse_u64(&chars("")), None);
    assert_eq!(parse_u64(&chars("12a")), None);
    assert_eq!(parse_u64(&chars("-3")), None);
    assert_eq!(parse_u64(&chars("18446744073709551615")), Some(u64::MAX));
    assert_eq!(parse_u64(&chars("18446744073709551616")), None);
    assert_eq!(parse_u32(&chars("4294967295")), Some(u32::MAX));
    assert_eq!(parse_u32(&chars("4294967296")), None);
}

#[test]
fn numerals_round_trip() {
    for n in [0u64, 1, 9, 10, 4096, 999999999, u64::MAX] {
        assert_eq!(parse_u64(&fmt_u64(n)), Some(n));
    }
}
