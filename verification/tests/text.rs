use xmly_exporter::fetcher::temp_file_name;
use xmly_exporter::text::{decimal_string, last_field_of, parse_u64};

#[test]
fn decimal_of_zero_and_others() {
    assert_eq!(decimal_string(0), "0");
    assert_eq!(decimal_string(7), "7");
    assert_eq!(decimal_string(10), "10");
    assert_eq!(decimal_string(4308484), "4308484");
    assert_eq!(decimal_string(u64::MAX), "18446744073709551615");
}

#[test]
fn decimal_matches_to_string() {
    for n in [0u64, 1, 9, 10, 99, 100, 147135825, 1 << 40, u64::MAX - 1] {
        assert_eq!(decimal_string(n), n.to_string());
    }
}

#[test]
fn parse_plain_and_signed() {
    assert_eq!(parse_u64("42"), Some(42));
    assert_eq!(parse_u64("+7"), Some(7));
    assert_eq!(parse_u64("007"), Some(7));
    assert_eq!(parse_u64("147135825"), Some(147135825));
}

#[test]
fn parse_rejects_what_str_parse_rejects() {
    for s in ["", "+", "-1", "12a", " 1", "1 ", "++1", "1.0", "٣"] {
        assert_eq!(parse_u64(s), None, "{:?}", s);
        assert!(s.parse::<u64>().is_err(), "{:?}", s);
    }
}

#[test]
fn parse_limits_of_u64() {
    assert_eq!(parse_u64("18446744073709551615"), Some(u64::MAX));
    assert_eq!(parse_u64("18446744073709551616"), None);
    assert_eq!(parse_u64("99999999999999999999999"), None);
    assert_eq!(parse_u64("+18446744073709551615"), Some(u64::MAX));
}

#[test]
fn parse_agrees_with_str_parse() {
    for s in ["0", "+0", "00", "123", "+", "", "a", "18446744073709551615", "18446744073709551616"] {
        assert_eq!(parse_u64(s), s.parse::<u64>().ok(), "{:?}", s);
    }
}

#[test]
fn parse_reads_back_decimal() {
    for n in [0u64, 5, 60, 4308484, u64::MAX] {
        assert_eq!(parse_u64(&decimal_string(n)), Some(n));
    }
}

#[test]
fn last_field_after_last_separator() {
    assert_eq!(last_field_of("http://a.b/c.m4a", '.'), "m4a");
    assert_eq!(last_field_of("no-dot-here", '.'), "no-dot-here");
    assert_eq!(last_field_of("ends.", '.'), "");
    assert_eq!(last_field_of("", '.'), "");
    assert_eq!(last_field_of("a/b/c", '/'), "c");
}

#[test]
fn last_field_agrees_with_split() {
    for s in ["a.b.c", ".", "x", "", "a..b", "音频.mp3"] {
        assert_eq!(last_field_of(s, '.'), s.split('.').last().unwrap());
    }
}

#[test]
fn temp_file_name_is_last_path_part() {
    assert_eq!(temp_file_name("https://aurevoirxavier.github.io/favicon.ico"), "favicon.ico");
    assert_eq!(temp_file_name("http://imagev2.xmcdn.com/group/a/b/cover.jpg"), "cover.jpg");
    assert_eq!(temp_file_name("http://host/dir/"), "");
    assert!(!temp_file_name("http://x/y/z.png").contains('/'));
}
