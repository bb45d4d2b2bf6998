use observability::number::{decimal_text, hex, integer_text, parse_signed, parse_unsigned};
use observability::ordered::OrderedMap;
use observability::text::{is_blank, join, lowercase, same, split, split_once, starts_with, trim};

#[test]
fn white_space_is_that_of_unicode() {
    for code in 0..=0x10_ffff_u32 {
        if let Some(c) = char::from_u32(code) {
            let s = c.to_string();
            assert_eq!(is_blank(&s), s.trim().is_empty(), "{code:x}");
        }
    }
    assert_eq!(trim("\u{2003} a b\u{85}\n"), "a b");
    assert_eq!(trim("  "), "");
}

#[test]
fn texts_are_split_and_joined() {
    for s in ["", "a", "a,b", ",", "a,,b,", "é,ü"] {
        assert_eq!(split(s, ','), s.split(',').collect::<Vec<&str>>());
        let pair = s.split_once(',').map(|(a, b)| (a.to_owned(), b.to_owned()));
        assert_eq!(split_once(s, ','), pair);
    }
    let parts = vec!["a".to_owned(), "b".to_owned()];
    assert_eq!(join(&parts, ", "), "a, b");
    assert_eq!(join(&Vec::new(), ", "), "");
    assert!(starts_with("http.method", "http."));
    assert!(!starts_with("http", "http."));
    assert!(same("é", "é"));
    assert!(!same("é", "e"));
    assert_eq!(lowercase("ÀBCz-1"), "ÀBCz-1".to_ascii_lowercase());
}

#[test]
fn numbers_are_written_and_read() {
    for n in [0, 9, 10, 101, u64::MAX] {
        assert_eq!(decimal_text(n), n.to_string());
    }
    for n in [0, -1, 10, i64::MIN, i64::MAX] {
        assert_eq!(integer_text(n), n.to_string());
    }
    for s in ["0", "+7", "-7", "", "+", "-", "007", "1_0", "٣", "18446744073709551615", "9e2"] {
        assert_eq!(parse_unsigned(s, u64::MAX), s.parse::<u64>().ok(), "{s}");
        assert_eq!(parse_unsigned(s, u32::MAX as u64), s.parse::<u32>().ok().map(u64::from), "{s}");
        assert_eq!(parse_signed(s), s.parse::<i64>().ok(), "{s}");
    }
    for s in ["18446744073709551616", "99999999999999999999999"] {
        assert_eq!(parse_unsigned(s, u64::MAX), None);
    }
    for s in ["9223372036854775807", "9223372036854775808", "-9223372036854775808",
        "-9223372036854775809", "-0"]
    {
        assert_eq!(parse_signed(s), s.parse::<i64>().ok(), "{s}");
    }
    assert_eq!(hex(&[0, 15, 160, 255]), "000fa0ff");
}

#[test]
fn maps_are_ordered_by_key() {
    let mut map: OrderedMap<String, String> = OrderedMap::new();
    for key in ["b", "", "a", "ab", "é", "b"] {
        map.insert(key.to_owned(), format!("{key}!"));
    }
    map.insert("a".to_owned(), "last".to_owned());
    assert_eq!(map.len(), 5);
    let keys: Vec<&str> = (0..map.len()).map(|i| map.entry(i).0.as_str()).collect();
    assert_eq!(keys, vec!["", "a", "ab", "b", "é"]);
    assert_eq!(map.get(&"a".to_owned()), Some(&"last".to_owned()));
    assert_eq!(map.get(&"c".to_owned()), None);
    assert!(map.contains_key(&"ab".to_owned()));
    assert_eq!(map.clone(), map);
}
