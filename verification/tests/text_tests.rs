use signalk_radar::double::Double;
use signalk_radar::string_map::{text_order, StringMap, TextOrder};
use signalk_radar::text::{
    decimal, parse_port, push_hex, replace_char, str_contains, str_eq, text_after_last, text_before,
};

#[test]
fn decimal_writes_digits() {
    assert_eq!(decimal(0), "0");
    assert_eq!(decimal(1234), "1234");
    assert_eq!(decimal(u64::MAX), u64::MAX.to_string());
}

#[test]
fn ports_are_read_as_the_standard_library_reads_them() {
    let cases = [
        "0", "1", "10024", "65535", "65536", "+80", "-1", "", "+", "8 0", "080", "99999999999", "a",
        "+0", "0065535",
    ];
    for case in cases {
        assert_eq!(parse_port(case), case.parse::<u16>().ok(), "{}", case);
    }
}

#[test]
fn written_ports_are_read_back() {
    for port in [0u16, 7, 10024, 65535] {
        assert_eq!(parse_port(&decimal(port as u64)), Some(port));
    }
}

#[test]
fn texts_are_split_at_a_character() {
    assert_eq!(text_before("172.31.1.4:10010", ':'), "172.31.1.4");
    assert_eq!(text_before("172.31.1.4", ':'), "172.31.1.4");
    assert_eq!(text_before(":x", ':'), "");
    assert_eq!(text_after_last("a:b:c", ':'), "c");
    assert_eq!(text_after_last("abc", ':'), "abc");
    assert_eq!(text_after_last("abc:", ':'), "");
}

#[test]
fn parts_of_texts_are_found() {
    assert!(str_contains("Simrad HALO 24", "HALO"));
    assert!(!str_contains("Simrad Halo 24", "HALO"));
    assert!(str_contains("x", ""));
    assert!(!str_contains("", "x"));
    assert!(str_contains("aab", "ab"));
    assert!(str_eq("radar", "radar"));
    assert!(!str_eq("radar", "radars"));
    assert_eq!(replace_char("a.b.c", '.', '-'), "a-b-c");
}

#[test]
fn bytes_are_written_as_hex() {
    let mut s = String::from("#");
    push_hex(&mut s, 0);
    push_hex(&mut s, 0xAF);
    push_hex(&mut s, 255);
    assert_eq!(s, "#00AFFF");
}

#[test]
fn texts_are_ordered_by_code_points() {
    assert_eq!(text_order("a", "b"), TextOrder::Before);
    assert_eq!(text_order("b", "a"), TextOrder::Behind);
    assert_eq!(text_order("a", "a"), TextOrder::Same);
    assert_eq!(text_order("a", "aa"), TextOrder::Before);
    assert_eq!(text_order("10", "9"), TextOrder::Before);
}

#[test]
fn a_map_holds_what_was_last_put_in() {
    let mut map: StringMap<Double> = StringMap::new();
    assert!(map.get("a").is_none());
    map.insert("b".to_string(), Double { bits: 1 });
    map.insert("a".to_string(), Double { bits: 2 });
    map.insert("b".to_string(), Double { bits: 3 });
    assert_eq!(map.get("b"), Some(&Double { bits: 3 }));
    assert_eq!(map.get("a"), Some(&Double { bits: 2 }));
    let keys: Vec<&str> = map.entries().iter().map(|e| e.0.as_str()).collect();
    assert_eq!(keys, vec!["a", "b"]);
}
