use signalk_radar::double::Double;
use signalk_radar::json::{Json, JsonNumber};

fn read(text: &str) -> Json {
    let value: serde_json::Value = serde_json::from_str(text).unwrap();
    Json::from_value(&value)
}

#[test]
fn values_are_read_whole() {
    assert!(matches!(read("null"), Json::Null));
    assert!(matches!(read("true"), Json::Bool(true)));
    assert!(matches!(read("7"), Json::Number(JsonNumber::PosInt(7))));
    assert!(matches!(read("-7"), Json::Number(JsonNumber::NegInt(-7))));
    assert!(matches!(
        read("7.5"),
        Json::Number(JsonNumber::Float(Double { bits })) if bits == 7.5f64.to_bits()
    ));
    assert_eq!(read("\"a\"").as_str(), Some("a"));
    let items = read("[1, [2], {\"x\": 3}]");
    let items = items.as_array().unwrap();
    assert_eq!(items.len(), 3);
    assert_eq!(items[0].as_u64(), Some(1));
    assert_eq!(items[1].as_array().unwrap()[0].as_u64(), Some(2));
    assert_eq!(items[2].get_u64("x"), Some(3));
}

#[test]
fn objects_are_walked_in_the_order_of_their_map() {
    let value: serde_json::Value = serde_json::from_str("{\"b\": 1, \"a\": 2}").unwrap();
    let expected: Vec<&String> = value.as_object().unwrap().keys().collect();
    let read = Json::from_value(&value);
    let keys: Vec<&String> = read.as_object().unwrap().iter().map(|e| &e.0).collect();
    assert_eq!(keys, expected);
}

#[test]
fn numbers_are_taken_as_serde_json_takes_them() {
    let texts = [
        "0", "1", "-1", "1.0", "1e3", "-0.0", "9223372036854775807", "9223372036854775808",
        "18446744073709551615", "18446744073709551616", "-9223372036854775808", "9007199254740993",
        "-9007199254740993", "\"5\"", "true", "null",
    ];
    for text in texts {
        let value: serde_json::Value = serde_json::from_str(text).unwrap();
        let json = Json::from_value(&value);
        assert_eq!(json.as_u64(), value.as_u64(), "{}", text);
        assert_eq!(json.as_i64(), value.as_i64(), "{}", text);
        assert_eq!(json.as_bool(), value.as_bool(), "{}", text);
        assert_eq!(json.as_str(), value.as_str(), "{}", text);
        assert_eq!(
            json.as_double().map(|d| d.bits),
            value.as_f64().map(|x| x.to_bits()),
            "{}",
            text
        );
    }
}

#[test]
fn fields_are_found() {
    let json = read("{\"mode\": \"auto\", \"value\": 12, \"low\": -3, \"on\": true}");
    assert_eq!(json.get_str("mode"), Some("auto"));
    assert_eq!(json.get_u64("value"), Some(12));
    assert_eq!(json.get_i64("low"), Some(-3));
    assert_eq!(json.get_bool("on"), Some(true));
    assert_eq!(json.get_u64("low"), None);
    assert!(json.get("missing").is_none());
    assert!(read("[1]").get("0").is_none());
}

#[test]
fn values_are_made_and_copied() {
    assert!(matches!(Json::from_i32(5), Json::Number(JsonNumber::PosInt(5))));
    assert!(matches!(Json::from_i32(-5), Json::Number(JsonNumber::NegInt(-5))));
    let finite = Json::from_double(Double { bits: 1.25f64.to_bits() });
    assert_eq!(finite.as_double(), Some(Double { bits: 1.25f64.to_bits() }));
    assert!(matches!(Json::from_double(Double { bits: f64::NAN.to_bits() }), Json::Null));
    assert!(matches!(Json::from_double(Double { bits: f64::INFINITY.to_bits() }), Json::Null));
    let json = read("{\"a\": [1, \"x\", {\"b\": null}]}");
    assert_eq!(format!("{:?}", json.clone()), format!("{:?}", json));
}
