use signalk_radar::controls::{
    furuno_setting, low_i32, low_u32, low_u8, migrate_antenna_height, parse_compound_control,
    wrap_i32, ControlError, FurunoSetting, Sector,
};
use signalk_radar::double::Double;
use signalk_radar::json::Json;

fn read(text: &str) -> Json {
    let value: serde_json::Value = serde_json::from_str(text).unwrap();
    Json::from_value(&value)
}

fn setting(control: &str, value: &str) -> Option<FurunoSetting> {
    furuno_setting(control, &read(value)).ok()
}

fn refusal(control: &str, value: &str) -> String {
    match furuno_setting(control, &read(value)) {
        Err(ControlError::InvalidValue(why)) => why,
        other => panic!("{:?}", other),
    }
}

#[test]
fn integers_are_narrowed_as_casts_narrow_them() {
    for n in [0u64, 1, 255, 256, 4294967295, 4294967296, 2147483648, 6442450944, u64::MAX] {
        assert_eq!(low_u8(n), n as u8);
        assert_eq!(low_u32(n), n as u32);
        assert_eq!(low_i32(n), n as i32);
    }
    for n in [0i64, -1, 100, -100, 4294967297, -4294967297, 2147483648, i64::MIN, i64::MAX] {
        assert_eq!(wrap_i32(n), n as i32);
    }
}

#[test]
fn compound_values_are_numbers_or_objects() {
    let parse = |text: &str| parse_compound_control(&read(text)).ok();
    assert_eq!(parse("40"), Some((false, Some(40))));
    assert_eq!(parse("300"), Some((false, Some(44))));
    assert_eq!(parse("{\"mode\": \"auto\", \"value\": 7}"), Some((true, Some(7))));
    assert_eq!(parse("{\"mode\": \"manual\", \"value\": 7}"), Some((false, Some(7))));
    assert_eq!(parse("{\"value\": -7}"), Some((false, None)));
    assert_eq!(parse("{}"), Some((false, None)));
    for text in ["-1", "1.5", "\"auto\"", "[1]", "null", "true"] {
        match parse_compound_control(&read(text)) {
            Err(ControlError::InvalidValue(why)) => {
                assert_eq!(why, "Expected number or {mode, value} object");
            }
            other => panic!("{:?}", other),
        }
    }
}

#[test]
fn a_number_is_the_manual_mode() {
    assert_eq!(
        parse_compound_control(&read("31")).unwrap(),
        parse_compound_control(&read("{\"mode\": \"manual\", \"value\": 31}")).unwrap()
    );
}

#[test]
fn furuno_controls_become_settings() {
    assert_eq!(setting("beamSharpening", "3"), Some(FurunoSetting::Rezboost(3)));
    assert_eq!(
        setting("interferenceRejection", "true"),
        Some(FurunoSetting::InterferenceRejection(true))
    );
    assert_eq!(
        setting("interferenceRejection", "0"),
        Some(FurunoSetting::InterferenceRejection(false))
    );
    assert_eq!(
        setting("interferenceRejection", "2"),
        Some(FurunoSetting::InterferenceRejection(true))
    );
    assert_eq!(setting("scanSpeed", "4294967295"), Some(FurunoSetting::ScanSpeed(-1)));
    assert_eq!(setting("birdMode", "1"), Some(FurunoSetting::BirdMode(1)));
    assert_eq!(
        setting("dopplerMode", "{\"enabled\": true, \"mode\": \"rain\"}"),
        Some(FurunoSetting::TargetAnalyzer { enabled: true, mode: 1 })
    );
    assert_eq!(
        setting("dopplerMode", "5"),
        Some(FurunoSetting::TargetAnalyzer { enabled: false, mode: 0 })
    );
    assert_eq!(
        setting("bearingAlignment", "-12.5"),
        Some(FurunoSetting::BearingAlignment(Double { bits: (-12.5f64).to_bits() }))
    );
    assert_eq!(
        setting("bearingAlignment", "90"),
        Some(FurunoSetting::BearingAlignment(Double { bits: 90.0f64.to_bits() }))
    );
    assert_eq!(setting("noiseReduction", "false"), Some(FurunoSetting::NoiseReduction(false)));
    assert_eq!(setting("mainBangSuppression", "50"), Some(FurunoSetting::MainBangSuppression(50)));
    assert_eq!(setting("txChannel", "2"), Some(FurunoSetting::TxChannel(2)));
    assert_eq!(setting("autoAcquire", "true"), Some(FurunoSetting::AutoAcquire(true)));
    assert_eq!(
        setting("dopplerSpeed", "5.9"),
        Some(FurunoSetting::TargetAnalyzer { enabled: true, mode: 5 })
    );
    assert_eq!(setting("antennaHeight", "0"), Some(FurunoSetting::AntennaHeight(0)));
    assert_eq!(setting("antennaHeight", "100"), Some(FurunoSetting::AntennaHeight(100)));
}

#[test]
fn bearing_alignments_reach_half_a_turn_to_either_side() {
    for text in ["180", "-180", "180.0", "-180.0", "179.99", "0", "-0.0"] {
        let degrees: f64 = text.parse().unwrap();
        assert_eq!(
            setting("bearingAlignment", text),
            Some(FurunoSetting::BearingAlignment(Double { bits: degrees.to_bits() })),
            "{}",
            text
        );
    }
    for text in ["180.5", "-180.5", "180.00000000000003", "500", "-500", "1e300", "181"] {
        assert_eq!(
            refusal("bearingAlignment", text),
            "bearingAlignment must be -180 to 180 degrees",
            "{}",
            text
        );
    }
}

#[test]
fn zones_become_two_sectors() {
    let off = Sector { enabled: false, start: 0, end: 0 };
    assert_eq!(
        setting("noTransmitZones", "{\"zones\": []}"),
        Some(FurunoSetting::BlindSector { first: off, second: off })
    );
    assert_eq!(
        setting(
            "noTransmitZones",
            "{\"zones\": [{\"enabled\": true, \"start\": -10, \"end\": 20}, {\"start\": 5}, {}]}"
        ),
        Some(FurunoSetting::BlindSector {
            first: Sector { enabled: true, start: -10, end: 20 },
            second: Sector { enabled: false, start: 5, end: 0 },
        })
    );
    for value in ["{}", "[]", "{\"zones\": 1}"] {
        assert_eq!(
            refusal("noTransmitZones", value),
            "noTransmitZones must have a 'zones' array"
        );
    }
}

#[test]
fn unfit_values_are_refused() {
    assert_eq!(refusal("beamSharpening", "-1"), "beamSharpening must be a number");
    assert_eq!(refusal("beamSharpening", "1.5"), "beamSharpening must be a number");
    assert_eq!(
        refusal("interferenceRejection", "\"on\""),
        "interferenceRejection must be a boolean"
    );
    assert_eq!(refusal("scanSpeed", "null"), "scanSpeed must be a number");
    assert_eq!(refusal("birdMode", "true"), "birdMode must be a number (0-3)");
    assert_eq!(refusal("bearingAlignment", "\"1\""), "bearingAlignment must be a number");
    assert_eq!(refusal("noiseReduction", "1"), "noiseReduction must be a boolean");
    assert_eq!(refusal("mainBangSuppression", "[]"), "mainBangSuppression must be a number");
    assert_eq!(refusal("txChannel", "{}"), "txChannel must be a number");
    assert_eq!(refusal("autoAcquire", "1"), "autoAcquire must be a boolean");
    assert_eq!(refusal("dopplerSpeed", "false"), "dopplerSpeed must be a number");
    assert_eq!(refusal("antennaHeight", "1.5"), "antennaHeight must be a number (meters)");
    assert_eq!(refusal("antennaHeight", "101"), "antennaHeight must be 0-100 meters");
    assert_eq!(refusal("antennaHeight", "-1"), "antennaHeight must be 0-100 meters");
    assert_eq!(refusal("antennaHeight", "4294967301"), "antennaHeight must be 0-100 meters");
    assert_eq!(refusal("antennaHeight", "-4294967291"), "antennaHeight must be 0-100 meters");
    match furuno_setting("warpDrive", &read("1")) {
        Err(ControlError::ControlNotFound(id)) => assert_eq!(id, "warpDrive"),
        other => panic!("{:?}", other),
    }
}

#[test]
fn stored_antenna_heights_are_migrated() {
    let migrate = |text: &str| migrate_antenna_height(Some(&read(text)));
    assert_eq!(migrate_antenna_height(None), Ok(None));
    assert_eq!(migrate("0"), Ok(Some(2)));
    assert_eq!(migrate("1"), Ok(Some(5)));
    assert_eq!(migrate("2"), Ok(Some(15)));
    assert_eq!(migrate("3"), Ok(Some(3)));
    assert_eq!(migrate("100"), Ok(Some(100)));
    assert_eq!(migrate("101"), Ok(Some(100)));
    assert_eq!(migrate("-4"), Ok(Some(0)));
    assert_eq!(migrate("1.0"), Ok(Some(1)));
    assert_eq!(migrate("12.9"), Ok(Some(12)));
    assert_eq!(migrate("-0.5"), Ok(Some(0)));
    assert_eq!(migrate("1e300"), Ok(Some(100)));
    assert_eq!(migrate("18446744073709551615"), Ok(Some(100)));
    for text in ["\"3\"", "true", "[]", "{}"] {
        assert_eq!(migrate(text), Err("antenna height must be a number".to_string()));
    }
}
