use signalk_radar::config::{
    load_config, restore, restore_config, PluginConfig, RadarInstallationConfig, StoredConfig,
    StoredInstallation,
};
use signalk_radar::double::Double;
use signalk_radar::json::Json;
use signalk_radar::radar_provider::RadarProvider;
use signalk_radar::string_map::StringMap;

fn read(text: &str) -> Json {
    let value: serde_json::Value = serde_json::from_str(text).unwrap();
    Json::from_value(&value)
}

fn installed(bearing: Option<f64>, height: Option<i32>) -> RadarInstallationConfig {
    RadarInstallationConfig {
        bearing_alignment: bearing.map(|x| Double { bits: x.to_bits() }),
        antenna_height: height,
    }
}

fn config(entries: &[(&str, RadarInstallationConfig)]) -> PluginConfig {
    let mut radars = StringMap::new();
    for (id, c) in entries {
        radars.insert(id.to_string(), *c);
    }
    PluginConfig { radars }
}

fn stored(bearing: Option<&str>, height: Option<&str>) -> StoredInstallation {
    StoredInstallation { bearing_alignment: bearing.map(read), antenna_height: height.map(read) }
}

#[test]
fn a_saved_configuration_comes_back() {
    let saved = config(&[
        ("a", installed(Some(-12.5), Some(40))),
        ("b", installed(None, None)),
        ("c", installed(None, Some(3))),
        ("d", installed(None, Some(100))),
    ]);
    let loaded = load_config(Some(&saved.stored()));
    assert_eq!(loaded.radars.entries(), saved.radars.entries());
}

#[test]
fn the_categories_of_old_and_heights_out_of_range_are_migrated() {
    for (height, expected) in
        [(0, 2), (1, 5), (2, 15), (3, 3), (-7, 0), (101, 100), (i32::MIN, 0), (i32::MAX, 100)]
    {
        let saved = config(&[("x", installed(None, Some(height)))]);
        let loaded = load_config(Some(&saved.stored()));
        assert_eq!(loaded.radars.get("x").unwrap().antenna_height, Some(expected));
    }
}

#[test]
fn a_bearing_that_is_not_finite_is_lost() {
    let saved = config(&[("x", installed(Some(f64::NAN), None))]);
    let loaded = load_config(Some(&saved.stored()));
    assert_eq!(loaded.radars.get("x"), Some(&installed(None, None)));
}

#[test]
fn bearings_are_read_from_any_number() {
    assert_eq!(restore(&stored(Some("90"), None)), Ok(installed(Some(90.0), None)));
    assert_eq!(restore(&stored(Some("-90"), None)), Ok(installed(Some(-90.0), None)));
    assert_eq!(restore(&stored(Some("null"), None)), Ok(installed(None, None)));
    assert_eq!(
        restore(&stored(Some("true"), None)),
        Err("bearing alignment must be a number".to_string())
    );
    assert_eq!(
        restore(&stored(None, Some("[]"))),
        Err("antenna height must be a number".to_string())
    );
}

#[test]
fn one_value_that_cannot_be_read_spoils_the_configuration() {
    let mut radars = StringMap::new();
    radars.insert("a".to_string(), stored(None, Some("7")));
    radars.insert("b".to_string(), stored(None, Some("\"7\"")));
    let spoilt = StoredConfig { radars };
    assert_eq!(
        restore_config(&spoilt).unwrap_err(),
        "antenna height must be a number".to_string()
    );
    assert!(load_config(Some(&spoilt)).radars.entries().is_empty());
    assert!(load_config(None).radars.entries().is_empty());
    assert!(RadarProvider::new(Some(&spoilt)).config().radars.entries().is_empty());
}

#[test]
fn the_provider_saves_what_it_holds() {
    let mut provider = RadarProvider::new(None);
    provider.set_installation_config("x", installed(Some(1.5), Some(9)));
    let again = RadarProvider::new(Some(&provider.save_config()));
    assert_eq!(again.get_installation_config("x"), Some(&installed(Some(1.5), Some(9))));
    assert_eq!(again.config().clone().radars.entries(), provider.config().radars.entries());
}
