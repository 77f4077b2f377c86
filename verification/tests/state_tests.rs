use signalk_radar::locator::{Brand, RadarDiscovery};
use signalk_radar::radar_state::{legend_color, radar_id_of, sanitize_string, RadarState};

fn discovery(brand: Brand, brand_name: &str, name: &str) -> RadarDiscovery {
    RadarDiscovery {
        brand,
        brand_name: brand_name.to_string(),
        name: name.to_string(),
        address: "172.31.3.212:10010".to_string(),
        model: Some("DRS4D-NXT (x)".to_string()),
        serial_number: None,
        spokes_per_revolution: 8192,
        max_spoke_len: 884,
        command_port: 10100,
        data_port: 10024,
    }
}

fn reference_color(i: u16) -> String {
    let (r, g, b) = if i == 0 {
        (0u8, 0u8, 0u8)
    } else if i <= 15 {
        let t = (i - 1) as f32 / 14.0;
        (0, (50.0 + t * 100.0) as u8, 0)
    } else if i <= 31 {
        let t = (i - 16) as f32 / 15.0;
        ((t * 200.0) as u8, (150.0 + t * 55.0) as u8, 0)
    } else if i <= 47 {
        let t = (i - 32) as f32 / 15.0;
        ((200.0 + t * 55.0) as u8, (180.0 - t * 100.0) as u8, 0)
    } else if i <= 63 {
        let t = (i - 48) as f32 / 15.0;
        (255u8, (80.0 - t * 80.0).max(0.0) as u8, 0)
    } else {
        (255u8, 0u8, 0u8)
    };
    format!("#{:02X}{:02X}{:02X}", r, g, b)
}

#[test]
fn unsafe_characters_are_dropped() {
    assert_eq!(sanitize_string("RD 003/212\"\u{0}\u{e9}-x_Y"), "RD003212-x_Y");
    assert_eq!(sanitize_string(""), "");
    assert_eq!(sanitize_string("abc-XYZ_09"), "abc-XYZ_09");
}

#[test]
fn sanitizing_twice_is_sanitizing_once() {
    let once = sanitize_string("a.b c\n-");
    assert_eq!(sanitize_string(&once), once);
}

#[test]
fn colors_follow_the_gradient() {
    for i in 0..256 {
        assert_eq!(legend_color(i), reference_color(i), "{}", i);
    }
    assert_eq!(legend_color(1), "#003200");
    assert_eq!(legend_color(15), "#009600");
    assert_eq!(legend_color(63), "#FF0000");
}

#[test]
fn a_discovery_gives_a_state() {
    let state = RadarState::from(&discovery(Brand::Furuno, "Furuno", "RD 003212"));
    assert_eq!(state.id, "Furuno-RD003212");
    assert_eq!(state.name, "RD003212");
    assert_eq!(state.brand, "Furuno");
    assert_eq!(state.model.as_deref(), Some("DRS4D-NXTx"));
    assert_eq!(state.status, "standby");
    assert_eq!(state.spokes_per_revolution, 512);
    assert_eq!(state.max_spoke_len, 884);
    assert!(state.stream_url.is_none());
    assert!(state.control_url.is_none());
    assert_eq!(state.legend.entries().len(), 256);
    for i in 0..256u16 {
        assert_eq!(state.legend.get(&i.to_string()).unwrap().color, reference_color(i));
    }
    assert!(state.legend.get("256").is_none());
    assert!(state.legend.get("00").is_none());
}

#[test]
fn only_furuno_spokes_are_reduced() {
    let state = RadarState::from(&discovery(Brand::Navico, "Navico", "HALO"));
    assert_eq!(state.spokes_per_revolution, 8192);
    assert_eq!(state.id, "Navico-HALO");
    assert_eq!(radar_id_of(&discovery(Brand::Garmin, "Garmin", "")), "Garmin-");
}

#[test]
fn the_basic_controls_are_status_and_power() {
    let state = RadarState::from(&discovery(Brand::Garmin, "Garmin", "x"));
    let keys: Vec<&str> = state.controls.entries().iter().map(|e| e.0.as_str()).collect();
    assert_eq!(keys, vec!["0", "1"]);
    let status = state.controls.get("0").unwrap();
    assert_eq!(status.get_str("name"), Some("Status"));
    assert_eq!(status.get_bool("isReadOnly"), Some(true));
    let power = state.controls.get("1").unwrap();
    assert_eq!(power.get_str("name"), Some("Power"));
    let valid = power.get("validValues").unwrap().as_array().unwrap();
    assert_eq!(valid.len(), 2);
    assert_eq!(valid[0].as_str(), Some("transmit"));
    assert_eq!(valid[1].as_str(), Some("standby"));
    let words = power.get("descriptions").unwrap();
    assert_eq!(words.get_str("transmit"), Some("Transmit"));
    assert_eq!(words.get_str("standby"), Some("Standby"));
}

#[test]
fn states_are_copied() {
    let state = RadarState::from(&discovery(Brand::Furuno, "Furuno", "x"));
    assert_eq!(format!("{:?}", state.clone()), format!("{:?}", state));
    let entry = state.legend.get("63").unwrap();
    assert_eq!(entry.clone().color, "#FF0000");
}
