use signalk_radar::commands::{
    choose_controller, Command, Controller, NavicoModel, RaymarineVariant,
};
use signalk_radar::config::{RadarInstallationConfig, StoredConfig, StoredInstallation};
use signalk_radar::controls::{ControlError, FurunoSetting};
use signalk_radar::double::Double;
use signalk_radar::features::{
    acquire_reply, dual_range_reply, ArpaEvent, CapabilityPlan, ModelInfo, SupportedFeature,
};
use signalk_radar::json::Json;
use signalk_radar::locator::{Brand, LocatorEvent, RadarDiscovery};
use signalk_radar::radar_provider::RadarProvider;
use signalk_radar::signalk_ffi::{HostCall, Measure};
use signalk_radar::spoke_receiver::{FrameReport, Packet, ParsedSpoke};
use signalk_radar::state_v5::LiveReport;
use signalk_radar::string_map::StringMap;

fn read(text: &str) -> Json {
    let value: serde_json::Value = serde_json::from_str(text).unwrap();
    Json::from_value(&value)
}

fn radar(brand: Brand, brand_name: &str, name: &str, model: Option<&str>) -> RadarDiscovery {
    RadarDiscovery {
        brand,
        brand_name: brand_name.to_string(),
        name: name.to_string(),
        address: "172.31.3.212:10010".to_string(),
        model: model.map(|m| m.to_string()),
        serial_number: None,
        spokes_per_revolution: 2048,
        max_spoke_len: 884,
        command_port: 10100,
        data_port: 10024,
    }
}

fn furuno() -> RadarDiscovery {
    radar(Brand::Furuno, "Furuno", "RD003212", None)
}

fn navico() -> RadarDiscovery {
    radar(Brand::Navico, "Navico", "HALO", Some("HALO24"))
}

fn provider(radars: Vec<RadarDiscovery>) -> RadarProvider {
    let mut provider = RadarProvider::new(None);
    provider.begin_poll();
    provider.poll(radars, &vec![]);
    provider.take_commands();
    provider
}

fn commands(provider: &mut RadarProvider) -> Vec<String> {
    provider.take_commands().iter().map(|c| format!("{:?}", c)).collect()
}

fn silence() -> LiveReport {
    LiveReport { controls: None, firmware_version: None, operating_hours: None }
}

const FURUNO: &str = "Furuno-RD003212";
const NAVICO: &str = "Navico-HALO";

#[test]
fn a_new_provider_knows_nothing() {
    let mut provider = RadarProvider::new(None);
    assert!(provider.get_radar_ids().is_empty());
    assert_eq!(provider.poll_count(), 0);
    assert!(provider.config().radars.entries().is_empty());
    assert!(provider.take_commands().is_empty());
    let mut radars = StringMap::new();
    radars.insert(
        "x".to_string(),
        StoredInstallation { bearing_alignment: None, antenna_height: Some(read("7")) },
    );
    let provider = RadarProvider::new(Some(&StoredConfig { radars }));
    assert_eq!(
        provider.get_installation_config("x"),
        Some(&RadarInstallationConfig { bearing_alignment: None, antenna_height: Some(7) })
    );
    assert_eq!(provider.get_installation_config("y"), None);
}

#[test]
fn polls_move_the_clock() {
    let mut provider = RadarProvider::new(None);
    provider.begin_poll();
    provider.begin_poll();
    assert_eq!(provider.poll_count(), 2);
    assert_eq!(provider.time(), 200);
}

#[test]
fn discovered_radars_are_emitted() {
    let mut provider = RadarProvider::new(None);
    let events = vec![
        LocatorEvent::Other,
        LocatorEvent::RadarDiscovered(furuno()),
        LocatorEvent::RadarDiscovered(navico()),
    ];
    let out = provider.poll(vec![furuno(), navico()], &events);
    let paths: Vec<&str> = out.iter().map(|e| e.path.as_str()).collect();
    assert_eq!(paths, vec!["radars.Furuno-RD003212", "radars.Navico-HALO"]);
    assert_eq!(out[0].state.id, FURUNO);
}

#[test]
fn new_radars_are_taken_under_control_once() {
    let mut provider = RadarProvider::new(None);
    provider.poll(vec![furuno(), navico()], &vec![]);
    let issued = provider.take_commands();
    assert_eq!(issued.len(), 4);
    assert!(matches!(issued[0], Command::ListenFuruno));
    match &issued[1] {
        Command::AddRadar { radar_id, controller: Controller::Furuno { address } } => {
            assert_eq!((radar_id.as_str(), address.as_str()), (FURUNO, "172.31.3.212"));
        }
        other => panic!("{:?}", other),
    }
    assert!(matches!(&issued[2], Command::AddRadar { radar_id, .. } if radar_id == NAVICO));
    match &issued[3] {
        Command::SetModelInfo { radar_id, model } => {
            assert_eq!((radar_id.as_str(), model.as_str()), (NAVICO, "HALO24"));
        }
        other => panic!("{:?}", other),
    }
    assert_eq!(provider.spoke_receiver().radar_count(), 1);
    provider.poll(vec![furuno(), navico()], &vec![]);
    assert!(provider.take_commands().is_empty());
    provider.poll(vec![], &vec![]);
    assert!(provider.contains(FURUNO));
    assert!(provider.get_radar_ids().is_empty());
}

#[test]
fn controllers_suit_their_radars() {
    let halo = choose_controller(&radar(Brand::Navico, "Navico", "x", Some("HALO 4G")));
    match halo {
        Controller::Navico { command_address, command_port, report_address, report_port, model } => {
            assert_eq!(command_address, "236.6.7.8");
            assert_eq!(command_port, 10100);
            assert_eq!(report_address, "236.6.7.9");
            assert_eq!(report_port, 6680);
            assert_eq!(model, NavicoModel::Halo);
        }
        other => panic!("{:?}", other),
    }
    let generation = |m: Option<&str>| match choose_controller(&radar(Brand::Navico, "N", "x", m)) {
        Controller::Navico { model, .. } => model,
        other => panic!("{:?}", other),
    };
    assert_eq!(generation(Some("Broadband 4G")), NavicoModel::Gen4);
    assert_eq!(generation(Some("Broadband 3G")), NavicoModel::Gen3);
    assert_eq!(generation(Some("BR24")), NavicoModel::BR24);
    assert_eq!(generation(Some("?")), NavicoModel::Gen4);
    assert_eq!(generation(None), NavicoModel::Gen4);
    let line = |m: Option<&str>| match choose_controller(&radar(Brand::Raymarine, "R", "x", m)) {
        Controller::Raymarine { address, command_port, data_port, variant, has_doppler } => {
            assert_eq!((address.as_str(), command_port, data_port), ("172.31.3.212", 10100, 10024));
            (variant, has_doppler)
        }
        other => panic!("{:?}", other),
    };
    assert_eq!(line(Some("Quantum 2 Q24D")), (RaymarineVariant::Quantum, true));
    assert_eq!(line(Some("Quantum Q24C")), (RaymarineVariant::Quantum, false));
    assert_eq!(line(Some("RD418")), (RaymarineVariant::RD, false));
    assert_eq!(line(None), (RaymarineVariant::RD, false));
    assert!(matches!(
        choose_controller(&radar(Brand::Garmin, "G", "x", None)),
        Controller::Garmin { address } if address == "172.31.3.212"
    ));
}

#[test]
fn a_furuno_controller_tells_the_model() {
    let mut provider = provider(vec![furuno(), navico()]);
    provider.controller_model(FURUNO, Some("DRS4D-NXT".to_string()));
    provider.controller_model(NAVICO, Some("other".to_string()));
    assert_eq!(provider.radars()[0].model.as_deref(), Some("DRS4D-NXT"));
    assert_eq!(provider.radars()[1].model.as_deref(), Some("HALO24"));
    provider.controller_model(FURUNO, None);
    assert_eq!(provider.radars()[0].model.as_deref(), Some("DRS4D-NXT"));
    assert_eq!(provider.get_radar_ids(), vec![FURUNO, NAVICO]);
}

#[test]
fn the_list_is_emitted_every_hundred_polls() {
    let mut provider = RadarProvider::new(None);
    provider.poll(vec![furuno()], &vec![]);
    let mut emitted = Vec::new();
    for _ in 0..200 {
        provider.begin_poll();
        let (line, list) = provider.finish_poll(17);
        assert_eq!(line.is_some(), !list.is_empty());
        if !list.is_empty() {
            emitted.push(provider.poll_count());
        }
    }
    assert_eq!(emitted, vec![100, 200]);
    let (line, list) = provider.finish_poll(17);
    assert_eq!(list[0].path, "radars.Furuno-RD003212");
    assert!(matches!(
        line,
        Some(HostCall::Debug { msg })
            if msg == "RadarProvider poll #200: 1 radars, 17 spokes emitted"
    ));
    assert_eq!(provider.emit_radar_list().len(), 1);
}

#[test]
fn radars_are_found_by_their_ids() {
    let provider = provider(vec![furuno(), navico()]);
    assert_eq!(provider.get_radar_info(NAVICO).unwrap().id, NAVICO);
    assert_eq!(provider.find_radar(FURUNO).unwrap().brand, Brand::Furuno);
    assert!(provider.get_radar_info("Navico-halo").is_none());
    assert!(provider.find_radar("").is_none());
}

#[test]
fn power_and_range_announce_to_furuno_radars() {
    let mut provider = provider(vec![furuno(), navico()]);
    assert!(provider.set_power(FURUNO, "transmit"));
    assert_eq!(
        commands(&mut provider),
        vec!["Announce", "SetPower { radar_id: \"Furuno-RD003212\", transmit: true }"]
    );
    assert!(provider.set_power(NAVICO, "off"));
    assert_eq!(
        commands(&mut provider),
        vec!["SetPower { radar_id: \"Navico-HALO\", transmit: false }"]
    );
    assert!(provider.set_range(FURUNO, 1852));
    assert_eq!(
        commands(&mut provider),
        vec!["Announce", "SetRange { radar_id: \"Furuno-RD003212\", range: 1852 }"]
    );
    assert!(!provider.set_range("none", 5));
    assert_eq!(commands(&mut provider), vec!["SetRange { radar_id: \"none\", range: 5 }"]);
}

#[test]
fn levels_have_a_default() {
    let mut provider = provider(vec![navico()]);
    assert!(provider.set_gain(NAVICO, true, None));
    assert!(provider.set_sea(NAVICO, false, Some(255)));
    assert!(provider.set_rain(NAVICO, false, Some(0)));
    assert!(!provider.set_gain("none", false, None));
    assert_eq!(
        commands(&mut provider),
        vec![
            "SetGain { radar_id: \"Navico-HALO\", value: 50, auto: true }",
            "SetSea { radar_id: \"Navico-HALO\", value: 255, auto: false }",
            "SetRain { radar_id: \"Navico-HALO\", value: 0, auto: false }",
            "SetGain { radar_id: \"none\", value: 50, auto: false }",
        ]
    );
}

#[test]
fn several_controls_are_set_one_after_the_other() {
    let mut provider = provider(vec![navico()]);
    let all = "{\"power\": \"transmit\", \"range\": 4294967297, \"gain\": {\"mode\": \"auto\"}, \
               \"sea\": 12, \"rain\": {\"value\": 300}}";
    assert!(provider.set_controls(NAVICO, &read(all)));
    let mut issued = commands(&mut provider);
    issued.sort();
    assert_eq!(
        issued,
        vec![
            "SetGain { radar_id: \"Navico-HALO\", value: 50, auto: true }",
            "SetPower { radar_id: \"Navico-HALO\", transmit: true }",
            "SetRain { radar_id: \"Navico-HALO\", value: 44, auto: false }",
            "SetRange { radar_id: \"Navico-HALO\", range: 1 }",
            "SetSea { radar_id: \"Navico-HALO\", value: 50, auto: false }",
        ]
    );
    assert!(!provider.set_controls(NAVICO, &read("{\"power\": 1, \"range\": 5}")));
    assert_eq!(
        commands(&mut provider),
        vec!["SetRange { radar_id: \"Navico-HALO\", range: 5 }"]
    );
    assert!(!provider.set_controls(NAVICO, &read("{\"range\": \"x\"}")));
    assert!(!provider.set_controls(NAVICO, &read("{\"birdMode\": 1}")));
    assert!(!provider.set_controls(NAVICO, &read("[1]")));
    assert!(provider.set_controls("none", &read("{}")));
    assert!(provider.take_commands().is_empty());
}

#[test]
fn one_extended_control_is_set_alike_alone_and_among_several() {
    let mut alone = provider(vec![furuno()]);
    assert!(alone.set_control_v5(FURUNO, "birdMode", &read("2")).is_ok());
    let mut among = provider(vec![furuno()]);
    assert!(among.set_controls(FURUNO, &read("{\"birdMode\": 2}")));
    assert_eq!(commands(&mut alone), commands(&mut among));
}

#[test]
fn basic_controls_are_set_on_every_radar() {
    let mut provider = provider(vec![navico()]);
    for (control, value) in
        [("power", "\"x\""), ("range", "9"), ("gain", "1"), ("sea", "{}"), ("rain", "3")]
    {
        assert!(provider.set_control_v5(NAVICO, control, &read(value)).is_ok());
    }
    assert_eq!(
        commands(&mut provider),
        vec![
            "SetPower { radar_id: \"Navico-HALO\", transmit: false }",
            "SetRange { radar_id: \"Navico-HALO\", range: 9 }",
            "SetGain { radar_id: \"Navico-HALO\", value: 1, auto: false }",
            "SetSea { radar_id: \"Navico-HALO\", value: 50, auto: false }",
            "SetRain { radar_id: \"Navico-HALO\", value: 3, auto: false }",
        ]
    );
}

#[test]
fn refused_controls_say_why() {
    let mut provider = provider(vec![furuno(), navico()]);
    let mut why = |id: &str, control: &str, value: &str| {
        match provider.set_control_v5(id, control, &read(value)) {
            Err(ControlError::InvalidValue(why)) => why,
            Err(ControlError::ControlNotFound(id)) => format!("no {}", id),
            Err(ControlError::RadarNotFound) => "no radar".to_string(),
            Err(ControlError::ControllerNotAvailable) => "no controller".to_string(),
            Ok(()) => "done".to_string(),
        }
    };
    assert_eq!(why("none", "power", "1"), "no radar");
    assert_eq!(why(NAVICO, "power", "1"), "power must be a string");
    assert_eq!(why(NAVICO, "range", "-1"), "range must be a number");
    assert_eq!(why(NAVICO, "gain", "null"), "Expected number or {mode, value} object");
    assert_eq!(why(NAVICO, "sea", "[]"), "Expected number or {mode, value} object");
    assert_eq!(why(NAVICO, "rain", "true"), "Expected number or {mode, value} object");
    assert_eq!(why(NAVICO, "birdMode", "1"), "no birdMode");
    assert_eq!(why(FURUNO, "nothing", "1"), "no nothing");
    assert_eq!(why(FURUNO, "birdMode", "\"1\""), "birdMode must be a number (0-3)");
    assert_eq!(why(FURUNO, "birdMode", "1"), "done");
    assert_eq!(
        commands(&mut provider),
        vec![
            "Announce",
            "Announce",
            "Announce",
            "Furuno { radar_id: \"Furuno-RD003212\", setting: BirdMode(1) }",
        ]
    );
}

#[test]
fn extended_controls_need_a_controller() {
    let mut provider = provider(vec![]);
    match provider.set_extended_control(FURUNO, "birdMode", &read("1")) {
        Err(ControlError::RadarNotFound) => {}
        other => panic!("{:?}", other),
    }
    assert!(provider.take_commands().is_empty());
    match provider.furuno_set_extended_control(FURUNO, "birdMode", &read("1")) {
        Err(ControlError::ControllerNotAvailable) => {}
        other => panic!("{:?}", other),
    }
    assert_eq!(commands(&mut provider), vec!["Announce"]);
}

#[test]
fn the_first_of_two_radars_with_one_id_gets_the_controller() {
    let mut twins = provider(vec![radar(Brand::Garmin, "Furuno", "RD003212", None), furuno()]);
    assert_eq!(twins.controller(FURUNO), Some(Brand::Garmin));
    match twins.set_control_v5(FURUNO, "birdMode", &read("1")) {
        Err(ControlError::ControlNotFound(_)) => {}
        other => panic!("{:?}", other),
    }
    assert!(twins.take_commands().is_empty());
    match twins.furuno_set_extended_control(FURUNO, "birdMode", &read("1")) {
        Err(ControlError::ControllerNotAvailable) => {}
        other => panic!("{:?}", other),
    }
}

#[test]
fn installation_values_are_stored_and_read_back() {
    let mut provider = provider(vec![furuno()]);
    assert!(provider.get_control(FURUNO, "antennaHeight", silence()).is_none());
    assert!(provider.set_control_v5(FURUNO, "antennaHeight", &read("12")).is_ok());
    assert!(provider.set_control_v5(FURUNO, "bearingAlignment", &read("-1.5")).is_ok());
    let issued = provider.take_commands();
    assert_eq!(issued.len(), 6);
    assert!(matches!(issued[2], Command::SaveConfig));
    assert!(matches!(
        issued[1],
        Command::Furuno { setting: FurunoSetting::AntennaHeight(12), .. }
    ));
    let bits = (-1.5f64).to_bits();
    assert_eq!(
        provider.get_installation_config(FURUNO),
        Some(&RadarInstallationConfig {
            bearing_alignment: Some(Double { bits }),
            antenna_height: Some(12)
        })
    );
    let height = provider.get_control(FURUNO, "antennaHeight", silence()).unwrap();
    assert_eq!(height.as_u64(), Some(12));
    let bearing = provider.get_control(FURUNO, "bearingAlignment", silence()).unwrap();
    assert_eq!(bearing.as_double(), Some(Double { bits }));
    assert!(provider.set_control_v5(FURUNO, "antennaHeight", &read("101")).is_err());
    assert!(provider.set_control_v5(FURUNO, "antennaHeight", &read("4294967301")).is_err());
    assert!(provider.set_control_v5(FURUNO, "bearingAlignment", &read("180.5")).is_err());
    assert!(provider.set_control_v5(FURUNO, "bearingAlignment", &read("500")).is_err());
    assert_eq!(commands(&mut provider), vec!["Announce"; 4]);
    let height = provider.get_control(FURUNO, "antennaHeight", silence()).unwrap();
    assert_eq!(height.as_u64(), Some(12));
    let bearing = provider.get_control(FURUNO, "bearingAlignment", silence()).unwrap();
    assert_eq!(bearing.as_double(), Some(Double { bits }));
    assert!(provider.set_control_v5(FURUNO, "bearingAlignment", &read("180")).is_ok());
    assert!(provider.set_control_v5(FURUNO, "bearingAlignment", &read("-180")).is_ok());
}

#[test]
fn the_default_values_stand_in_for_a_silent_controller() {
    let provider = provider(vec![navico()]);
    let state = provider.get_state_v5(NAVICO, silence()).unwrap();
    assert_eq!(state.id, NAVICO);
    assert_eq!(state.timestamp, "2025-01-01T00:00:00Z");
    assert_eq!(state.status, "standby");
    assert!(state.disabled_controls.is_empty());
    let keys: Vec<&str> = state.controls.entries().iter().map(|e| e.0.as_str()).collect();
    assert_eq!(
        keys,
        vec!["gain", "interferenceRejection", "noiseReduction", "power", "rain", "range", "sea"]
    );
    assert_eq!(state.controls.get("power").unwrap().as_str(), Some("standby"));
    assert_eq!(state.controls.get("range").unwrap().as_u64(), Some(1852));
    assert_eq!(state.controls.get("gain").unwrap().get_str("mode"), Some("auto"));
    assert_eq!(state.controls.get("gain").unwrap().get_u64("value"), Some(50));
    assert_eq!(state.controls.get("sea").unwrap().get_str("mode"), Some("auto"));
    assert_eq!(state.controls.get("sea").unwrap().get_u64("value"), Some(50));
    assert_eq!(state.controls.get("rain").unwrap().get_str("mode"), Some("manual"));
    assert_eq!(state.controls.get("rain").unwrap().get_u64("value"), Some(0));
    assert_eq!(state.controls.get("noiseReduction").unwrap().as_bool(), Some(false));
    assert_eq!(state.controls.get("interferenceRejection").unwrap().as_bool(), Some(false));
    assert!(provider.get_state_v5("none", silence()).is_none());
    assert!(provider.get_control("none", "power", silence()).is_none());
}

#[test]
fn live_values_are_told() {
    let mut serial = furuno();
    serial.serial_number = Some("S1".to_string());
    let provider = provider(vec![serial, navico()]);
    let live = || {
        let mut controls = StringMap::new();
        controls.insert("power".to_string(), Json::from_text("transmit"));
        LiveReport {
            controls: Some(controls),
            firmware_version: Some("1.2".to_string()),
            operating_hours: Some(read("17.5")),
        }
    };
    let state = provider.get_state_v5(FURUNO, live()).unwrap();
    assert_eq!(state.status, "transmit");
    let keys: Vec<&str> = state.controls.entries().iter().map(|e| e.0.as_str()).collect();
    assert_eq!(keys, vec!["firmwareVersion", "operatingHours", "power", "serialNumber"]);
    assert_eq!(state.controls.get("firmwareVersion").unwrap().as_str(), Some("1.2"));
    assert_eq!(state.controls.get("serialNumber").unwrap().as_str(), Some("S1"));
    let state = provider.get_state_v5(NAVICO, live()).unwrap();
    let keys: Vec<&str> = state.controls.entries().iter().map(|e| e.0.as_str()).collect();
    assert_eq!(keys, vec!["power"]);
}

#[test]
fn a_status_that_is_no_text_is_standby() {
    let provider = provider(vec![navico()]);
    let mut controls = StringMap::new();
    controls.insert("power".to_string(), read("1"));
    let live =
        LiveReport { controls: Some(controls), firmware_version: None, operating_hours: None };
    assert_eq!(provider.get_state_v5(NAVICO, live).unwrap().status, "standby");
}

#[test]
fn capabilities_are_planned() {
    let provider = provider(vec![furuno(), navico()]);
    let info = Some(ModelInfo { has_dual_range: true, max_spoke_length: 1024 });
    let told = Some("DRS4D-NXT".to_string());
    let subject = provider.capability_subject(FURUNO, told.clone()).unwrap();
    assert_eq!(subject.model, told);
    match provider.get_capabilities(FURUNO, told, info) {
        Some(CapabilityPlan::FromModel {
            radar_id,
            features,
            spokes_per_revolution,
            max_spoke_length,
        }) => {
            assert_eq!(radar_id, FURUNO);
            assert_eq!(
                features,
                vec![
                    SupportedFeature::Arpa,
                    SupportedFeature::GuardZones,
                    SupportedFeature::Trails,
                    SupportedFeature::DualRange
                ]
            );
            assert_eq!((spokes_per_revolution, max_spoke_length), (512, 1024));
        }
        other => panic!("{:?}", other),
    }
    match provider.get_capabilities(FURUNO, None, info) {
        Some(CapabilityPlan::FromDiscovery { discovery, features, .. }) => {
            assert_eq!(discovery.model, None);
            assert_eq!(features.len(), 3);
        }
        other => panic!("{:?}", other),
    }
    match provider.get_capabilities(NAVICO, Some("x".to_string()), info) {
        Some(CapabilityPlan::FromDiscovery { discovery, features, .. }) => {
            assert_eq!(discovery.model.as_deref(), Some("HALO24"));
            assert_eq!(features.len(), 4);
        }
        other => panic!("{:?}", other),
    }
    let plain = Some(ModelInfo { has_dual_range: false, max_spoke_length: 1024 });
    match provider.get_capabilities(NAVICO, None, plain) {
        Some(CapabilityPlan::FromDiscovery { features, .. }) => assert_eq!(features.len(), 3),
        other => panic!("{:?}", other),
    }
    assert!(provider.get_capabilities("none", None, info).is_none());
}

#[test]
fn targets_are_told_of_known_radars() {
    let provider = provider(vec![navico()]);
    assert_eq!(provider.get_targets(NAVICO, Vec::<u32>::new()), Some(vec![]));
    assert_eq!(provider.get_targets("none", Vec::<u32>::new()), None);
    assert_eq!(provider.get_targets("none", vec![4u32]), Some(vec![4]));
}

#[test]
fn targets_are_acquired_at_sound_positions() {
    let mut provider = provider(vec![navico()]);
    provider.begin_poll();
    let double = |x: f64| Double { bits: x.to_bits() };
    let request = provider.acquire_target(NAVICO, double(359.9), double(0.1)).unwrap();
    assert_eq!(request.radar_id, NAVICO);
    assert_eq!(request.bearing, double(359.9));
    assert_eq!(request.distance, double(0.1));
    assert_eq!(request.timestamp, 200);
    assert!(provider.acquire_target(NAVICO, double(-0.0), double(5.0)).is_ok());
    assert!(provider.acquire_target(NAVICO, double(f64::NAN), double(f64::NAN)).is_ok());
    for (bearing, distance) in [(-0.1, 1.0), (360.0, 1.0), (1e9, -1.0)] {
        assert_eq!(
            provider.acquire_target(NAVICO, double(bearing), double(distance)).unwrap_err(),
            "bearing must be 0-360"
        );
    }
    for distance in [0.0, -0.0, -3.0] {
        assert_eq!(
            provider.acquire_target(NAVICO, double(1.0), double(distance)).unwrap_err(),
            "distance must be positive"
        );
    }
    assert_eq!(acquire_reply(Some(3)), Ok(3));
    assert_eq!(
        acquire_reply(None),
        Err("max targets reached or radar not found".to_string())
    );
}

#[test]
fn settings_for_targets_need_a_controller() {
    let provider = provider(vec![navico()]);
    assert_eq!(provider.set_arpa_settings(NAVICO), Ok(()));
    assert_eq!(provider.set_arpa_settings("none"), Err("radar not found".to_string()));
}

#[test]
fn events_of_targets_are_published() {
    let provider = provider(vec![furuno()]);
    let measure = |x: f64| Measure {
        exact: serde_json::Value::from(x),
        rounded: format!("{:.0}", x),
    };
    let events = vec![
        ArpaEvent::TargetAcquired { target_id: 1 },
        ArpaEvent::CollisionWarning {
            target_id: 2,
            state: "alarm".to_string(),
            cpa: measure(120.4),
            tcpa: measure(300.0),
        },
        ArpaEvent::TargetUpdate,
        ArpaEvent::TargetLost { target_id: 2 },
    ];
    let calls = provider.process_arpa_events("Furuno.1", &events);
    assert_eq!(calls.len(), 2);
    match &calls[0] {
        HostCall::PublishNotification { path, value } => {
            assert_eq!(
                path,
                "notifications.navigation.closestApproach.radar:Furuno-1:target:2"
            );
            assert_eq!(
                value,
                "{\"data\":{\"cpa\":120.4,\"targetId\":2,\"tcpa\":300.0},\
                 \"message\":\"Collision warning: CPA 120m in 300s\",\
                 \"method\":[\"visual\",\"sound\"],\"state\":\"alarm\"}"
            );
        }
        other => panic!("{:?}", other),
    }
    match &calls[1] {
        HostCall::PublishNotification { value, .. } => assert_eq!(
            value,
            "{\"data\":{\"cpa\":0.0,\"targetId\":2,\"tcpa\":0.0},\
             \"message\":\"Target no longer dangerous\",\
             \"method\":[\"visual\",\"sound\"],\"state\":\"normal\"}"
        ),
        other => panic!("{:?}", other),
    }
}

#[test]
fn a_second_range_needs_a_radar_that_has_two() {
    assert_eq!(RadarProvider::set_dual_range_config(true), Ok(()));
    assert_eq!(
        RadarProvider::set_dual_range_config(false),
        Err("Radar does not support dual-range".to_string())
    );
    assert_eq!(dual_range_reply(true, 5), Ok(()));
    assert_eq!(
        dual_range_reply(false, 66672),
        Err("Secondary range 66672 exceeds maximum".to_string())
    );
}

#[test]
fn shutting_down_ends_reception() {
    let mut provider = provider(vec![furuno()]);
    assert!(provider.shutdown().is_none());
    assert_eq!(provider.spoke_receiver().radar_count(), 0);
    assert!(provider.contains(FURUNO));
}

#[test]
fn requests_concern_one_radar() {
    let mut provider = provider(vec![furuno(), navico()]);
    let installed = RadarInstallationConfig { bearing_alignment: None, antenna_height: Some(9) };
    provider.set_installation_config(NAVICO, installed);
    provider.take_commands();
    let several = "{\"antennaHeight\": 4, \"power\": \"transmit\", \"nothing\": 1}";
    assert!(!provider.set_controls(FURUNO, &read(several)));
    for command in commands(&mut provider) {
        assert!(!command.contains(NAVICO), "{}", command);
    }
    assert_eq!(provider.get_installation_config(NAVICO), Some(&installed));
    assert_eq!(provider.get_installation_config(FURUNO).unwrap().antenna_height, Some(4));
    assert_eq!(provider.get_radar_ids(), vec![FURUNO, NAVICO]);
}

#[test]
fn spokes_are_received_over_the_provider() {
    let mut provider = provider(vec![furuno()]);
    let (step, _) = provider.spoke_receiver().start_furuno().unwrap();
    let (step, _) = provider.listen_reply(step, 7, 10024, "239.255.0.2");
    let (step, _) = provider.listen_reply(step.unwrap(), 0, 10024, "239.255.0.2");
    let (step, call) = provider.listen_reply(step.unwrap(), 0, 10024, "239.255.0.2");
    assert!(step.is_none() && call.is_none());
    assert_eq!(provider.spoke_receiver().furuno_socket(), Some(7));
    let spokes = (0..32)
        .map(|angle| ParsedSpoke { angle, heading: None, data: vec![angle as u8] })
        .collect();
    let frame = FrameReport {
        len: 400,
        spoke_frame: true,
        range: Some(926),
        spokes: Some(spokes),
        prev_spoke: vec![],
    };
    let packet = Packet { data: vec![5], addr: "172.31.3.212".to_string() };
    let (frames, lines) = provider.poll_spokes(vec![packet]);
    assert_eq!(frames, vec![(vec![5], 0)]);
    assert!(lines.is_empty());
    let (batch, line) = provider.process_frame(0, frame);
    assert!(line.is_none());
    let batch = batch.unwrap();
    assert_eq!(batch.radar_id, FURUNO);
    assert_eq!(batch.range, 926);
    assert_eq!(batch.spokes[1].data, vec![31]);
    assert!(provider.batch_emitted(&batch, true).is_none());
    assert!(provider.batch_emitted(&batch, false).is_some());
    assert!(matches!(provider.shutdown(), Some(HostCall::UdpClose { socket: 7 })));
}
