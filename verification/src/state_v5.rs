//! The state of a radar with the values of its controls.

use crate::json::{Json, JsonNumber, JsonView};
use crate::locator::optional_text;
use crate::string_map::StringMap;
use vstd::prelude::*;

verus! {

/// What a radar's controller tells when it is asked.
#[derive(Debug)]
pub struct LiveReport {
    /// The values of the controls, where the controller knows them.
    pub controls: Option<StringMap<Json>>,
    pub firmware_version: Option<String>,
    pub operating_hours: Option<Json>,
}

/// The model of a report.
pub struct LiveView {
    pub controls: Option<Map<Seq<char>, JsonView>>,
    pub firmware_version: Option<Seq<char>>,
    pub operating_hours: Option<JsonView>,
}

impl View for LiveReport {
    type V = LiveView;

    open spec fn view(&self) -> LiveView {
        LiveView {
            controls: match self.controls {
                Some(c) => Some(c@),
                None => None,
            },
            firmware_version: optional_text(self.firmware_version),
            operating_hours: optional_json(self.operating_hours),
        }
    }
}

/// The model of a value that may be missing.
pub open spec fn optional_json(value: Option<Json>) -> Option<JsonView> {
    match value {
        Some(v) => Some(v@),
        None => None,
    }
}

/// The state of a radar with the values of its controls.
#[derive(Debug)]
pub struct RadarStateV5 {
    pub id: String,
    pub timestamp: String,
    pub status: String,
    pub controls: StringMap<Json>,
    pub disabled_controls: Vec<String>,
}

/// The model of such a state.
pub struct StateV5View {
    pub id: Seq<char>,
    pub timestamp: Seq<char>,
    pub status: Seq<char>,
    pub controls: Map<Seq<char>, JsonView>,
    pub disabled_controls: Seq<String>,
}

impl View for RadarStateV5 {
    type V = StateV5View;

    open spec fn view(&self) -> StateV5View {
        StateV5View {
            id: self.id@,
            timestamp: self.timestamp@,
            status: self.status@,
            controls: self.controls@,
            disabled_controls: self.disabled_controls@,
        }
    }
}

/// The value of a control that has a mode and a level.
pub open spec fn mode_and_level(mode: Seq<char>, level: u64) -> JsonView {
    JsonView::Object(
        seq![
            ("mode"@, JsonView::Text(mode)),
            ("value"@, JsonView::Number(JsonNumber::PosInt(level))),
        ],
    )
}

/// The values of the controls where no controller tells them.
pub open spec fn fallback_controls() -> Map<Seq<char>, JsonView> {
    Map::<Seq<char>, JsonView>::empty().insert("power"@, JsonView::Text("standby"@)).insert(
        "range"@,
        JsonView::Number(JsonNumber::PosInt(1852)),
    ).insert("gain"@, mode_and_level("auto"@, 50)).insert("sea"@, mode_and_level("auto"@, 50)).insert(
        "rain"@,
        mode_and_level("manual"@, 0),
    ).insert("noiseReduction"@, JsonView::Bool(false)).insert(
        "interferenceRejection"@,
        JsonView::Bool(false),
    )
}

fn mode_json(mode: &str, level: u64) -> (value: Json)
    ensures
        value@ == mode_and_level(mode@, level),
{
    let value = Json::Object(
        vec![
            ("mode".to_owned(), Json::from_text(mode)),
            ("value".to_owned(), Json::Number(JsonNumber::PosInt(level))),
        ],
    );
    proof {
        let v = value->Object_0@;
        assert(value@->Object_0 =~= seq![(v[0].0@, v[0].1@), (v[1].0@, v[1].1@)]);
        assert(value@->Object_0 =~= mode_and_level(mode@, level)->Object_0);
    }
    value
}

/// The values of the controls where no controller tells them.
pub fn default_values() -> (controls: StringMap<Json>)
    ensures
        controls@ == fallback_controls(),
{
    let mut controls: StringMap<Json> = StringMap::new();
    controls.insert("power".to_owned(), Json::from_text("standby"));
    controls.insert("range".to_owned(), Json::Number(JsonNumber::PosInt(1852)));
    controls.insert("gain".to_owned(), mode_json("auto", 50));
    controls.insert("sea".to_owned(), mode_json("auto", 50));
    controls.insert("rain".to_owned(), mode_json("manual", 0));
    controls.insert("noiseReduction".to_owned(), Json::Bool(false));
    controls.insert("interferenceRejection".to_owned(), Json::Bool(false));
    controls
}

/// `controls` with `value` under `key`, where there is a value.
pub open spec fn with_value(
    controls: Map<Seq<char>, JsonView>,
    key: Seq<char>,
    value: Option<JsonView>,
) -> Map<Seq<char>, JsonView> {
    match value {
        Some(v) => controls.insert(key, v),
        None => controls,
    }
}

/// Puts `value` under `key`, where there is a value.
pub fn put_value(controls: &mut StringMap<Json>, key: &str, value: Option<Json>)
    ensures
        final(controls)@ == with_value(old(controls)@, key@, optional_json(value)),
{
    if let Some(v) = value {
        controls.insert(key.to_owned(), v);
    }
}

/// The status that the values tell: that of the power control where it is a
/// text, else standing by.
pub open spec fn told_status(controls: Map<Seq<char>, JsonView>) -> Seq<char> {
    if controls.contains_key("power"@) {
        match controls["power"@].text() {
            Some(status) => status,
            None => "standby"@,
        }
    } else {
        "standby"@
    }
}

/// The status that the values tell.
pub fn status_of(controls: &StringMap<Json>) -> (status: String)
    ensures
        status@ == told_status(controls@),
{
    match controls.get("power") {
        Some(v) => match v.as_str() {
            Some(status) => status.to_owned(),
            None => "standby".to_owned(),
        },
        None => "standby".to_owned(),
    }
}

} // verus!
