//! Control requests: what a client may ask of a radar, and what is asked of
//! the radar's controller in turn.

use crate::double::Double;
use crate::json::{entry_under, integer_json, Json, JsonView};
use crate::text::str_eq;
use vstd::prelude::*;

verus! {

// ---------------------------------------------------------------------------
// Narrowing of integers
// ---------------------------------------------------------------------------

/// The 32 low bits of an integer as a signed number.
pub open spec fn wrapped_i32(n: int) -> int {
    let low = n % 0x1_0000_0000;
    if low < 0x8000_0000 {
        low
    } else {
        low - 0x1_0000_0000
    }
}

/// The eight low bits.
pub fn low_u8(n: u64) -> (low: u8)
    ensures
        low == n % 256,
{
    (n % 256) as u8
}

/// The 32 low bits.
pub fn low_u32(n: u64) -> (low: u32)
    ensures
        low == n % 0x1_0000_0000,
{
    (n % 0x1_0000_0000) as u32
}

/// The 32 low bits as a signed number.
pub fn low_i32(n: u64) -> (low: i32)
    ensures
        low == wrapped_i32(n as int),
{
    let low: u64 = n % 0x1_0000_0000;
    if low < 0x8000_0000 {
        low as i32
    } else {
        (low as i64 - 0x1_0000_0000) as i32
    }
}

/// The 32 low bits of a signed number, as a signed number.
pub fn wrap_i32(n: i64) -> (low: i32)
    ensures
        low == wrapped_i32(n as int),
{
    let shifted: u64 = (n as i128 + 0x8000_0000_0000_0000) as u64;
    assert((n + 0x8000_0000_0000_0000) % 0x1_0000_0000 == n as int % 0x1_0000_0000);
    low_i32(shifted)
}

// ---------------------------------------------------------------------------
// Errors
// ---------------------------------------------------------------------------

/// Why a control request was refused. `S` is text.
#[derive(Debug)]
pub enum ControlError<S> {
    /// There is no such radar.
    RadarNotFound,
    /// The radar has no controller that could carry the request out.
    ControllerNotAvailable,
    /// The value does not fit the control.
    InvalidValue(S),
    /// The radar has no such control.
    ControlNotFound(S),
}

impl View for ControlError<String> {
    type V = ControlError<Seq<char>>;

    open spec fn view(&self) -> ControlError<Seq<char>> {
        match *self {
            ControlError::RadarNotFound => ControlError::RadarNotFound,
            ControlError::ControllerNotAvailable => ControlError::ControllerNotAvailable,
            ControlError::InvalidValue(s) => ControlError::InvalidValue(s@),
            ControlError::ControlNotFound(s) => ControlError::ControlNotFound(s@),
        }
    }
}

/// The model of the outcome of a request.
pub open spec fn outcome_view<T>(outcome: Result<T, ControlError<String>>) -> Result<
    T,
    ControlError<Seq<char>>,
> {
    match outcome {
        Ok(value) => Ok(value),
        Err(error) => Err(error@),
    }
}

/// The refusal of a value, with what is wrong with it.
fn invalid(why: &str) -> (error: ControlError<String>)
    ensures
        error@ == ControlError::<Seq<char>>::InvalidValue(why@),
{
    ControlError::InvalidValue(why.to_owned())
}

// ---------------------------------------------------------------------------
// Compound controls
// ---------------------------------------------------------------------------

/// What a compound value asks for: whether the radar adjusts itself, and a
/// level, of which the eight low bits count. A number alone is a level that is
/// set by hand.
pub open spec fn compound_control(value: JsonView) -> Result<
    (bool, Option<u8>),
    ControlError<Seq<char>>,
> {
    match value.unsigned() {
        Some(n) => Ok((false, Some((n % 256) as u8))),
        None => match value.entries() {
            Some(_) => Ok((
                value.field_text("mode"@) == Some("auto"@),
                level_field(value),
            )),
            None => Err(
                ControlError::InvalidValue("Expected number or {mode, value} object"@),
            ),
        },
    }
}

/// The level in the field `value`: the eight low bits of a number.
pub open spec fn level_field(value: JsonView) -> Option<u8> {
    match value.field_unsigned("value"@) {
        Some(n) => Some((n % 256) as u8),
        None => None,
    }
}

/// The level in the field `value`.
pub fn get_level(value: &Json) -> (level: Option<u8>)
    ensures
        level == level_field(value@),
{
    match value.get_u64("value") {
        Some(n) => Some(low_u8(n)),
        None => None,
    }
}

/// Whether the field `mode` asks the radar to adjust itself.
pub fn get_auto(value: &Json) -> (auto: bool)
    ensures
        auto == (value@.field_text("mode"@) == Some("auto"@)),
{
    match value.get_str("mode") {
        Some(mode) => str_eq(mode, "auto"),
        None => false,
    }
}

/// Reads a compound value: a number, or an object with a mode and a value.
pub fn parse_compound_control(value: &Json) -> (parsed: Result<
    (bool, Option<u8>),
    ControlError<String>,
>)
    ensures
        outcome_view(parsed) == compound_control(value@),
{
    if let Some(n) = value.as_u64() {
        return Ok((false, Some(low_u8(n))));
    }
    if value.as_object().is_some() {
        return Ok((get_auto(value), get_level(value)));
    }
    Err(invalid("Expected number or {mode, value} object"))
}

// ---------------------------------------------------------------------------
// Furuno settings
// ---------------------------------------------------------------------------

/// The largest bearing alignment to either side, in degrees.
pub const MAX_BEARING_ALIGNMENT: u64 = 180;

/// A setting of a Furuno controller.
#[derive(Clone, Copy, PartialEq, Eq, Structural, Debug)]
pub enum FurunoSetting {
    /// How much echoes are narrowed.
    Rezboost(i32),
    InterferenceRejection(bool),
    ScanSpeed(i32),
    BirdMode(i32),
    /// Whether targets are analysed, and in which mode.
    TargetAnalyzer { enabled: bool, mode: i32 },
    /// Degrees, from -180 to 180.
    BearingAlignment(Double),
    NoiseReduction(bool),
    /// Percent.
    MainBangSuppression(i32),
    TxChannel(i32),
    AutoAcquire(bool),
    /// Metres, from 0 to 100.
    AntennaHeight(i32),
    /// Two sectors in which nothing is transmitted.
    BlindSector { first: Sector, second: Sector },
}

/// A sector in which nothing is transmitted, in degrees.
#[derive(Clone, Copy, PartialEq, Eq, Structural, Debug)]
pub struct Sector {
    pub enabled: bool,
    pub start: i32,
    pub end: i32,
}

/// The 32 low bits of an unsigned value, or the refusal of any other.
pub open spec fn level_or(value: JsonView, why: Seq<char>) -> Result<i32, ControlError<Seq<char>>> {
    match value.unsigned() {
        Some(n) => Ok(wrapped_i32(n as int) as i32),
        None => Err(ControlError::InvalidValue(why)),
    }
}

/// A Boolean value, or the refusal of any other.
pub open spec fn truth_or(value: JsonView, why: Seq<char>) -> Result<bool, ControlError<Seq<char>>> {
    match value.truth() {
        Some(b) => Ok(b),
        None => Err(ControlError::InvalidValue(why)),
    }
}

/// The signed integer of a field, of which the 32 low bits count, or 0.
pub open spec fn field_degrees(value: JsonView, key: Seq<char>) -> i32 {
    match value.field_signed(key) {
        Some(n) => wrapped_i32(n as int) as i32,
        None => 0,
    }
}

/// The sector that item `i` of `zones` describes: what is missing is off or 0.
pub open spec fn zone_sector(zones: Seq<JsonView>, i: int) -> Sector {
    if i < zones.len() {
        Sector {
            enabled: zones[i].field_truth("enabled"@) == Some(true),
            start: field_degrees(zones[i], "start"@),
            end: field_degrees(zones[i], "end"@),
        }
    } else {
        Sector { enabled: false, start: 0, end: 0 }
    }
}

/// The setting that a request asks of a Furuno controller, or why it is
/// refused.
pub open spec fn requested_setting(control_id: Seq<char>, value: JsonView) -> Result<
    FurunoSetting,
    ControlError<Seq<char>>,
> {
    if control_id == "beamSharpening"@ {
        match level_or(value, "beamSharpening must be a number"@) {
            Ok(n) => Ok(FurunoSetting::Rezboost(n)),
            Err(e) => Err(e),
        }
    } else if control_id == "interferenceRejection"@ {
        match (value.truth(), value.unsigned()) {
            (Some(b), _) => Ok(FurunoSetting::InterferenceRejection(b)),
            (None, Some(n)) => Ok(FurunoSetting::InterferenceRejection(n != 0)),
            (None, None) => Err(
                ControlError::InvalidValue("interferenceRejection must be a boolean"@),
            ),
        }
    } else if control_id == "scanSpeed"@ {
        match level_or(value, "scanSpeed must be a number"@) {
            Ok(n) => Ok(FurunoSetting::ScanSpeed(n)),
            Err(e) => Err(e),
        }
    } else if control_id == "birdMode"@ {
        match level_or(value, "birdMode must be a number (0-3)"@) {
            Ok(n) => Ok(FurunoSetting::BirdMode(n)),
            Err(e) => Err(e),
        }
    } else if control_id == "dopplerMode"@ {
        Ok(
            FurunoSetting::TargetAnalyzer {
                enabled: value.field_truth("enabled"@) == Some(true),
                mode: if value.field_text("mode"@) == Some("rain"@) {
                    1
                } else {
                    0
                },
            },
        )
    } else if control_id == "bearingAlignment"@ {
        match value.double() {
            Some(degrees) => if degrees.magnitude_at_most(MAX_BEARING_ALIGNMENT as nat) {
                Ok(FurunoSetting::BearingAlignment(degrees))
            } else {
                Err(ControlError::InvalidValue("bearingAlignment must be -180 to 180 degrees"@))
            },
            None => Err(ControlError::InvalidValue("bearingAlignment must be a number"@)),
        }
    } else if control_id == "noiseReduction"@ {
        match truth_or(value, "noiseReduction must be a boolean"@) {
            Ok(b) => Ok(FurunoSetting::NoiseReduction(b)),
            Err(e) => Err(e),
        }
    } else if control_id == "mainBangSuppression"@ {
        match level_or(value, "mainBangSuppression must be a number"@) {
            Ok(n) => Ok(FurunoSetting::MainBangSuppression(n)),
            Err(e) => Err(e),
        }
    } else if control_id == "txChannel"@ {
        match level_or(value, "txChannel must be a number"@) {
            Ok(n) => Ok(FurunoSetting::TxChannel(n)),
            Err(e) => Err(e),
        }
    } else if control_id == "autoAcquire"@ {
        match truth_or(value, "autoAcquire must be a boolean"@) {
            Ok(b) => Ok(FurunoSetting::AutoAcquire(b)),
            Err(e) => Err(e),
        }
    } else if control_id == "dopplerSpeed"@ {
        match value.double() {
            Some(speed) => Ok(
                FurunoSetting::TargetAnalyzer { enabled: true, mode: speed.truncated() as i32 },
            ),
            None => Err(ControlError::InvalidValue("dopplerSpeed must be a number"@)),
        }
    } else if control_id == "antennaHeight"@ {
        match value.signed() {
            Some(n) => if 0 <= n <= 100 {
                Ok(FurunoSetting::AntennaHeight(n as i32))
            } else {
                Err(ControlError::InvalidValue("antennaHeight must be 0-100 meters"@))
            },
            None => Err(ControlError::InvalidValue("antennaHeight must be a number (meters)"@)),
        }
    } else if control_id == "noTransmitZones"@ {
        match value.field("zones"@) {
            Some(JsonView::Array(zones)) => Ok(
                FurunoSetting::BlindSector {
                    first: zone_sector(zones, 0),
                    second: zone_sector(zones, 1),
                },
            ),
            _ => Err(ControlError::InvalidValue("noTransmitZones must have a 'zones' array"@)),
        }
    } else {
        Err(ControlError::ControlNotFound(control_id))
    }
}

fn level(value: &Json, why: &str) -> (n: Result<i32, ControlError<String>>)
    ensures
        outcome_view(n) == level_or(value@, why@),
{
    match value.as_u64() {
        Some(n) => Ok(low_i32(n)),
        None => Err(invalid(why)),
    }
}

fn truth(value: &Json, why: &str) -> (b: Result<bool, ControlError<String>>)
    ensures
        outcome_view(b) == truth_or(value@, why@),
{
    match value.as_bool() {
        Some(b) => Ok(b),
        None => Err(invalid(why)),
    }
}

fn degrees(value: &Json, key: &str) -> (n: i32)
    ensures
        n == field_degrees(value@, key@),
{
    match value.get_i64(key) {
        Some(n) => wrap_i32(n),
        None => 0,
    }
}

fn enabled(value: &Json) -> (on: bool)
    ensures
        on == (value@.field_truth("enabled"@) == Some(true)),
{
    match value.get_bool("enabled") {
        Some(b) => b,
        None => false,
    }
}

fn sector(zones: &Vec<Json>, i: usize) -> (sector: Sector)
    ensures
        sector == zone_sector(zones@.map_values(|z: Json| z@), i as int),
{
    if i < zones.len() {
        Sector {
            enabled: enabled(&zones[i]),
            start: degrees(&zones[i], "start"),
            end: degrees(&zones[i], "end"),
        }
    } else {
        Sector { enabled: false, start: 0, end: 0 }
    }
}

/// Reads a request for a Furuno controller: the setting that it asks for, or
/// why it is refused.
pub fn furuno_setting(control_id: &str, value: &Json) -> (setting: Result<
    FurunoSetting,
    ControlError<String>,
>)
    ensures
        outcome_view(setting) == requested_setting(control_id@, value@),
{
    if str_eq(control_id, "beamSharpening") {
        match level(value, "beamSharpening must be a number") {
            Ok(n) => Ok(FurunoSetting::Rezboost(n)),
            Err(e) => Err(e),
        }
    } else if str_eq(control_id, "interferenceRejection") {
        if let Some(b) = value.as_bool() {
            Ok(FurunoSetting::InterferenceRejection(b))
        } else if let Some(n) = value.as_u64() {
            Ok(FurunoSetting::InterferenceRejection(n != 0))
        } else {
            Err(invalid("interferenceRejection must be a boolean"))
        }
    } else if str_eq(control_id, "scanSpeed") {
        match level(value, "scanSpeed must be a number") {
            Ok(n) => Ok(FurunoSetting::ScanSpeed(n)),
            Err(e) => Err(e),
        }
    } else if str_eq(control_id, "birdMode") {
        match level(value, "birdMode must be a number (0-3)") {
            Ok(n) => Ok(FurunoSetting::BirdMode(n)),
            Err(e) => Err(e),
        }
    } else if str_eq(control_id, "dopplerMode") {
        let rain = match value.get_str("mode") {
            Some(mode) => str_eq(mode, "rain"),
            None => false,
        };
        Ok(
            FurunoSetting::TargetAnalyzer {
                enabled: enabled(value),
                mode: if rain {
                    1
                } else {
                    0
                },
            },
        )
    } else if str_eq(control_id, "bearingAlignment") {
        match value.as_double() {
            Some(degrees) => if degrees.is_magnitude_at_most(MAX_BEARING_ALIGNMENT) {
                Ok(FurunoSetting::BearingAlignment(degrees))
            } else {
                Err(invalid("bearingAlignment must be -180 to 180 degrees"))
            },
            None => Err(invalid("bearingAlignment must be a number")),
        }
    } else if str_eq(control_id, "noiseReduction") {
        match truth(value, "noiseReduction must be a boolean") {
            Ok(b) => Ok(FurunoSetting::NoiseReduction(b)),
            Err(e) => Err(e),
        }
    } else if str_eq(control_id, "mainBangSuppression") {
        match level(value, "mainBangSuppression must be a number") {
            Ok(n) => Ok(FurunoSetting::MainBangSuppression(n)),
            Err(e) => Err(e),
        }
    } else if str_eq(control_id, "txChannel") {
        match level(value, "txChannel must be a number") {
            Ok(n) => Ok(FurunoSetting::TxChannel(n)),
            Err(e) => Err(e),
        }
    } else if str_eq(control_id, "autoAcquire") {
        match truth(value, "autoAcquire must be a boolean") {
            Ok(b) => Ok(FurunoSetting::AutoAcquire(b)),
            Err(e) => Err(e),
        }
    } else if str_eq(control_id, "dopplerSpeed") {
        match value.as_double() {
            Some(speed) => Ok(
                FurunoSetting::TargetAnalyzer { enabled: true, mode: speed.truncate() },
            ),
            None => Err(invalid("dopplerSpeed must be a number")),
        }
    } else if str_eq(control_id, "antennaHeight") {
        match value.as_i64() {
            Some(n) => if 0 <= n && n <= 100 {
                Ok(FurunoSetting::AntennaHeight(n as i32))
            } else {
                Err(invalid("antennaHeight must be 0-100 meters"))
            },
            None => Err(invalid("antennaHeight must be a number (meters)")),
        }
    } else if str_eq(control_id, "noTransmitZones") {
        let zones = match value.get("zones") {
            Some(z) => z.as_array(),
            None => None,
        };
        match zones {
            Some(z) => {
                Ok(FurunoSetting::BlindSector { first: sector(z, 0), second: sector(z, 1) })
            },
            None => Err(invalid("noTransmitZones must have a 'zones' array")),
        }
    } else {
        Err(ControlError::ControlNotFound(control_id.to_owned()))
    }
}

// ---------------------------------------------------------------------------
// Antenna heights
// ---------------------------------------------------------------------------

/// A height within the range from 0 to 100 metres.
pub open spec fn clamped_height(n: int) -> i32 {
    if n < 0 {
        0
    } else if n > 100 {
        100
    } else {
        n as i32
    }
}

/// The antenna height in metres that a stored value stands for. The integers
/// 0, 1 and 2 are categories from before heights were stored in metres.
pub open spec fn migrated_height(stored: Option<JsonView>) -> Result<Option<i32>, Seq<char>> {
    match stored {
        None => Ok(None),
        Some(JsonView::Number(n)) => match n.signed() {
            Some(i) => Ok(
                Some(
                    if i == 0 {
                        2
                    } else if i == 1 {
                        5
                    } else if i == 2 {
                        15
                    } else {
                        clamped_height(i as int)
                    },
                ),
            ),
            None => Ok(Some(clamped_height(n.double().truncated()))),
        },
        Some(_) => Err("antenna height must be a number"@),
    }
}

fn clamp_height(n: i64) -> (metres: i32)
    ensures
        metres == clamped_height(n as int),
{
    if n < 0 {
        0
    } else if n > 100 {
        100
    } else {
        n as i32
    }
}

/// The antenna height in metres that a stored value stands for, or why it
/// stands for none.
pub fn migrate_antenna_height(stored: Option<&Json>) -> (metres: Result<Option<i32>, String>)
    ensures
        match metres {
            Ok(m) => migrated_height(
                match stored {
                    Some(j) => Some(j@),
                    None => None,
                },
            ) == Ok::<Option<i32>, Seq<char>>(m),
            Err(why) => migrated_height(
                match stored {
                    Some(j) => Some(j@),
                    None => None,
                },
            ) == Err::<Option<i32>, Seq<char>>(why@),
        },
{
    match stored {
        None => Ok(None),
        Some(Json::Number(n)) => match n.as_i64() {
            Some(i) => Ok(
                Some(
                    if i == 0 {
                        2
                    } else if i == 1 {
                        5
                    } else if i == 2 {
                        15
                    } else {
                        clamp_height(i)
                    },
                ),
            ),
            None => Ok(Some(clamp_height(n.to_double().truncate() as i64))),
        },
        Some(_) => Err("antenna height must be a number".to_owned()),
    }
}

// ---------------------------------------------------------------------------
// Laws
// ---------------------------------------------------------------------------

/// The low bits of an integer as a signed number differ from it by a multiple of
/// what is cut off, and lie in the range of `i32`; so an integer in that range
/// is left as it is.
pub proof fn law_wrapped(n: int)
    ensures
        -0x8000_0000 <= wrapped_i32(n) < 0x8000_0000,
        (n - wrapped_i32(n)) % 0x1_0000_0000 == 0,
        -0x8000_0000 <= n < 0x8000_0000 ==> wrapped_i32(n) == n,
{
}

/// Whatever was stored, a migrated antenna height is within 0 to 100 metres.
pub proof fn law_migrated_height_range(stored: Option<JsonView>, metres: i32)
    requires
        migrated_height(stored) == Ok::<Option<i32>, Seq<char>>(Some(metres)),
    ensures
        0 <= metres <= 100,
{
}

/// A requested antenna height is never out of range.
pub proof fn law_requested_height_range(control_id: Seq<char>, value: JsonView, metres: i32)
    requires
        requested_setting(control_id, value) == Ok::<FurunoSetting, ControlError<Seq<char>>>(
            FurunoSetting::AntennaHeight(metres),
        ),
    ensures
        0 <= metres <= 100,
{
}

/// A requested bearing alignment is never out of range.
pub proof fn law_requested_bearing_range(control_id: Seq<char>, value: JsonView, degrees: Double)
    requires
        requested_setting(control_id, value) == Ok::<FurunoSetting, ControlError<Seq<char>>>(
            FurunoSetting::BearingAlignment(degrees),
        ),
    ensures
        degrees.magnitude_at_most(MAX_BEARING_ALIGNMENT as nat),
{
}

/// A number alone and an object that asks for the manual mode with that number
/// are the same request.
pub proof fn law_number_is_manual_mode(n: u64)
    ensures
        compound_control(integer_json(n as int)) == compound_control(
            JsonView::Object(
                seq![
                    ("mode"@, JsonView::Text("manual"@)),
                    ("value"@, integer_json(n as int)),
                ],
            ),
        ),
{
    let entries = seq![
        ("mode"@, JsonView::Text("manual"@)),
        ("value"@, integer_json(n as int)),
    ];
    reveal_strlit("mode");
    reveal_strlit("value");
    reveal_strlit("auto");
    reveal_strlit("manual");
    assert("mode"@.len() != "value"@.len());
    assert("auto"@.len() != "manual"@.len());
    assert(entry_under(entries, "mode"@) == Some(entries[0].1));
    assert(entries.skip(1)[0] == entries[1]);
    assert(entry_under(entries.skip(1), "value"@) == Some(entries[1].1));
    assert(entry_under(entries, "value"@) == Some(entries[1].1));
}

} // verus!
