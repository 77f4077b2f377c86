//! What a request for a control asks of a radar, by what the request says.

use crate::commands::{Command, CommandView};
use crate::config::RadarInstallationConfig;
use crate::controls::{
    law_wrapped, requested_setting, wrapped_i32, ControlError, FurunoSetting, Sector,
};
use crate::double::{law_integer_magnitudes, lemma_nearest_bits_bound, Double};
use crate::json::{
    holds, integer_json, lacks, law_field_kinds, law_fields, law_integers_are_read_back, JsonNumber,
    JsonView,
};
use crate::locator::Brand;
use crate::radar_provider::ProviderView;
use vstd::prelude::*;

verus! {

// ---------------------------------------------------------------------------
// Names
// ---------------------------------------------------------------------------

/// The names of the controls are all different.
pub proof fn lemma_names_differ()
    ensures
        "power"@.len() == 5,
        "range"@.len() == 5,
        "gain"@.len() == 4,
        "sea"@.len() == 3,
        "rain"@.len() == 4,
        "power"@ != "range"@,
        "gain"@ != "rain"@,
        "beamSharpening"@.len() == 14,
        "interferenceRejection"@.len() == 21,
        "scanSpeed"@.len() == 9,
        "birdMode"@.len() == 8,
        "dopplerMode"@.len() == 11,
        "bearingAlignment"@.len() == 16,
        "noiseReduction"@.len() == 14,
        "mainBangSuppression"@.len() == 19,
        "txChannel"@.len() == 9,
        "autoAcquire"@.len() == 11,
        "dopplerSpeed"@.len() == 12,
        "antennaHeight"@.len() == 13,
        "noTransmitZones"@.len() == 15,
        "beamSharpening"@ != "noiseReduction"@,
        "scanSpeed"@ != "txChannel"@,
        "dopplerMode"@ != "autoAcquire"@,
{
    reveal_strlit("power");
    reveal_strlit("range");
    reveal_strlit("gain");
    reveal_strlit("sea");
    reveal_strlit("rain");
    reveal_strlit("beamSharpening");
    reveal_strlit("interferenceRejection");
    reveal_strlit("scanSpeed");
    reveal_strlit("birdMode");
    reveal_strlit("dopplerMode");
    reveal_strlit("bearingAlignment");
    reveal_strlit("noiseReduction");
    reveal_strlit("mainBangSuppression");
    reveal_strlit("txChannel");
    reveal_strlit("autoAcquire");
    reveal_strlit("dopplerSpeed");
    reveal_strlit("antennaHeight");
    reveal_strlit("noTransmitZones");
    assert("power"@[0] == 'p' && "range"@[0] == 'r');
    assert("gain"@[0] == 'g' && "rain"@[0] == 'r');
    assert("beamSharpening"@[0] == 'b' && "noiseReduction"@[0] == 'n');
    assert("scanSpeed"@[0] == 's' && "txChannel"@[0] == 't');
    assert("dopplerMode"@[0] == 'd' && "autoAcquire"@[0] == 'a');
}

/// The words that requests are made of are all different.
pub proof fn lemma_words_differ()
    ensures
        "transmit"@ != "standby"@,
        "auto"@ != "manual"@,
        "mode"@ != "value"@,
        "rain"@ != "target"@,
        "enabled"@ != "start"@,
        "enabled"@ != "end"@,
        "start"@ != "end"@,
        "enabled"@ != "mode"@,
{
    reveal_strlit("transmit");
    reveal_strlit("standby");
    reveal_strlit("auto");
    reveal_strlit("manual");
    reveal_strlit("mode");
    reveal_strlit("value");
    reveal_strlit("rain");
    reveal_strlit("target");
    reveal_strlit("enabled");
    reveal_strlit("start");
    reveal_strlit("end");
    assert("transmit"@.len() == 8 && "standby"@.len() == 7);
    assert("auto"@.len() == 4 && "manual"@.len() == 6);
    assert("mode"@.len() == 4 && "value"@.len() == 5);
    assert("rain"@.len() == 4 && "target"@.len() == 6);
    assert("enabled"@.len() == 7 && "start"@.len() == 5 && "end"@.len() == 3);
}

// ---------------------------------------------------------------------------
// Power
// ---------------------------------------------------------------------------

/// A request issues `command` behind what was to be done, and before it, for a
/// Furuno radar, one announcement; it changes nothing else.
pub open spec fn issues_announced(
    before: ProviderView,
    after: ProviderView,
    id: Seq<char>,
    command: CommandView,
) -> bool {
    &&& after.outbox == before.outbox + if before.controller(id) == Some(Brand::Furuno) {
        seq![Command::Announce, command]
    } else {
        seq![command]
    }
    &&& after == ProviderView { outbox: after.outbox, ..before }
}

/// A request issues `command` alone behind what was to be done, and changes
/// nothing else.
pub open spec fn issues_alone(
    before: ProviderView,
    after: ProviderView,
    command: CommandView,
) -> bool {
    &&& after.outbox == before.outbox + seq![command]
    &&& after == ProviderView { outbox: after.outbox, ..before }
}

proof fn lemma_issues_announced(p: ProviderView, id: Seq<char>, command: CommandView)
    ensures
        issues_announced(p, p.announcing(id).issuing(command), id, command),
{
    let after = p.announcing(id).issuing(command);
    if p.controller(id) == Some(Brand::Furuno) {
        assert(after.outbox =~= p.outbox + seq![Command::Announce, command]);
    } else {
        assert(after.outbox =~= p.outbox + seq![command]);
    }
}

proof fn lemma_issues_alone(p: ProviderView, command: CommandView)
    ensures
        issues_alone(p, p.issuing(command), command),
{
    assert(p.issuing(command).outbox =~= p.outbox + seq![command]);
}

proof fn lemma_one_entry(
    provider: ProviderView,
    id: Seq<char>,
    control_id: Seq<char>,
    value: JsonView,
)
    ensures
        provider.after_entries(id, seq![(control_id, value)]) == provider.after_entry(
            id,
            control_id,
            value,
        ),
{
    let entries = seq![(control_id, value)];
    assert(entries.drop_last() =~= Seq::<(Seq<char>, JsonView)>::empty());
    assert(provider.after_entries(id, entries.drop_last()) == (provider, true));
}

// ---------------------------------------------------------------------------
// Power and range
// ---------------------------------------------------------------------------

/// A request for power has the radar transmit where, and only where, the state
/// it names is `transmit`; one for `standby` has it stand by. However it is
/// made, it asks the same.
pub proof fn law_power(provider: ProviderView, id: Seq<char>, state: Seq<char>, transmit: bool)
    requires
        transmit <==> state == "transmit"@,
    ensures
        state == "standby"@ ==> !transmit,
        issues_announced(
            provider,
            provider.after_power(id, state),
            id,
            Command::SetPower { radar_id: id, transmit },
        ),
        provider.located(id) is Some ==> issues_announced(
            provider,
            provider.after_control(id, "power"@, JsonView::Text(state)).0,
            id,
            Command::SetPower { radar_id: id, transmit },
        ),
        issues_announced(
            provider,
            provider.after_entries(id, seq![("power"@, JsonView::Text(state))]).0,
            id,
            Command::SetPower { radar_id: id, transmit },
        ),
{
    lemma_names_differ();
    lemma_words_differ();
    lemma_one_entry(provider, id, "power"@, JsonView::Text(state));
    lemma_issues_announced(provider, id, Command::SetPower { radar_id: id, transmit });
}

/// A request for a range asks the radar for that many metres, however it is
/// made. Of a number that is too large the 32 low bits count.
pub proof fn law_range(provider: ProviderView, id: Seq<char>, range: u32, high: u32)
    ensures
        issues_announced(
            provider,
            provider.after_range(id, range),
            id,
            Command::SetRange { radar_id: id, range },
        ),
        ({
            let value = integer_json(high * 0x1_0000_0000 + range);
            &&& provider.located(id) is Some ==> issues_announced(
                provider,
                provider.after_control(id, "range"@, value).0,
                id,
                Command::SetRange { radar_id: id, range },
            )
            &&& issues_announced(
                provider,
                provider.after_entries(id, seq![("range"@, value)]).0,
                id,
                Command::SetRange { radar_id: id, range },
            )
        }),
{
    let n: int = high * 0x1_0000_0000 + range;
    let value = integer_json(n);
    lemma_names_differ();
    lemma_one_entry(provider, id, "range"@, value);
    lemma_issues_announced(provider, id, Command::SetRange { radar_id: id, range });
    assert(n as u64 % 0x1_0000_0000 == range);
}

// ---------------------------------------------------------------------------
// Gain and clutter
// ---------------------------------------------------------------------------

/// The command that sets the gain, or the suppression of sea or of rain
/// clutter, by the name of the control.
pub open spec fn level_command(
    control_id: Seq<char>,
    id: Seq<char>,
    value: i32,
    auto: bool,
) -> CommandView {
    if control_id == "gain"@ {
        Command::SetGain { radar_id: id, value, auto }
    } else if control_id == "sea"@ {
        Command::SetSea { radar_id: id, value, auto }
    } else {
        Command::SetRain { radar_id: id, value, auto }
    }
}

/// After a direct request for the gain, or for the suppression of sea or of rain
/// clutter, by the name of the control.
pub open spec fn after_level(
    provider: ProviderView,
    control_id: Seq<char>,
    id: Seq<char>,
    auto: bool,
    value: Option<u8>,
) -> ProviderView {
    if control_id == "gain"@ {
        provider.after_gain(id, auto, value)
    } else if control_id == "sea"@ {
        provider.after_sea(id, auto, value)
    } else {
        provider.after_rain(id, auto, value)
    }
}

/// A level that is asked for is the level that is set; where none is asked for,
/// it is 50. Whether the radar adjusts itself is passed on.
pub proof fn law_direct_levels(
    provider: ProviderView,
    control_id: Seq<char>,
    id: Seq<char>,
    auto: bool,
    level: u8,
)
    ensures
        issues_alone(
            provider,
            after_level(provider, control_id, id, auto, Some(level)),
            level_command(control_id, id, level as i32, auto),
        ),
        issues_alone(
            provider,
            after_level(provider, control_id, id, auto, None),
            level_command(control_id, id, 50, auto),
        ),
{
    lemma_issues_alone(provider, level_command(control_id, id, level as i32, auto));
    lemma_issues_alone(provider, level_command(control_id, id, 50, auto));
}

/// A request for the gain, or for the suppression of sea or of rain clutter,
/// with a mode and a level sets that level, and has the radar adjust itself
/// where, and only where, the mode is `auto`. Made alone or as one entry of a
/// request for several controls, it asks the same. Of a level that is too large
/// the eight low bits count.
pub proof fn law_mode_and_level(
    provider: ProviderView,
    id: Seq<char>,
    control_id: Seq<char>,
    value: JsonView,
    mode: Seq<char>,
    level: u8,
    high: u32,
)
    requires
        provider.located(id) is Some,
        control_id == "gain"@ || control_id == "sea"@ || control_id == "rain"@,
        holds(value, "mode"@, JsonView::Text(mode)),
        holds(value, "value"@, JsonView::Number(JsonNumber::PosInt((high * 256 + level) as u64))),
    ensures
        ({
            let command = level_command(control_id, id, level as i32, mode == "auto"@);
            &&& issues_alone(provider, provider.after_control(id, control_id, value).0, command)
            &&& issues_alone(
                provider,
                provider.after_entries(id, seq![(control_id, value)]).0,
                command,
            )
        }),
{
    let n = (high * 256 + level) as u64;
    lemma_names_differ();
    law_field_kinds(value, "mode"@, mode, true, 0, 0);
    law_field_kinds(value, "value"@, mode, true, n, 0);
    lemma_one_entry(provider, id, control_id, value);
    lemma_issues_alone(provider, level_command(control_id, id, level as i32, mode == "auto"@));
    assert(n % 256 == level);
}

/// What a request for the gain, or for the suppression of sea or of rain
/// clutter, leaves out: without a mode, or with one that is no text, the radar
/// does not adjust itself; without a level, or with one that is no integer or a
/// negative one, the level is 50.
pub proof fn law_mode_or_level_left_out(
    provider: ProviderView,
    id: Seq<char>,
    control_id: Seq<char>,
    value: JsonView,
    mode: Seq<char>,
    level: u8,
    other: JsonView,
)
    requires
        provider.located(id) is Some,
        control_id == "gain"@ || control_id == "sea"@ || control_id == "rain"@,
        value is Object,
    ensures
        (lacks(value, "mode"@) || holds(value, "mode"@, other) && !(other is Text)) && holds(
            value,
            "value"@,
            JsonView::Number(JsonNumber::PosInt(level as u64)),
        ) ==> issues_alone(
            provider,
            provider.after_control(id, control_id, value).0,
            level_command(control_id, id, level as i32, false),
        ),
        (lacks(value, "value"@) || holds(value, "value"@, other) && !(other is Number
            && other->Number_0 is PosInt)) && holds(value, "mode"@, JsonView::Text(mode)) ==> issues_alone(
            provider,
            provider.after_control(id, control_id, value).0,
            level_command(control_id, id, 50, mode == "auto"@),
        ),
        provider.after_entries(id, seq![(control_id, value)]).0 == provider.after_control(
            id,
            control_id,
            value,
        ).0,
{
    lemma_names_differ();
    law_field_kinds(value, "mode"@, mode, true, 0, 0);
    law_field_kinds(value, "value"@, mode, true, level as u64, 0);
    law_fields(value, "mode"@);
    law_fields(value, "value"@);
    lemma_one_entry(provider, id, control_id, value);
    lemma_issues_alone(provider, level_command(control_id, id, level as i32, false));
    lemma_issues_alone(provider, level_command(control_id, id, 50, mode == "auto"@));
}

/// A number alone as the gain, or as the suppression of sea or of rain clutter,
/// is a level that is set by hand, of which the eight low bits count. As an
/// entry of a request for several controls it tells no level, so that it is 50.
pub proof fn law_level_alone(
    provider: ProviderView,
    id: Seq<char>,
    control_id: Seq<char>,
    level: u8,
    high: u32,
)
    requires
        provider.located(id) is Some,
        control_id == "gain"@ || control_id == "sea"@ || control_id == "rain"@,
    ensures
        ({
            let value = integer_json(high * 256 + level);
            &&& issues_alone(
                provider,
                provider.after_control(id, control_id, value).0,
                level_command(control_id, id, level as i32, false),
            )
            &&& issues_alone(
                provider,
                provider.after_entries(id, seq![(control_id, value)]).0,
                level_command(control_id, id, 50, false),
            )
        }),
{
    let n: int = high * 256 + level;
    lemma_names_differ();
    lemma_one_entry(provider, id, control_id, integer_json(n));
    lemma_issues_alone(provider, level_command(control_id, id, level as i32, false));
    lemma_issues_alone(provider, level_command(control_id, id, 50, false));
    assert(n as u64 % 256 == level);
}

// ---------------------------------------------------------------------------
// Outcomes
// ---------------------------------------------------------------------------

/// A value that a basic control takes: a text for power, an integer that is not
/// negative for the range, and such an integer or an object for the others.
pub open spec fn suits(control_id: Seq<char>, value: JsonView) -> bool {
    if control_id == "power"@ {
        value is Text
    } else if control_id == "range"@ {
        value is Number && value->Number_0 is PosInt
    } else {
        value is Object || value is Number && value->Number_0 is PosInt
    }
}

/// A request for a basic control succeeds where the radar is known, the value
/// suits the control and the radar has a controller. A value that does not suit
/// is refused as such before anything is asked of the radar; one that suits is
/// passed on even where there is no controller, and answered with that.
pub proof fn law_basic_outcomes(
    provider: ProviderView,
    id: Seq<char>,
    control_id: Seq<char>,
    value: JsonView,
)
    requires
        ({
            ||| control_id == "power"@
            ||| control_id == "range"@
            ||| control_id == "gain"@
            ||| control_id == "sea"@
            ||| control_id == "rain"@
        }),
    ensures
        ({
            let (after, outcome) = provider.after_control(id, control_id, value);
            &&& outcome is Ok <==> provider.located(id) is Some && suits(control_id, value)
                && provider.manages(id)
            &&& provider.located(id) is None ==> outcome->Err_0 is RadarNotFound
            &&& provider.located(id) is Some && !suits(control_id, value) ==> {
                &&& after == provider
                &&& control_id == "power"@ ==> outcome->Err_0 == ControlError::InvalidValue(
                    "power must be a string"@,
                )
                &&& control_id == "range"@ ==> outcome->Err_0 == ControlError::InvalidValue(
                    "range must be a number"@,
                )
                &&& control_id != "power"@ && control_id != "range"@ ==> outcome->Err_0
                    == ControlError::InvalidValue("Expected number or {mode, value} object"@)
            }
            &&& provider.located(id) is Some && suits(control_id, value) && !provider.manages(id)
                ==> outcome->Err_0 is ControllerNotAvailable
            &&& provider.located(id) is Some && suits(control_id, value) ==> after.outbox.len()
                > provider.outbox.len()
        }),
        ({
            let (after, ok) = provider.after_entries(id, seq![(control_id, value)]);
            &&& control_id == "power"@ || control_id == "range"@ ==> (ok <==> suits(
                control_id,
                value,
            ) && provider.manages(id))
            &&& control_id != "power"@ && control_id != "range"@ ==> (ok <==> provider.manages(id))
            &&& ok ==> after.outbox.len() > provider.outbox.len()
        }),
{
    lemma_names_differ();
    lemma_one_entry(provider, id, control_id, value);
}

// ---------------------------------------------------------------------------
// Extended controls
// ---------------------------------------------------------------------------

/// A Furuno radar that is known and has a controller.
pub open spec fn furuno_ready(provider: ProviderView, id: Seq<char>) -> bool {
    &&& provider.located(id) is Some
    &&& provider.radars[provider.located(id)->0].brand == Brand::Furuno
    &&& provider.controller(id) == Some(Brand::Furuno)
}

/// A request succeeds, announces the plugin to the radar, asks it for `setting`,
/// and stores nothing.
pub open spec fn asks_for(
    provider: ProviderView,
    id: Seq<char>,
    control_id: Seq<char>,
    value: JsonView,
    setting: FurunoSetting,
) -> bool {
    let (after, outcome) = provider.after_control(id, control_id, value);
    &&& outcome is Ok
    &&& after.outbox == provider.outbox + seq![
        Command::Announce,
        Command::Furuno { radar_id: id, setting },
    ]
    &&& after == ProviderView { outbox: after.outbox, ..provider }
}

/// A request is refused with `error`, after the radar was announced to, and
/// nothing else comes of it.
pub open spec fn refuses(
    provider: ProviderView,
    id: Seq<char>,
    control_id: Seq<char>,
    value: JsonView,
    error: ControlError<Seq<char>>,
) -> bool {
    let (after, outcome) = provider.after_control(id, control_id, value);
    &&& outcome == Err::<(), ControlError<Seq<char>>>(error)
    &&& after.outbox == provider.outbox + seq![Command::Announce]
    &&& after == ProviderView { outbox: after.outbox, ..provider }
}

proof fn lemma_asks_for(
    p: ProviderView,
    id: Seq<char>,
    control_id: Seq<char>,
    value: JsonView,
)
    requires
        furuno_ready(p, id),
        control_id.len() > 5,
    ensures
        requested_setting(control_id, value) matches Ok(setting) ==> {
            ||| setting is BearingAlignment
            ||| setting is AntennaHeight
            ||| asks_for(p, id, control_id, value, setting)
        },
        requested_setting(control_id, value) matches Err(error) ==> refuses(
            p,
            id,
            control_id,
            value,
            error,
        ),
{
    lemma_names_differ();
    let announced = p.issuing(Command::Announce);
    assert(announced.outbox =~= p.outbox + seq![Command::Announce]);
    if let Ok(setting) = requested_setting(control_id, value) {
        let command = Command::Furuno { radar_id: id, setting };
        assert(announced.issuing(command).outbox =~= p.outbox + seq![Command::Announce, command]);
    }
}

/// The sector that a zone describes, where it is an object with all three
/// fields.
pub open spec fn describes(zone: JsonView, sector: Sector) -> bool {
    &&& holds(zone, "enabled"@, JsonView::Bool(sector.enabled))
    &&& holds(zone, "start"@, integer_json(sector.start as int))
    &&& holds(zone, "end"@, integer_json(sector.end as int))
}

/// The zones of a request become the sectors that are sent, each in its place:
/// the first zone is the first sector and the second zone the second, each with
/// what it says of being enabled, its start and its end. A zone that is not
/// there is off, and zones behind the second do not count.
pub proof fn law_no_transmit_zones(
    provider: ProviderView,
    id: Seq<char>,
    value: JsonView,
    zones: Seq<JsonView>,
    first: Sector,
    second: Sector,
)
    requires
        furuno_ready(provider, id),
        holds(value, "zones"@, JsonView::Array(zones)),
        zones.len() > 0 ==> describes(zones[0], first),
        zones.len() > 1 ==> describes(zones[1], second),
        zones.len() == 0 ==> first == (Sector { enabled: false, start: 0, end: 0 }),
        zones.len() <= 1 ==> second == (Sector { enabled: false, start: 0, end: 0 }),
    ensures
        asks_for(
            provider,
            id,
            "noTransmitZones"@,
            value,
            FurunoSetting::BlindSector { first, second },
        ),
{
    lemma_names_differ();
    law_fields(value, "zones"@);
    lemma_asks_for(provider, id, "noTransmitZones"@, value);
    if zones.len() > 0 {
        lemma_described(zones[0], first);
    }
    if zones.len() > 1 {
        lemma_described(zones[1], second);
    }
}

/// To swap the two zones of a request swaps the two sectors that are sent.
pub proof fn law_swapped_zones(
    value: JsonView,
    swapped: JsonView,
    a: JsonView,
    b: JsonView,
)
    requires
        holds(value, "zones"@, JsonView::Array(seq![a, b])),
        holds(swapped, "zones"@, JsonView::Array(seq![b, a])),
    ensures
        requested_setting("noTransmitZones"@, value) matches Ok(FurunoSetting::BlindSector {
            first,
            second,
        }) && requested_setting("noTransmitZones"@, swapped) == Ok::<
            FurunoSetting,
            ControlError<Seq<char>>,
        >(FurunoSetting::BlindSector { first: second, second: first }),
{
    lemma_names_differ();
    law_fields(value, "zones"@);
    law_fields(swapped, "zones"@);
}

/// The value is no integer: no number, or one with a fraction.
pub open spec fn no_integer(value: JsonView) -> bool {
    !(value is Number) || value->Number_0 is Float
}

/// What a zone leaves out: without the field, or with one of the wrong kind, it
/// is off, or the start or the end is 0.
pub proof fn law_zone_left_out(value: JsonView, zones: Seq<JsonView>, i: int, other: JsonView)
    requires
        holds(value, "zones"@, JsonView::Array(zones)),
        i == 0 || i == 1,
        i < zones.len(),
    ensures
        requested_setting("noTransmitZones"@, value) matches Ok(FurunoSetting::BlindSector {
            first,
            second,
        }) && ({
            let sector = if i == 0 {
                first
            } else {
                second
            };
            &&& lacks(zones[i], "enabled"@) || holds(zones[i], "enabled"@, other) && !(
            other is Bool) ==> !sector.enabled
            &&& lacks(zones[i], "start"@) || holds(zones[i], "start"@, other) && no_integer(other)
                ==> sector.start == 0
            &&& lacks(zones[i], "end"@) || holds(zones[i], "end"@, other) && no_integer(other)
                ==> sector.end == 0
        }),
{
    lemma_names_differ();
    law_fields(value, "zones"@);
    law_fields(zones[i], "enabled"@);
    law_fields(zones[i], "start"@);
    law_fields(zones[i], "end"@);
}

/// Of the start and the end of a zone the 32 low bits count.
pub proof fn law_zone_degrees(
    value: JsonView,
    zones: Seq<JsonView>,
    i: int,
    start: i64,
    end: i64,
)
    requires
        holds(value, "zones"@, JsonView::Array(zones)),
        i == 0 || i == 1,
        i < zones.len(),
        holds(zones[i], "start"@, integer_json(start as int)),
        holds(zones[i], "end"@, integer_json(end as int)),
    ensures
        requested_setting("noTransmitZones"@, value) matches Ok(FurunoSetting::BlindSector {
            first,
            second,
        }) && ({
            let sector = if i == 0 {
                first
            } else {
                second
            };
            &&& (start - sector.start) % 0x1_0000_0000 == 0
            &&& (end - sector.end) % 0x1_0000_0000 == 0
        }),
{
    lemma_names_differ();
    law_fields(value, "zones"@);
    law_fields(zones[i], "start"@);
    law_fields(zones[i], "end"@);
    law_integers_are_read_back(start);
    law_integers_are_read_back(end);
    law_wrapped(start as int);
    law_wrapped(end as int);
}

proof fn lemma_described(zone: JsonView, sector: Sector)
    requires
        describes(zone, sector),
    ensures
        zone.field_truth("enabled"@) == Some(sector.enabled),
        zone.field_signed("start"@) == Some(sector.start as i64),
        zone.field_signed("end"@) == Some(sector.end as i64),
{
    law_fields(zone, "enabled"@);
    law_fields(zone, "start"@);
    law_fields(zone, "end"@);
    law_integers_are_read_back(sector.start as i64);
    law_integers_are_read_back(sector.end as i64);
}

/// A request for a level passes the number on to the setting that belongs to the
/// control; of one that is too large the 32 low bits count. Anything but an integer that is not negative is refused.
pub proof fn law_level_settings(
    provider: ProviderView,
    id: Seq<char>,
    number: u64,
    n: i32,
    other: JsonView,
)
    requires
        furuno_ready(provider, id),
        (number - n) % 0x1_0000_0000 == 0,
        !(other is Number && other->Number_0 is PosInt),
    ensures
        ({
            let value = integer_json(number as int);
            &&& asks_for(provider, id, "beamSharpening"@, value, FurunoSetting::Rezboost(n))
            &&& asks_for(provider, id, "scanSpeed"@, value, FurunoSetting::ScanSpeed(n))
            &&& asks_for(provider, id, "birdMode"@, value, FurunoSetting::BirdMode(n))
            &&& asks_for(
                provider,
                id,
                "mainBangSuppression"@,
                value,
                FurunoSetting::MainBangSuppression(n),
            )
            &&& asks_for(provider, id, "txChannel"@, value, FurunoSetting::TxChannel(n))
        }),
        refuses(
            provider,
            id,
            "beamSharpening"@,
            other,
            ControlError::InvalidValue("beamSharpening must be a number"@),
        ),
        refuses(
            provider,
            id,
            "scanSpeed"@,
            other,
            ControlError::InvalidValue("scanSpeed must be a number"@),
        ),
        refuses(
            provider,
            id,
            "birdMode"@,
            other,
            ControlError::InvalidValue("birdMode must be a number (0-3)"@),
        ),
        refuses(
            provider,
            id,
            "mainBangSuppression"@,
            other,
            ControlError::InvalidValue("mainBangSuppression must be a number"@),
        ),
        refuses(
            provider,
            id,
            "txChannel"@,
            other,
            ControlError::InvalidValue("txChannel must be a number"@),
        ),
{
    let value = integer_json(number as int);
    lemma_names_differ();
    law_wrapped(number as int);
    assert(wrapped_i32(number as int) == n);
    lemma_asks_for(provider, id, "beamSharpening"@, value);
    lemma_asks_for(provider, id, "scanSpeed"@, value);
    lemma_asks_for(provider, id, "birdMode"@, value);
    lemma_asks_for(provider, id, "mainBangSuppression"@, value);
    lemma_asks_for(provider, id, "txChannel"@, value);
    lemma_asks_for(provider, id, "beamSharpening"@, other);
    lemma_asks_for(provider, id, "scanSpeed"@, other);
    lemma_asks_for(provider, id, "birdMode"@, other);
    lemma_asks_for(provider, id, "mainBangSuppression"@, other);
    lemma_asks_for(provider, id, "txChannel"@, other);
}

/// A request to switch something on or off passes on which. Interference
/// rejection may also be a number, which is on unless it is 0.
pub proof fn law_switches(
    provider: ProviderView,
    id: Seq<char>,
    on: bool,
    n: u64,
    other: JsonView,
)
    requires
        furuno_ready(provider, id),
        !(other is Bool),
    ensures
        ({
            let value = JsonView::Bool(on);
            &&& asks_for(
                provider,
                id,
                "interferenceRejection"@,
                value,
                FurunoSetting::InterferenceRejection(on),
            )
            &&& asks_for(provider, id, "noiseReduction"@, value, FurunoSetting::NoiseReduction(on))
            &&& asks_for(provider, id, "autoAcquire"@, value, FurunoSetting::AutoAcquire(on))
        }),
        asks_for(
            provider,
            id,
            "interferenceRejection"@,
            integer_json(n as int),
            FurunoSetting::InterferenceRejection(n > 0),
        ),
        refuses(
            provider,
            id,
            "noiseReduction"@,
            other,
            ControlError::InvalidValue("noiseReduction must be a boolean"@),
        ),
        refuses(
            provider,
            id,
            "autoAcquire"@,
            other,
            ControlError::InvalidValue("autoAcquire must be a boolean"@),
        ),
        !(other is Number && other->Number_0 is PosInt) ==> refuses(
            provider,
            id,
            "interferenceRejection"@,
            other,
            ControlError::InvalidValue("interferenceRejection must be a boolean"@),
        ),
{
    let value = JsonView::Bool(on);
    lemma_names_differ();
    lemma_asks_for(provider, id, "interferenceRejection"@, value);
    lemma_asks_for(provider, id, "noiseReduction"@, value);
    lemma_asks_for(provider, id, "autoAcquire"@, value);
    lemma_asks_for(provider, id, "interferenceRejection"@, integer_json(n as int));
    lemma_asks_for(provider, id, "interferenceRejection"@, other);
    lemma_asks_for(provider, id, "noiseReduction"@, other);
    lemma_asks_for(provider, id, "autoAcquire"@, other);
}

/// A request for the doppler mode passes on whether targets are analysed, and is
/// in mode 1 for `rain` and in mode 0 for any other; what it leaves out, or tells
/// in the wrong kind, is off, or mode 0.
pub proof fn law_doppler_mode(
    provider: ProviderView,
    id: Seq<char>,
    value: JsonView,
    enabled: bool,
    mode: Seq<char>,
    other: JsonView,
)
    requires
        furuno_ready(provider, id),
        holds(value, "enabled"@, JsonView::Bool(enabled)) || !enabled && (lacks(value, "enabled"@)
            || holds(value, "enabled"@, other) && !(other is Bool)),
        holds(value, "mode"@, JsonView::Text(mode)) || mode == "target"@ && (lacks(value, "mode"@)
            || holds(value, "mode"@, other) && !(other is Text)),
    ensures
        mode == "rain"@ ==> asks_for(
            provider,
            id,
            "dopplerMode"@,
            value,
            FurunoSetting::TargetAnalyzer { enabled, mode: 1 },
        ),
        mode != "rain"@ ==> asks_for(
            provider,
            id,
            "dopplerMode"@,
            value,
            FurunoSetting::TargetAnalyzer { enabled, mode: 0 },
        ),
{
    lemma_names_differ();
    lemma_words_differ();
    law_fields(value, "enabled"@);
    law_fields(value, "mode"@);
    lemma_asks_for(provider, id, "dopplerMode"@, value);
}

/// A request for a doppler speed switches the analysis of targets on, with the
/// speed as the mode: a whole number as it is, and any number cut towards zero.
pub proof fn law_doppler_speed(
    provider: ProviderView,
    id: Seq<char>,
    n: i32,
    speed: Double,
    other: JsonView,
)
    requires
        furuno_ready(provider, id),
        -0x7fff_ffff < n,
        !(other is Number),
    ensures
        asks_for(
            provider,
            id,
            "dopplerSpeed"@,
            integer_json(n as int),
            FurunoSetting::TargetAnalyzer { enabled: true, mode: n },
        ),
        asks_for(
            provider,
            id,
            "dopplerSpeed"@,
            JsonView::Number(JsonNumber::Float(speed)),
            FurunoSetting::TargetAnalyzer { enabled: true, mode: speed.truncated() as i32 },
        ),
        refuses(
            provider,
            id,
            "dopplerSpeed"@,
            other,
            ControlError::InvalidValue("dopplerSpeed must be a number"@),
        ),
{
    lemma_names_differ();
    law_integers_are_read_back(n as i64);
    lemma_asks_for(provider, id, "dopplerSpeed"@, integer_json(n as int));
    lemma_asks_for(provider, id, "dopplerSpeed"@, JsonView::Number(JsonNumber::Float(speed)));
    lemma_asks_for(provider, id, "dopplerSpeed"@, other);
}

/// A request without an array of zones is refused.
pub proof fn law_zones_are_needed(
    provider: ProviderView,
    id: Seq<char>,
    value: JsonView,
    other: JsonView,
)
    requires
        furuno_ready(provider, id),
        lacks(value, "zones"@) || holds(value, "zones"@, other) && !(other is Array),
    ensures
        refuses(
            provider,
            id,
            "noTransmitZones"@,
            value,
            ControlError::InvalidValue("noTransmitZones must have a 'zones' array"@),
        ),
{
    lemma_names_differ();
    law_fields(value, "zones"@);
    lemma_asks_for(provider, id, "noTransmitZones"@, value);
}

/// A request succeeds, asks the radar for `setting`, has the configuration
/// stored, and sets how the radar is installed to `config`, and nothing else.
pub open spec fn installs(
    provider: ProviderView,
    id: Seq<char>,
    control_id: Seq<char>,
    value: JsonView,
    setting: FurunoSetting,
    config: RadarInstallationConfig,
) -> bool {
    let (after, outcome) = provider.after_control(id, control_id, value);
    &&& outcome is Ok
    &&& after.outbox == provider.outbox + seq![
        Command::Announce,
        Command::Furuno { radar_id: id, setting },
        Command::SaveConfig,
    ]
    &&& after.config.contains_key(id)
    &&& after.config[id] == config
    &&& after == ProviderView { outbox: after.outbox, config: after.config, ..provider }
}

/// What is stored about a radar that nothing is stored about.
pub open spec fn installed_before(provider: ProviderView, id: Seq<char>) -> RadarInstallationConfig {
    if provider.config.contains_key(id) {
        provider.config[id]
    } else {
        RadarInstallationConfig { bearing_alignment: None, antenna_height: None }
    }
}

/// A request for an antenna height from 0 to 100 metres asks the radar for it
/// and stores it, beside the bearing alignment that is stored. Any other integer
/// is refused, and so is what is no integer.
pub proof fn law_antenna_height(provider: ProviderView, id: Seq<char>, n: i64, other: JsonView)
    requires
        furuno_ready(provider, id),
        !(other is Number) || other->Number_0 is Float,
    ensures
        0 <= n <= 100 ==> installs(
            provider,
            id,
            "antennaHeight"@,
            integer_json(n as int),
            FurunoSetting::AntennaHeight(n as i32),
            RadarInstallationConfig {
                antenna_height: Some(n as i32),
                ..installed_before(provider, id)
            },
        ),
        n < 0 || n > 100 ==> refuses(
            provider,
            id,
            "antennaHeight"@,
            integer_json(n as int),
            ControlError::InvalidValue("antennaHeight must be 0-100 meters"@),
        ),
        refuses(
            provider,
            id,
            "antennaHeight"@,
            other,
            ControlError::InvalidValue("antennaHeight must be a number (meters)"@),
        ),
{
    lemma_names_differ();
    law_integers_are_read_back(n);
    let value = integer_json(n as int);
    lemma_asks_for(provider, id, "antennaHeight"@, value);
    lemma_asks_for(provider, id, "antennaHeight"@, other);
    if 0 <= n <= 100 {
        lemma_installs(provider, id, "antennaHeight"@, value);
    }
}

/// A request for a bearing alignment of at most 180 degrees to either side asks
/// the radar for it and stores it, beside the antenna height that is stored. Any
/// other number is refused, and so is what is no number.
pub proof fn law_bearing_alignment(
    provider: ProviderView,
    id: Seq<char>,
    degrees: Double,
    n: i32,
    other: JsonView,
)
    requires
        furuno_ready(provider, id),
        !(other is Number),
    ensures
        degrees.magnitude_at_most(180) ==> installs(
            provider,
            id,
            "bearingAlignment"@,
            JsonView::Number(JsonNumber::Float(degrees)),
            FurunoSetting::BearingAlignment(degrees),
            RadarInstallationConfig {
                bearing_alignment: Some(degrees),
                ..installed_before(provider, id)
            },
        ),
        !degrees.magnitude_at_most(180) ==> refuses(
            provider,
            id,
            "bearingAlignment"@,
            JsonView::Number(JsonNumber::Float(degrees)),
            ControlError::InvalidValue("bearingAlignment must be -180 to 180 degrees"@),
        ),
        -180 <= n <= 180 <==> provider.after_control(
            id,
            "bearingAlignment"@,
            integer_json(n as int),
        ).1 is Ok,
        -180 <= n <= 180 ==> ({
            let whole = integer_json(n as int).double()->0;
            &&& whole.truncated() == n
            &&& installs(
                provider,
                id,
                "bearingAlignment"@,
                integer_json(n as int),
                FurunoSetting::BearingAlignment(whole),
                RadarInstallationConfig {
                    bearing_alignment: Some(whole),
                    ..installed_before(provider, id)
                },
            )
        }),
        refuses(
            provider,
            id,
            "bearingAlignment"@,
            other,
            ControlError::InvalidValue("bearingAlignment must be a number"@),
        ),
{
    lemma_names_differ();
    let value = JsonView::Number(JsonNumber::Float(degrees));
    lemma_asks_for(provider, id, "bearingAlignment"@, value);
    lemma_asks_for(provider, id, "bearingAlignment"@, other);
    lemma_installs(provider, id, "bearingAlignment"@, value);
    lemma_asks_for(provider, id, "bearingAlignment"@, integer_json(n as int));
    if n >= 0 {
        lemma_nearest_bits_bound(n as nat);
    } else {
        lemma_nearest_bits_bound((-n) as nat);
    }
    let whole = integer_json(n as int).double()->0;
    law_integer_magnitudes(n as i64, whole, 180);
    law_integers_are_read_back(n as i64);
    lemma_installs(provider, id, "bearingAlignment"@, integer_json(n as int));
}

proof fn lemma_installs(p: ProviderView, id: Seq<char>, control_id: Seq<char>, value: JsonView)
    requires
        furuno_ready(p, id),
        control_id.len() > 5,
    ensures
        requested_setting(control_id, value) matches Ok(setting) ==> match setting {
            FurunoSetting::BearingAlignment(degrees) => installs(
                p,
                id,
                control_id,
                value,
                setting,
                RadarInstallationConfig {
                    bearing_alignment: Some(degrees),
                    ..installed_before(p, id)
                },
            ),
            FurunoSetting::AntennaHeight(metres) => installs(
                p,
                id,
                control_id,
                value,
                setting,
                RadarInstallationConfig {
                    antenna_height: Some(metres),
                    ..installed_before(p, id)
                },
            ),
            _ => true,
        },
{
    lemma_names_differ();
    if let Ok(setting) = requested_setting(control_id, value) {
        let command = Command::Furuno { radar_id: id, setting };
        assert(p.outbox.push(Command::Announce).push(command).push(Command::SaveConfig)
            =~= p.outbox + seq![Command::Announce, command, Command::SaveConfig]);
    }
}

/// The extended controls of Furuno radars.
pub open spec fn furuno_controls() -> Seq<Seq<char>> {
    seq![
        "beamSharpening"@,
        "interferenceRejection"@,
        "scanSpeed"@,
        "birdMode"@,
        "dopplerMode"@,
        "bearingAlignment"@,
        "noiseReduction"@,
        "mainBangSuppression"@,
        "txChannel"@,
        "autoAcquire"@,
        "dopplerSpeed"@,
        "antennaHeight"@,
        "noTransmitZones"@,
    ]
}

/// Where an extended request cannot be carried out: a control that Furuno radars
/// do not have is answered with its name, and so is any extended control of a
/// radar of another brand; a Furuno radar without a Furuno controller is
/// announced to all the same.
pub proof fn law_extended_outcomes(
    provider: ProviderView,
    id: Seq<char>,
    control_id: Seq<char>,
    value: JsonView,
)
    requires
        provider.located(id) is Some,
        control_id != "power"@,
        control_id != "range"@,
        control_id != "gain"@,
        control_id != "sea"@,
        control_id != "rain"@,
    ensures
        ({
            let brand = provider.radars[provider.located(id)->0].brand;
            let (after, outcome) = provider.after_control(id, control_id, value);
            &&& brand != Brand::Furuno ==> after == provider && outcome == Err::<
                (),
                ControlError<Seq<char>>,
            >(ControlError::ControlNotFound(control_id))
            &&& brand == Brand::Furuno && provider.controller(id) != Some(Brand::Furuno) ==> refuses(
                provider,
                id,
                control_id,
                value,
                ControlError::ControllerNotAvailable,
            )
            &&& furuno_ready(provider, id) && !furuno_controls().contains(control_id) ==> refuses(
                provider,
                id,
                control_id,
                value,
                ControlError::ControlNotFound(control_id),
            )
            &&& furuno_ready(provider, id) && furuno_controls().contains(control_id) ==> !(outcome
                == Err::<(), ControlError<Seq<char>>>(ControlError::ControlNotFound(control_id)))
        }),
{
    lemma_names_differ();
    assert(provider.issuing(Command::Announce).outbox =~= provider.outbox + seq![Command::Announce]);
    let names = furuno_controls();
    assert(names[0] == "beamSharpening"@);
    assert(names[1] == "interferenceRejection"@);
    assert(names[2] == "scanSpeed"@);
    assert(names[3] == "birdMode"@);
    assert(names[4] == "dopplerMode"@);
    assert(names[5] == "bearingAlignment"@);
    assert(names[6] == "noiseReduction"@);
    assert(names[7] == "mainBangSuppression"@);
    assert(names[8] == "txChannel"@);
    assert(names[9] == "autoAcquire"@);
    assert(names[10] == "dopplerSpeed"@);
    assert(names[11] == "antennaHeight"@);
    assert(names[12] == "noTransmitZones"@);
}

} // verus!
