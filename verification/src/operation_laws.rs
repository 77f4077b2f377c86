//! What the operations of the provider do, in terms of what goes into them and
//! what comes out.
//!
//! Each law speaks of any outcome that an operation may have.

use crate::commands::{commands_view, Command};
use crate::config::{
    loaded_config, stored_config, PluginConfig, RadarInstallationConfig, StoredConfig,
};
use crate::controls::{outcome_view, ControlError};
use crate::double::Double;
use crate::features::{
    event_calls, plan_for, position_error, Acquisition, ArpaEvent, CapabilityPlan, ModelInfo,
};
use crate::json::{Json, JsonView};
use crate::locator::{
    discovered, discoveries_view, optional_text, Brand, DiscoveryView, LocatorEvent, RadarDiscovery,
};
use crate::provider_laws::law_pace;
use crate::radar_provider::{
    emissions, emissions_view, located_ids, summary_line, Emission, ProviderView, RadarProvider,
};
use crate::radar_state::{radar_id, radar_state, RadarState};
use crate::request_laws::{
    issues_alone, issues_announced, law_direct_levels, law_power, law_range, lemma_names_differ,
};
use crate::signalk_ffi::{calls_view, Call, CallView};
use crate::spoke_receiver::{
    after_frame, batch_line, batches_view, delivered_spokes, failure_line, law_merged_direction,
    law_targets_survive, listen_call, listen_next, poll_line, radar_ids, routed, spokes_view,
    stray_line, unknown_line, FrameReport, ListenStep, Packet, ParsedSpoke, SpokeBatch, SpokeLog,
    SpokeReceiver,
};
use crate::state_v5::{optional_json, LiveReport, RadarStateV5};
use crate::text::{debug_list_text, decimal_text};
use vstd::prelude::*;

verus! {

// ---------------------------------------------------------------------------
// Requests
// ---------------------------------------------------------------------------

/// Asked for power, the provider has the radar transmit where the state is
/// `transmit`, and stand by where it is anything else; whether the radar has a
/// controller is answered.
pub proof fn law_set_power(p: &mut RadarProvider, id: &str, state: &str, done: bool)
    requires
        call_ensures(RadarProvider::set_power, (p, id, state), done),
    ensures
        issues_announced(
            old(p)@,
            final(p)@,
            id@,
            Command::SetPower { radar_id: id@, transmit: state@ == "transmit"@ },
        ),
        done <==> old(p)@.controller(id@) is Some,
{
    law_power(old(p)@, id@, state@, state@ == "transmit"@);
}

/// Asked for a range, the provider asks the radar for just that range.
pub proof fn law_set_range(p: &mut RadarProvider, id: &str, range: u32, done: bool)
    requires
        call_ensures(RadarProvider::set_range, (p, id, range), done),
    ensures
        issues_announced(old(p)@, final(p)@, id@, Command::SetRange { radar_id: id@, range }),
        done <==> old(p)@.controller(id@) is Some,
{
    law_range(old(p)@, id@, range, 0);
}

/// Asked for a gain, the provider asks the radar for just that gain, or for 50
/// where none is named.
pub proof fn law_set_gain(
    p: &mut RadarProvider,
    id: &str,
    auto: bool,
    level: Option<u8>,
    done: bool,
)
    requires
        call_ensures(RadarProvider::set_gain, (p, id, auto, level), done),
    ensures
        level matches Some(n) ==> issues_alone(
            old(p)@,
            final(p)@,
            Command::SetGain { radar_id: id@, value: n as i32, auto },
        ),
        level is None ==> issues_alone(
            old(p)@,
            final(p)@,
            Command::SetGain { radar_id: id@, value: 50, auto },
        ),
        done <==> old(p)@.controller(id@) is Some,
{
    lemma_names_differ();
    if let Some(n) = level {
        law_direct_levels(old(p)@, "gain"@, id@, auto, n);
    } else {
        law_direct_levels(old(p)@, "gain"@, id@, auto, 0);
    }
}

/// Asked for a suppression of sea clutter, the provider asks the radar for just
/// that, or for 50 where none is named.
pub proof fn law_set_sea(
    p: &mut RadarProvider,
    id: &str,
    auto: bool,
    level: Option<u8>,
    done: bool,
)
    requires
        call_ensures(RadarProvider::set_sea, (p, id, auto, level), done),
    ensures
        level matches Some(n) ==> issues_alone(
            old(p)@,
            final(p)@,
            Command::SetSea { radar_id: id@, value: n as i32, auto },
        ),
        level is None ==> issues_alone(
            old(p)@,
            final(p)@,
            Command::SetSea { radar_id: id@, value: 50, auto },
        ),
        done <==> old(p)@.controller(id@) is Some,
{
    lemma_names_differ();
    if let Some(n) = level {
        law_direct_levels(old(p)@, "sea"@, id@, auto, n);
    } else {
        law_direct_levels(old(p)@, "sea"@, id@, auto, 0);
    }
}

/// Asked for a suppression of rain clutter, the provider asks the radar for just
/// that, or for 50 where none is named.
pub proof fn law_set_rain(
    p: &mut RadarProvider,
    id: &str,
    auto: bool,
    level: Option<u8>,
    done: bool,
)
    requires
        call_ensures(RadarProvider::set_rain, (p, id, auto, level), done),
    ensures
        level matches Some(n) ==> issues_alone(
            old(p)@,
            final(p)@,
            Command::SetRain { radar_id: id@, value: n as i32, auto },
        ),
        level is None ==> issues_alone(
            old(p)@,
            final(p)@,
            Command::SetRain { radar_id: id@, value: 50, auto },
        ),
        done <==> old(p)@.controller(id@) is Some,
{
    lemma_names_differ();
    if let Some(n) = level {
        law_direct_levels(old(p)@, "rain"@, id@, auto, n);
    } else {
        law_direct_levels(old(p)@, "rain"@, id@, auto, 0);
    }
}

/// A request for one control does what the request laws say of it, and is
/// answered with its outcome.
pub proof fn law_set_control(
    p: &mut RadarProvider,
    id: &str,
    control_id: &str,
    value: &Json,
    outcome: Result<(), ControlError<String>>,
)
    requires
        call_ensures(RadarProvider::set_control_v5, (p, id, control_id, value), outcome),
    ensures
        final(p)@ == old(p)@.after_control(id@, control_id@, value@).0,
        outcome is Ok <==> old(p)@.after_control(id@, control_id@, value@).1 is Ok,
        outcome matches Err(error) ==> Err::<(), ControlError<Seq<char>>>(error@)
            == old(p)@.after_control(id@, control_id@, value@).1,
{
}

/// An extended request is carried out like a request for the control.
pub proof fn law_set_extended_control(
    p: &mut RadarProvider,
    id: &str,
    control_id: &str,
    value: &Json,
    outcome: Result<(), ControlError<String>>,
)
    requires
        call_ensures(RadarProvider::set_extended_control, (p, id, control_id, value), outcome),
        control_id@ != "power"@,
        control_id@ != "range"@,
        control_id@ != "gain"@,
        control_id@ != "sea"@,
        control_id@ != "rain"@,
    ensures
        (final(p)@, outcome_view(outcome)) == old(p)@.after_control(id@, control_id@, value@),
{
}

/// An extended request to a Furuno radar is carried out like a request for the
/// control of a radar of that brand.
pub proof fn law_furuno_set_extended_control(
    p: &mut RadarProvider,
    id: &str,
    control_id: &str,
    value: &Json,
    outcome: Result<(), ControlError<String>>,
)
    requires
        call_ensures(RadarProvider::furuno_set_extended_control, (p, id, control_id, value), outcome),
        old(p)@.located(id@) is Some,
        old(p)@.radars[old(p)@.located(id@)->0].brand == Brand::Furuno,
        control_id@ != "power"@,
        control_id@ != "range"@,
        control_id@ != "gain"@,
        control_id@ != "sea"@,
        control_id@ != "rain"@,
    ensures
        (final(p)@, outcome_view(outcome)) == old(p)@.after_control(id@, control_id@, value@),
{
}

/// A request for several controls carries its entries out in order, succeeds
/// where all of them do, and does nothing where it is no object.
pub proof fn law_set_controls(p: &mut RadarProvider, id: &str, controls: &Json, success: bool)
    requires
        call_ensures(RadarProvider::set_controls, (p, id, controls), success),
    ensures
        match controls@ {
            JsonView::Object(entries) => (final(p)@, success) == old(p)@.after_entries(id@, entries),
            _ => final(p)@ == old(p)@ && !success,
        },
{
}

/// What was to be done is handed out once, in order.
pub proof fn law_take_commands(p: &mut RadarProvider, commands: Vec<Command<String>>)
    requires
        call_ensures(RadarProvider::take_commands, (p,), commands),
    ensures
        commands@.len() == old(p)@.outbox.len(),
        forall|i: int|
            0 <= i < commands@.len() ==> (#[trigger] commands@[i])@ == old(p)@.outbox[i],
        final(p)@.outbox.len() == 0,
        final(p)@ == (ProviderView { outbox: final(p)@.outbox, ..old(p)@ }),
{
    assert forall|i: int| 0 <= i < commands@.len() implies (#[trigger] commands@[i])@ == old(
        p,
    )@.outbox[i] by {
        assert(commands_view(commands@)[i] == commands@[i]@);
    }
    assert(commands_view(commands@).len() == commands@.len());
}

// ---------------------------------------------------------------------------
// Installations
// ---------------------------------------------------------------------------

/// An installation that is handed in is what is read afterwards, and the
/// configuration is to be saved.
pub proof fn law_set_installation_config(
    p: &mut RadarProvider,
    id: &str,
    config: RadarInstallationConfig,
)
    requires
        call_ensures(RadarProvider::set_installation_config, (p, id, config), ()),
    ensures
        final(p)@.config == old(p)@.config.insert(id@, config),
        final(p)@.outbox == old(p)@.outbox + seq![Command::SaveConfig],
        final(p)@ == (ProviderView {
            config: final(p)@.config,
            outbox: final(p)@.outbox,
            ..old(p)@
        }),
{
    assert(final(p)@.outbox =~= old(p)@.outbox + seq![Command::SaveConfig]);
}

/// What is read of a radar's installation is what is stored.
pub proof fn law_get_installation_config(
    p: &RadarProvider,
    id: &str,
    config: Option<&RadarInstallationConfig>,
)
    requires
        call_ensures(RadarProvider::get_installation_config, (p, id), config),
    ensures
        config is Some <==> p@.config.contains_key(id@),
        config matches Some(c) ==> *c == p@.config[id@],
{
}

/// A provider begins with what is stored, and with nothing else.
pub proof fn law_new(stored: Option<&StoredConfig>, p: RadarProvider)
    requires
        call_ensures(RadarProvider::new, (stored,), p),
    ensures
        p@.time == 0 && p@.poll_count == 0,
        p@.radars.len() == 0 && p@.managed.len() == 0 && p@.outbox.len() == 0,
        p@.receiver.socket is None && p@.receiver.radars.len() == 0,
        p@.receiver.log == (SpokeLog {
            poll_count: 0,
            last_log: 0,
            frame_count: 0,
            emit_success: 0,
            emit_fail: 0,
        }),
        stored is None ==> p@.config == Map::<Seq<char>, RadarInstallationConfig>::empty(),
        stored matches Some(s) ==> p@.config == loaded_config(Some(s@)),
{
}

/// What is saved is the configuration of the provider.
pub proof fn law_save_config(p: &RadarProvider, stored: StoredConfig)
    requires
        call_ensures(RadarProvider::save_config, (p,), stored),
    ensures
        stored@ == stored_config(p@.config),
{
}

/// The configuration is as it is.
pub proof fn law_config(p: &RadarProvider, config: &PluginConfig)
    requires
        call_ensures(RadarProvider::config, (p,), config),
    ensures
        config@ == p@.config,
{
}

// ---------------------------------------------------------------------------
// Polls
// ---------------------------------------------------------------------------

/// A poll is counted, and moves the clock to 100 milliseconds for each poll.
pub proof fn law_begin_poll(p: &mut RadarProvider)
    requires
        call_ensures(RadarProvider::begin_poll, (p,), ()),
        (old(p)@.poll_count + 1) * 100 <= u64::MAX,
    ensures
        final(p)@.poll_count == old(p)@.poll_count + 1,
        final(p)@.time == final(p)@.poll_count * 100,
        final(p)@ == (ProviderView {
            poll_count: final(p)@.poll_count,
            time: final(p)@.time,
            ..old(p)@
        }),
{
    law_pace(old(p)@.poll_count);
}

/// What the locator found is taken in, and each radar that it found anew is to
/// be emitted, once and in order.
pub proof fn law_poll(
    p: &mut RadarProvider,
    radars: Vec<RadarDiscovery>,
    events: &Vec<LocatorEvent>,
    out: Vec<Emission>,
)
    requires
        call_ensures(RadarProvider::poll, (p, radars, events), out),
    ensures
        final(p)@ == old(p)@.after_locating(discoveries_view(radars@)),
        emissions_view(out@) == emissions(discovered(events@)),
{
}

/// Every 100th poll sums up and emits every known radar, once and in order; any
/// other does neither.
pub proof fn law_finish_poll(p: &RadarProvider, spokes: u32, end: (Option<Call>, Vec<Emission>))
    requires
        call_ensures(RadarProvider::finish_poll, (p, spokes), end),
    ensures
        p@.poll_count % 100 != 0 ==> end.0 is None && end.1@.len() == 0,
        p@.poll_count % 100 == 0 ==> {
            &&& end.0 matches Some(call) && call@ == summary_line(
                p@.poll_count as nat,
                p@.radars.len(),
                spokes as nat,
            )
            &&& emissions_view(end.1@) == emissions(p@.radars)
        },
{
    assert(emissions_view(end.1@).len() == end.1@.len());
}

/// The list that is emitted names every known radar, once and in order.
pub proof fn law_emit_radar_list(p: &RadarProvider, out: Vec<Emission>, i: int)
    requires
        call_ensures(RadarProvider::emit_radar_list, (p,), out),
        0 <= i < p@.radars.len(),
    ensures
        out@.len() == p@.radars.len(),
        out@[i]@.state == radar_state(p@.radars[i]),
        out@[i]@.path == "radars."@ + radar_id(p@.radars[i]),
{
    assert(emissions_view(out@).len() == out@.len());
    assert(emissions_view(out@)[i] == out@[i]@);
}

/// A radar is emitted under its own path.
pub proof fn law_emit_radar_discovered(d: &RadarDiscovery, out: Emission)
    requires
        call_ensures(RadarProvider::emit_radar_discovered, (d,), out),
    ensures
        out.state@ == radar_state(d@),
        out.path@ == "radars."@ + out.state.id@,
{
}

/// What a controller tells of its radar's model is taken in as the model laws
/// say.
pub proof fn law_controller_model(p: &mut RadarProvider, id: &str, told: Option<String>)
    requires
        call_ensures(RadarProvider::controller_model, (p, id, told), ()),
    ensures
        final(p)@ == old(p)@.after_model(id@, optional_text(told)),
{
}

/// What a Furuno controller tells is believed, and nothing that another tells.
pub proof fn law_get_controller_model(
    p: &RadarProvider,
    id: &str,
    told: Option<String>,
    model: Option<String>,
)
    requires
        call_ensures(RadarProvider::get_controller_model, (p, id, told), model),
    ensures
        p@.controller(id@) == Some(Brand::Furuno) ==> optional_text(model) == optional_text(told),
        p@.controller(id@) != Some(Brand::Furuno) ==> model is None,
{
}

/// The clock, the count of polls and the radars are as they are.
pub proof fn law_readings(
    p: &RadarProvider,
    time: u64,
    polls: u64,
    radars: &Vec<RadarDiscovery>,
    receiver: &SpokeReceiver,
)
    requires
        call_ensures(RadarProvider::time, (p,), time),
        call_ensures(RadarProvider::poll_count, (p,), polls),
        call_ensures(RadarProvider::radars, (p,), radars),
        call_ensures(RadarProvider::spoke_receiver, (p,), receiver),
    ensures
        time == p@.time,
        polls == p@.poll_count,
        discoveries_view(radars@) == p@.radars,
        receiver@ == p@.receiver,
{
}

// ---------------------------------------------------------------------------
// Reception
// ---------------------------------------------------------------------------

/// The provider opens its spoke socket as the receiver does by itself.
pub proof fn law_listen_reply(
    p: &mut RadarProvider,
    step: ListenStep,
    reply: i32,
    port: u16,
    group: &str,
    next: (Option<ListenStep>, Option<Call>),
)
    requires
        call_ensures(RadarProvider::listen_reply, (p, step, reply, port, group), next),
    ensures
        final(p)@ == (ProviderView {
            receiver: old(p)@.receiver.after_listen(step, reply),
            ..old(p)@
        }),
        next.0 == listen_next(step, reply),
        next.1 is Some <==> listen_call(step, reply, port, group@) is Some,
        next.1 matches Some(call) ==> Some(call@) == listen_call(step, reply, port, group@),
{
}

/// The datagrams of tracked radars are handed out in order, each with its radar,
/// and none else is.
pub proof fn law_poll_spokes(
    p: &mut RadarProvider,
    packets: Vec<Packet>,
    found: (Vec<(Vec<u8>, usize)>, Vec<Call>),
    i: int,
)
    requires
        call_ensures(RadarProvider::poll_spokes, (p, packets), found),
        0 <= i < found.0@.len(),
    ensures
        found.0@.len() == routed(old(p)@.receiver.radars, packets@).len(),
        (found.0@[i].0@, found.0@[i].1 as int) == routed(old(p)@.receiver.radars, packets@)[i],
        calls_view(found.1@) == old(p)@.receiver.poll_lines(packets@),
        final(p)@ == (ProviderView {
            receiver: old(p)@.receiver.after_poll(packets@),
            ..old(p)@
        }),
{
    let shown = found.0@.map_values(|f: (Vec<u8>, usize)| (f.0@, f.1 as int));
    assert(shown.len() == found.0@.len());
    assert(shown[i] == (found.0@[i].0@, found.0@[i].1 as int));
}

/// A frame goes to the radar that it came from, and what it completes is handed
/// out.
pub proof fn law_process_frame(
    p: &mut RadarProvider,
    idx: usize,
    frame: FrameReport,
    out: (Option<SpokeBatch>, Option<Call>),
)
    requires
        call_ensures(RadarProvider::process_frame, (p, idx, frame), out),
        idx < old(p)@.receiver.radars.len(),
    ensures
        ({
            let (radar, batch) = after_frame(old(p)@.receiver.radars[idx as int], frame@);
            &&& final(p)@.receiver.radars == old(p)@.receiver.radars.update(idx as int, radar)
            &&& out.0 is Some <==> batch is Some
            &&& out.0 matches Some(b) ==> batch == Some(b@)
        }),
        out.1 is Some <==> old(p)@.receiver.frame_line(frame@) is Some,
        out.1 matches Some(line) ==> old(p)@.receiver.frame_line(frame@) == Some(line@),
        final(p)@ == (ProviderView {
            receiver: old(p)@.receiver.after_frame_of(idx as int, frame@),
            ..old(p)@
        }),
{
}

/// A batch that was streamed is counted by whether it was delivered.
pub proof fn law_batch_emitted(
    p: &mut RadarProvider,
    batch: &SpokeBatch,
    delivered: bool,
    line: Option<Call>,
)
    requires
        call_ensures(RadarProvider::batch_emitted, (p, batch, delivered), line),
    ensures
        final(p)@ == (ProviderView {
            receiver: old(p)@.receiver.after_emission(delivered),
            ..old(p)@
        }),
        line is Some <==> old(p)@.receiver.emission_line(batch.radar_id@, delivered) is Some,
        line matches Some(call) ==> old(p)@.receiver.emission_line(batch.radar_id@, delivered)
            == Some(call@),
{
}

/// After the end nothing is received, and a socket that was open is closed.
pub proof fn law_shutdown(p: &mut RadarProvider, call: Option<Call>)
    requires
        call_ensures(RadarProvider::shutdown, (p,), call),
    ensures
        call is Some <==> old(p)@.receiver.socket is Some,
        call matches Some(c) ==> c@ == (CallView::UdpClose {
            socket: old(p)@.receiver.socket->0,
        }),
        final(p)@.receiver.socket is None,
        final(p)@.receiver.radars.len() == 0,
        final(p)@ == (ProviderView { receiver: final(p)@.receiver, ..old(p)@ }),
{
}

// ---------------------------------------------------------------------------
// What clients are told
// ---------------------------------------------------------------------------

/// Each known radar has its id in the list, in order.
pub proof fn law_get_radar_ids(p: &RadarProvider, ids: Vec<String>, i: int)
    requires
        call_ensures(RadarProvider::get_radar_ids, (p,), ids),
        0 <= i < p@.radars.len(),
    ensures
        ids@.len() == p@.radars.len(),
        ids@[i]@ == radar_id(p@.radars[i]),
{
    let shown = ids@.map_values(|id: String| id@);
    assert(shown.len() == ids@.len());
    assert(shown[i] == ids@[i]@);
}

/// What is told of a radar bears its id; of a radar that is not known nothing is
/// told.
pub proof fn law_get_radar_info(
    p: &RadarProvider,
    id: &str,
    state: Option<RadarState>,
    radar: Option<&RadarDiscovery>,
)
    requires
        call_ensures(RadarProvider::get_radar_info, (p, id), state),
        call_ensures(RadarProvider::find_radar, (p, id), radar),
    ensures
        state is Some <==> located_ids(p@.radars).contains(id@),
        radar is Some <==> state is Some,
        state matches Some(s) ==> s.id@ == id@ && s@ == radar_state(radar->0@),
        radar matches Some(d) ==> radar_id(d@) == id@,
{
    located_ids(p@.radars).index_of_first_ensures(id@);
}

/// The capabilities of a radar are built from what was found of it, with the
/// model that its controller tells, where it is a Furuno radar.
pub proof fn law_get_capabilities(
    p: &RadarProvider,
    id: &str,
    told: Option<String>,
    info: Option<ModelInfo>,
    subject: Option<RadarDiscovery>,
    plan: Option<CapabilityPlan>,
)
    requires
        call_ensures(RadarProvider::capability_subject, (p, id, told), subject),
        call_ensures(RadarProvider::get_capabilities, (p, id, told, info), plan),
    ensures
        subject is Some <==> p@.located(id@) is Some,
        plan is Some <==> p@.located(id@) is Some,
        subject matches Some(d) ==> {
            &&& d@ == (DiscoveryView { model: d@.model, ..p@.radars[p@.located(id@)->0] })
            &&& p@.controller(id@) == Some(Brand::Furuno) && told is Some ==> d@.model
                == optional_text(told)
            &&& p@.controller(id@) != Some(Brand::Furuno) || told is None ==> d@.model
                == p@.radars[p@.located(id@)->0].model
        },
        plan matches Some(built) ==> built@ == plan_for(subject->0@, id@, info),
{
}

/// The state of a radar and the value of one of its controls are as the laws of
/// the values say.
pub proof fn law_get_state(
    p: &RadarProvider,
    id: &str,
    name: &str,
    live: LiveReport,
    state: Option<RadarStateV5>,
    value: Option<Json>,
)
    requires
        call_ensures(RadarProvider::get_state_v5, (p, id, live), state),
        call_ensures(RadarProvider::get_control, (p, id, name, live), value),
    ensures
        state is Some <==> p@.located(id@) is Some,
        state matches Some(s) ==> p@.state_v5(id@, live@) == Some(s@),
        optional_json(value) == p@.control_value(id@, name@, live@),
        state matches Some(s) ==> (value is Some <==> s.controls@.contains_key(name@)),
        state is None ==> value is None,
{
}

/// Targets are told as the engine told them; where it told none, there are none,
/// unless the radar has no controller: then there is nothing to tell of.
pub proof fn law_get_targets<T>(
    p: &RadarProvider,
    id: &str,
    targets: Vec<T>,
    told: Option<Vec<T>>,
)
    requires
        call_ensures(RadarProvider::get_targets::<T>, (p, id, targets), told),
    ensures
        told matches Some(t) ==> t == targets,
        told is None <==> targets@.len() == 0 && p@.controller(id@) is None,
{
}

/// A target is asked for at the position and at the time of the request, where
/// the position is sound; where it is not, what is wrong is answered.
pub proof fn law_acquire_target(
    p: &RadarProvider,
    id: &str,
    bearing: Double,
    distance: Double,
    request: Result<Acquisition, String>,
)
    requires
        call_ensures(RadarProvider::acquire_target, (p, id, bearing, distance), request),
    ensures
        request is Ok <==> position_error(bearing, distance) is None,
        request matches Ok(a) ==> {
            &&& a.radar_id@ == id@
            &&& a.bearing == bearing
            &&& a.distance == distance
            &&& a.timestamp == p@.poll_count * 100
        },
        request matches Err(why) ==> position_error(bearing, distance) == Some(why@),
{
    law_pace(p@.poll_count);
}

/// The settings for following targets can be changed on a radar that has a
/// controller, and on no other.
pub proof fn law_set_arpa_settings(p: &RadarProvider, id: &str, result: Result<(), String>)
    requires
        call_ensures(RadarProvider::set_arpa_settings, (p, id), result),
    ensures
        result is Ok <==> p@.controller(id@) is Some,
        result matches Err(why) ==> why@ == "radar not found"@,
{
}

/// What happened to targets is published as the law of events says.
pub proof fn law_process_arpa_events(
    p: &RadarProvider,
    id: &str,
    events: &Vec<ArpaEvent>,
    calls: Vec<Call>,
)
    requires
        call_ensures(RadarProvider::process_arpa_events, (p, id, events), calls),
    ensures
        calls_view(calls@) == event_calls(id@, events@),
{
}

/// A second range can be asked of a radar that has two, and of no other.
pub proof fn law_set_dual_range_config(supported: bool, result: Result<(), String>)
    requires
        call_ensures(RadarProvider::set_dual_range_config, (supported,), result),
    ensures
        result is Ok <==> supported,
        result matches Err(why) ==> why@ == "Radar does not support dual-range"@,
{
}

/// The brand of a radar's controller is told, and whether it has one.
pub proof fn law_controller(p: &RadarProvider, id: &str, brand: Option<Brand>, has: bool)
    requires
        call_ensures(RadarProvider::controller, (p, id), brand),
        call_ensures(RadarProvider::contains, (p, id), has),
    ensures
        brand == p@.controller(id@),
        has <==> brand is Some,
{
}

// ---------------------------------------------------------------------------
// The receiver
// ---------------------------------------------------------------------------

/// What is read of the receiver is as it is: its socket, what it counted, how
/// many radars it tracks, and the spoke against which the next one of a radar is
/// decoded. It listens anew where, and only where, no socket is open.
pub proof fn law_receiver_readings(
    r: &SpokeReceiver,
    idx: usize,
    socket: Option<i32>,
    log: SpokeLog,
    count: usize,
    prev: &Vec<u8>,
    start: Option<(ListenStep, Call)>,
)
    requires
        idx < r@.radars.len(),
        call_ensures(SpokeReceiver::furuno_socket, (r,), socket),
        call_ensures(SpokeReceiver::log, (r,), log),
        call_ensures(SpokeReceiver::radar_count, (r,), count),
        call_ensures(SpokeReceiver::prev_spoke, (r, idx), prev),
        call_ensures(SpokeReceiver::start_furuno, (r,), start),
    ensures
        socket == r@.socket,
        log == r@.log,
        count == r@.radars.len(),
        prev@ == r@.radars[idx as int].prev_spoke,
        start is Some <==> r@.socket is None,
        start matches Some((step, call)) ==> step == ListenStep::Create && call@
            == (CallView::UdpCreate { socket_type: 0 }),
{
}

/// A receiver begins with nothing.
pub proof fn law_new_receiver(r: SpokeReceiver)
    requires
        call_ensures(SpokeReceiver::new, (), r),
    ensures
        r@.socket is None,
        r@.radars.len() == 0,
        r@.log.poll_count == 0 && r@.log.last_log == 0 && r@.log.frame_count == 0,
        r@.log.emit_success == 0 && r@.log.emit_fail == 0,
{
}

/// A radar is tracked from then on, unless it is tracked already, and the socket
/// is asked for where a new radar is tracked and none is open.
pub proof fn law_add_furuno_radar(
    r: &mut SpokeReceiver,
    id: &str,
    ip: &str,
    start: Option<(ListenStep, Call)>,
)
    requires
        call_ensures(SpokeReceiver::add_furuno_radar, (r, id, ip), start),
    ensures
        ({
            let known = radar_ids(old(r)@.radars).contains(id@);
            &&& known ==> final(r)@.radars == old(r)@.radars
            &&& !known ==> {
                &&& final(r)@.radars.len() == old(r)@.radars.len() + 1
                &&& final(r)@.radars.drop_last() == old(r)@.radars
                &&& final(r)@.radars.last().radar_id == id@
                &&& final(r)@.radars.last().source_ip == ip@
                &&& final(r)@.radars.last().waiting.len() == 0
            }
            &&& start is Some <==> !known && old(r)@.socket is None
            &&& final(r)@.socket == old(r)@.socket
            &&& final(r)@.log == old(r)@.log
        }),
{
    if !radar_ids(old(r)@.radars).contains(id@) {
        assert(final(r)@.radars.drop_last() =~= old(r)@.radars);
    }
}

/// What the receiver does with datagrams, frames and batches is what the provider
/// does with them.
pub proof fn law_receiver_frames(
    r: &mut SpokeReceiver,
    idx: usize,
    frame: FrameReport,
    out: (Option<SpokeBatch>, Option<Call>),
)
    requires
        call_ensures(SpokeReceiver::process_furuno_frame, (r, idx, frame), out),
        idx < old(r)@.radars.len(),
    ensures
        ({
            let (radar, batch) = after_frame(old(r)@.radars[idx as int], frame@);
            &&& final(r)@.radars == old(r)@.radars.update(idx as int, radar)
            &&& out.0 is Some <==> batch is Some
            &&& out.0 matches Some(b) ==> batch == Some(b@)
        }),
        final(r)@ == old(r)@.after_frame_of(idx as int, frame@),
{
}

/// Spokes are merged as the laws of merging say.
pub proof fn law_combine_spokes(spokes: &[ParsedSpoke], one: ParsedSpoke, k: int, i: int)
    requires
        call_ensures(SpokeReceiver::combine_spokes, (spokes,), one),
        0 <= k < spokes@.len(),
        0 <= i < spokes@[k].data@.len(),
    ensures
        one.heading == spokes@[0].heading,
        one.angle * 16 <= spokes@[0].angle < one.angle * 16 + 16,
        i < one.data@.len(),
        spokes@[k].data@[i] <= one.data@[i],
{
    let all = spokes_view(spokes@);
    assert(all[k] == spokes@[k]@);
    assert(all[0] == spokes@[0]@);
    law_merged_direction(all);
    law_targets_survive(all, k, i);
}

/// The spokes that reached clients are counted, and every 500th frame a batch is
/// summed up.
pub proof fn law_batches(
    batches: &Vec<SpokeBatch>,
    delivered: &Vec<bool>,
    n: u32,
    r: &SpokeReceiver,
    batch: &SpokeBatch,
    bytes: usize,
    line: Option<Call>,
)
    requires
        call_ensures(SpokeReceiver::count_delivered, (batches, delivered), n),
        call_ensures(SpokeReceiver::batch_encoded, (r, batch, bytes), line),
    ensures
        n == delivered_spokes(batches_view(batches@), delivered@),
        line is Some <==> r@.log.frame_count % 500 == 0,
        line matches Some(call) ==> call@ == batch_line(
            r@.log,
            batch.spokes@.len(),
            batch.range,
            bytes as nat,
        ),
{
}

/// What the lines of the log say.
pub proof fn law_line_texts(
    log: SpokeLog,
    packet: Packet,
    tracking: Seq<Seq<char>>,
    count: nat,
    listening: bool,
    radars: nat,
    spokes: nat,
    unknown: nat,
    range: u32,
    id: Seq<char>,
)
    ensures
        summary_line(count, radars, spokes) == (CallView::Debug {
            msg: "RadarProvider poll #"@ + decimal_text(count) + ": "@ + decimal_text(radars)
                + " radars, "@ + decimal_text(spokes) + " spokes emitted"@,
        }),
        unknown_line(packet, tracking) == (CallView::Debug {
            msg: "Spoke packet from unknown IP "@ + packet.addr@ + " (len="@ + decimal_text(
                packet.data@.len(),
            ) + "), tracking: "@ + debug_list_text(tracking),
        }),
        poll_line(count, listening, radars, spokes, unknown) == (CallView::Debug {
            msg: "SpokeReceiver poll #"@ + decimal_text(count) + ": socket="@ + if listening {
                "true"@
            } else {
                "false"@
            } + ", tracking "@ + decimal_text(radars) + " radars, frames="@ + decimal_text(spokes)
                + ", unknown="@ + decimal_text(unknown),
        }),
        stray_line(count, spokes) == (CallView::Debug {
            msg: "Frame #"@ + decimal_text(count) + " not a spoke frame (len="@ + decimal_text(
                spokes,
            ) + ")"@,
        }),
        failure_line(id, count) == (CallView::Debug {
            msg: "emit_radar_spokes failed for "@ + id + " (fail #"@ + decimal_text(count) + ")"@,
        }),
        batch_line(log, spokes, range, count) == (CallView::Debug {
            msg: "Frame #"@ + decimal_text(log.frame_count as nat) + ": "@ + decimal_text(spokes)
                + " combined spokes (from "@ + decimal_text(spokes * 16) + "), range="@
                + decimal_text(range as nat) + "m, protobuf="@ + decimal_text(count)
                + " bytes, emit success/fail="@ + decimal_text(log.emit_success as nat) + "/"@
                + decimal_text(log.emit_fail as nat),
        }),
{
}

} // verus!
