//! What holds of the provider over several requests and polls.

use crate::commands::{controller_for, radar_ip, Command, CommandView};
use crate::config::{
    config_in_range, installation_in_range, loaded_config, RadarInstallationConfig, StoredView,
};
use crate::controls::{requested_setting, MAX_BEARING_ALIGNMENT};
use crate::json::{double_json, holds, integer_json, JsonView};
use crate::locator::{discovered, Brand, DiscoveryView, LocatorEvent, RadarDiscovery};
use crate::radar_provider::{
    emissions, located_ids, managed_ids, ProviderView, LIST_INTERVAL, POLL_INTERVAL,
};
use crate::radar_state::{radar_id, radar_state};
use crate::spoke_receiver::{fresh_radar, law_tracked_once, radar_ids};
use crate::state_v5::{mode_and_level, LiveView};
use crate::text::{law_before_first, lemma_first_at, lemma_first_nowhere};
use vstd::prelude::*;

verus! {

// ---------------------------------------------------------------------------
// Reading back what was set
// ---------------------------------------------------------------------------

/// An antenna height that was accepted is read back as it was given, whatever
/// the controller tells.
pub proof fn law_antenna_height_is_read_back(
    provider: ProviderView,
    id: Seq<char>,
    value: JsonView,
    live: LiveView,
)
    requires
        provider.after_control(id, "antennaHeight"@, value).1 is Ok,
    ensures
        value.signed() is Some,
        provider.after_control(id, "antennaHeight"@, value).0.control_value(
            id,
            "antennaHeight"@,
            live,
        ) == Some(integer_json(value.signed()->0 as int)),
{
    lemma_extended_names();
}

/// A bearing alignment that was accepted is read back, whatever the controller
/// tells.
pub proof fn law_bearing_alignment_is_read_back(
    provider: ProviderView,
    id: Seq<char>,
    value: JsonView,
    live: LiveView,
)
    requires
        provider.after_control(id, "bearingAlignment"@, value).1 is Ok,
    ensures
        value.double() is Some,
        provider.after_control(id, "bearingAlignment"@, value).0.control_value(
            id,
            "bearingAlignment"@,
            live,
        ) == Some(double_json(value.double()->0)),
{
    lemma_extended_names();
}

/// The bearing alignment and the antenna height are kept apart: to set one
/// leaves what is stored of the other.
pub proof fn law_installation_values_are_independent(
    provider: ProviderView,
    id: Seq<char>,
    value: JsonView,
)
    ensures
        provider.after_control(id, "antennaHeight"@, value).0.installation(id).bearing_alignment
            == provider.installation(id).bearing_alignment,
        provider.after_control(id, "bearingAlignment"@, value).0.installation(id).antenna_height
            == provider.installation(id).antenna_height,
{
    lemma_extended_names();
}

/// No request takes a stored value out of its range, of the radar that it is
/// made to or of any other.
pub proof fn law_installation_stays_in_range(
    provider: ProviderView,
    id: Seq<char>,
    control_id: Seq<char>,
    value: JsonView,
    other: Seq<char>,
)
    requires
        installation_in_range(provider.installation(other)),
    ensures
        installation_in_range(
            provider.after_control(id, control_id, value).0.installation(other),
        ),
{
}

/// No request for several controls takes a stored value out of its range.
pub proof fn law_installations_stay_in_range(
    provider: ProviderView,
    id: Seq<char>,
    entries: Seq<(Seq<char>, JsonView)>,
    other: Seq<char>,
)
    requires
        installation_in_range(provider.installation(other)),
    ensures
        installation_in_range(provider.after_entries(id, entries).0.installation(other)),
    decreases entries.len(),
{
    if entries.len() > 0 {
        law_installations_stay_in_range(provider, id, entries.drop_last(), other);
        let before = provider.after_entries(id, entries.drop_last()).0;
        let (control_id, value) = entries.last();
        law_installation_stays_in_range(before, id, control_id, value, other);
    }
}

/// An installation that is handed in with its values in range leaves the values
/// of every radar in range.
pub proof fn law_handed_in_installation_stays_in_range(
    provider: ProviderView,
    id: Seq<char>,
    config: RadarInstallationConfig,
    other: Seq<char>,
)
    requires
        installation_in_range(config),
        installation_in_range(provider.installation(other)),
    ensures
        installation_in_range(provider.installing(id, config).installation(other)),
{
}

/// A provider that begins with a configuration whose values are in range has
/// the values of every radar in range.
pub proof fn law_loaded_installations_are_in_range(
    provider: ProviderView,
    stored: Option<Map<Seq<char>, StoredView>>,
    id: Seq<char>,
)
    requires
        provider.config == loaded_config(stored),
        config_in_range(loaded_config(stored)),
    ensures
        installation_in_range(provider.installation(id)),
{
}

/// A request for a bearing alignment or an antenna height out of range is
/// refused: nothing is stored, and the radar is not asked for it.
pub proof fn law_out_of_range_is_refused(
    provider: ProviderView,
    id: Seq<char>,
    control_id: Seq<char>,
    value: JsonView,
)
    requires
        ({
            ||| control_id == "bearingAlignment"@ && value.double() is Some
                && !value.double()->0.magnitude_at_most(MAX_BEARING_ALIGNMENT as nat)
            ||| control_id == "antennaHeight"@ && value.signed() is Some && !(0
                <= value.signed()->0 <= 100)
        }),
    ensures
        provider.after_control(id, control_id, value).1 is Err,
        provider.after_control(id, control_id, value).0.config == provider.config,
        ({
            let outbox = provider.after_control(id, control_id, value).0.outbox;
            outbox == provider.outbox || outbox == provider.outbox.push(Command::Announce)
        }),
{
    lemma_extended_names();
}

proof fn lemma_extended_names()
    ensures
        "power"@.len() == 5,
        "range"@.len() == 5,
        "gain"@.len() == 4,
        "sea"@.len() == 3,
        "rain"@.len() == 4,
        "beamSharpening"@.len() == 14,
        "interferenceRejection"@.len() == 21,
        "scanSpeed"@.len() == 9,
        "birdMode"@.len() == 8,
        "dopplerMode"@.len() == 11,
        "bearingAlignment"@.len() == 16,
        "noiseReduction"@.len() == 14,
        "mainBangSuppression"@.len() == 19,
        "txChannel"@.len() == 9,
        "autoAcquire"@.len() == 11,
        "dopplerSpeed"@.len() == 12,
        "antennaHeight"@.len() == 13,
{
    reveal_strlit("power");
    reveal_strlit("range");
    reveal_strlit("gain");
    reveal_strlit("sea");
    reveal_strlit("rain");
    reveal_strlit("beamSharpening");
    reveal_strlit("interferenceRejection");
    reveal_strlit("scanSpeed");
    reveal_strlit("birdMode");
    reveal_strlit("dopplerMode");
    reveal_strlit("bearingAlignment");
    reveal_strlit("noiseReduction");
    reveal_strlit("mainBangSuppression");
    reveal_strlit("txChannel");
    reveal_strlit("autoAcquire");
    reveal_strlit("dopplerSpeed");
    reveal_strlit("antennaHeight");
}

// ---------------------------------------------------------------------------
// Requests
// ---------------------------------------------------------------------------

/// A request that is refused stores nothing and changes nothing but what is to
/// be done; one for a radar that is not known, and no other, is answered with
/// that, and not even asks for anything to be done.
pub proof fn law_refused_request(
    provider: ProviderView,
    id: Seq<char>,
    control_id: Seq<char>,
    value: JsonView,
)
    requires
        provider.after_control(id, control_id, value).1 is Err,
    ensures
        ({
            let (after, outcome) = provider.after_control(id, control_id, value);
            &&& after == ProviderView { outbox: after.outbox, ..provider }
            &&& outcome->Err_0 is RadarNotFound <==> provider.located(id) is None
            &&& provider.located(id) is None ==> after == provider
        }),
{
}

/// A request is accepted only for a radar that is known and has a controller.
pub proof fn law_accepted_request(
    provider: ProviderView,
    id: Seq<char>,
    control_id: Seq<char>,
    value: JsonView,
)
    requires
        provider.after_control(id, control_id, value).1 is Ok,
    ensures
        provider.located(id) is Some,
        provider.manages(id),
{
}

/// Whether a command concerns no radar but this one.
pub open spec fn concerns_only(command: CommandView, id: Seq<char>) -> bool {
    match command {
        Command::Announce => true,
        Command::ListenFuruno => true,
        Command::SaveConfig => true,
        Command::AddRadar { radar_id, controller: _ } => radar_id == id,
        Command::SetModelInfo { radar_id, model: _ } => radar_id == id,
        Command::SetPower { radar_id, transmit: _ } => radar_id == id,
        Command::SetRange { radar_id, range: _ } => radar_id == id,
        Command::SetGain { radar_id, value: _, auto: _ } => radar_id == id,
        Command::SetSea { radar_id, value: _, auto: _ } => radar_id == id,
        Command::SetRain { radar_id, value: _, auto: _ } => radar_id == id,
        Command::Furuno { radar_id, setting: _ } => radar_id == id,
    }
}

/// Between two states lies nothing but requests to one radar: what was to be
/// done still is, what came behind it concerns only that radar, what is stored
/// of other radars is as it was, and so is all the rest.
pub open spec fn requests_between(before: ProviderView, after: ProviderView, id: Seq<char>) -> bool {
    &&& before.outbox.len() <= after.outbox.len()
    &&& after.outbox.take(before.outbox.len() as int) == before.outbox
    &&& forall|k: int|
        before.outbox.len() <= k < after.outbox.len() ==> concerns_only(
            #[trigger] after.outbox[k],
            id,
        )
    &&& forall|other: Seq<char>|
        other != id ==> (#[trigger] after.config.contains_key(other) <==> before.config.contains_key(
            other,
        )) && (before.config.contains_key(other) ==> after.config[other] == before.config[other])
    &&& after == ProviderView { outbox: after.outbox, config: after.config, ..before }
}

/// A request to a radar concerns only that radar.
pub proof fn law_request_concerns_one_radar(
    provider: ProviderView,
    id: Seq<char>,
    control_id: Seq<char>,
    value: JsonView,
)
    ensures
        requests_between(provider, provider.after_control(id, control_id, value).0, id),
{
    lemma_no_request(provider, id);
    lemma_announcing(provider, id);
    let announced = provider.issuing(Command::Announce);
    lemma_issue(provider, provider, id, Command::Announce);
    if let Ok(setting) = requested_setting(control_id, value) {
        let command = Command::Furuno { radar_id: id, setting };
        lemma_issue(provider, announced, id, command);
        lemma_install(provider, announced.issuing(command), id);
    }
    lemma_issues(provider, provider, id);
    lemma_issues(provider, provider.announcing(id), id);
}

/// A request for several controls of a radar concerns only that radar.
pub proof fn law_requests_concern_one_radar(
    provider: ProviderView,
    id: Seq<char>,
    entries: Seq<(Seq<char>, JsonView)>,
)
    ensures
        requests_between(provider, provider.after_entries(id, entries).0, id),
    decreases entries.len(),
{
    if entries.len() == 0 {
        lemma_no_request(provider, id);
    } else {
        law_requests_concern_one_radar(provider, id, entries.drop_last());
        let before = provider.after_entries(id, entries.drop_last()).0;
        let (control_id, value) = entries.last();
        law_request_concerns_one_radar(before, id, control_id, value);
        lemma_no_request(before, id);
        lemma_announcing(before, id);
        lemma_issues(before, before, id);
        lemma_issues(before, before.announcing(id), id);
        lemma_requests_join(
            provider,
            before,
            before.after_entry(id, control_id, value).0,
            id,
        );
    }
}

/// The entries of a request are carried out one after the other: a request
/// with the entries of two is the one followed by the other, and it succeeds
/// where both do; one without entries does nothing and succeeds.
pub proof fn law_entries_follow_each_other(
    provider: ProviderView,
    id: Seq<char>,
    first: Seq<(Seq<char>, JsonView)>,
    second: Seq<(Seq<char>, JsonView)>,
)
    ensures
        ({
            let (middle, ok1) = provider.after_entries(id, first);
            let (after, ok2) = middle.after_entries(id, second);
            provider.after_entries(id, first + second) == (after, ok1 && ok2)
        }),
        provider.after_entries(id, Seq::empty()) == (provider, true),
    decreases second.len(),
{
    if second.len() == 0 {
        assert(first + second =~= first);
    } else {
        law_entries_follow_each_other(provider, id, first, second.drop_last());
        assert((first + second).drop_last() =~= first + second.drop_last());
        assert((first + second).last() == second.last());
    }
}

/// A request for one control that is not among the basic five gives the same
/// whether it is made alone or as the one entry of a request for several.
pub proof fn law_single_entry(
    provider: ProviderView,
    id: Seq<char>,
    control_id: Seq<char>,
    value: JsonView,
)
    requires
        control_id != "power"@,
        control_id != "range"@,
        control_id != "gain"@,
        control_id != "sea"@,
        control_id != "rain"@,
    ensures
        ({
            let (after, outcome) = provider.after_control(id, control_id, value);
            provider.after_entries(id, seq![(control_id, value)]) == (after, outcome is Ok)
        }),
{
    let entries = seq![(control_id, value)];
    assert(entries.drop_last() =~= Seq::<(Seq<char>, JsonView)>::empty());
    assert(provider.after_entries(id, entries.drop_last()) == (provider, true));
}

proof fn lemma_no_request(p: ProviderView, id: Seq<char>)
    ensures
        requests_between(p, p, id),
{
    assert(p.outbox.take(p.outbox.len() as int) =~= p.outbox);
}

proof fn lemma_issue(start: ProviderView, p: ProviderView, id: Seq<char>, command: CommandView)
    requires
        requests_between(start, p, id) || p == start,
        concerns_only(command, id),
    ensures
        requests_between(start, p.issuing(command), id),
{
    if p == start {
        lemma_no_request(start, id);
    }
    let after = p.issuing(command);
    assert(after.outbox.take(start.outbox.len() as int) =~= p.outbox.take(
        start.outbox.len() as int,
    ));
}

proof fn lemma_issues(start: ProviderView, p: ProviderView, id: Seq<char>)
    requires
        requests_between(start, p, id),
    ensures
        forall|command: CommandView|
            concerns_only(command, id) ==> requests_between(
                start,
                #[trigger] p.issuing(command),
                id,
            ),
{
    assert forall|command: CommandView| concerns_only(command, id) implies requests_between(
        start,
        #[trigger] p.issuing(command),
        id,
    ) by {
        lemma_issue(start, p, id, command);
    }
}

proof fn lemma_announcing(p: ProviderView, id: Seq<char>)
    ensures
        requests_between(p, p.announcing(id), id),
{
    lemma_no_request(p, id);
    lemma_issue(p, p, id, Command::Announce);
}

proof fn lemma_install(start: ProviderView, p: ProviderView, id: Seq<char>)
    requires
        requests_between(start, p, id),
    ensures
        forall|config: RadarInstallationConfig|
            requests_between(start, #[trigger] p.installing(id, config), id),
{
    assert forall|config: RadarInstallationConfig| requests_between(
        start,
        #[trigger] p.installing(id, config),
        id,
    ) by {
        let stored = ProviderView { config: p.config.insert(id, config), ..p };
        lemma_issue(start, stored, id, Command::SaveConfig);
    }
}

proof fn lemma_requests_join(a: ProviderView, b: ProviderView, c: ProviderView, id: Seq<char>)
    requires
        requests_between(a, b, id),
        requests_between(b, c, id),
    ensures
        requests_between(a, c, id),
{
    assert(c.outbox.take(a.outbox.len() as int) =~= b.outbox.take(a.outbox.len() as int)) by {
        assert forall|k: int| 0 <= k < a.outbox.len() implies c.outbox[k] == b.outbox[k] by {
            assert(c.outbox.take(b.outbox.len() as int)[k] == b.outbox[k]);
        }
    }
    assert forall|k: int| a.outbox.len() <= k < c.outbox.len() implies concerns_only(
        #[trigger] c.outbox[k],
        id,
    ) by {
        if k < b.outbox.len() {
            assert(c.outbox.take(b.outbox.len() as int)[k] == b.outbox[k]);
        }
    }
}

// ---------------------------------------------------------------------------
// Radars
// ---------------------------------------------------------------------------

/// A radar is found by its id where one with that id is listed, and nowhere
/// else; what is told of it bears the id.
pub proof fn law_radar_info(provider: ProviderView, id: Seq<char>)
    ensures
        provider.located(id) is Some <==> located_ids(provider.radars).contains(id),
        provider.located(id) matches Some(i) ==> 0 <= i < provider.radars.len() && radar_state(
            provider.radars[i],
        ).id == id,
{
    located_ids(provider.radars).index_of_first_ensures(id);
}

/// Taking in what the locator found never gives up a radar: all that had a
/// controller still have it, and each radar that was found has one afterwards.
/// What is stored, the clock and the spoke socket are as they were, and what
/// was to be done still is.
pub proof fn law_located_radars_are_managed(provider: ProviderView, radars: Seq<DiscoveryView>)
    ensures
        ({
            let after = provider.after_locating(radars);
            &&& after.radars == radars
            &&& after.config == provider.config
            &&& after.time == provider.time
            &&& after.poll_count == provider.poll_count
            &&& after.receiver.socket == provider.receiver.socket
            &&& after.outbox.len() >= provider.outbox.len()
            &&& after.outbox.take(provider.outbox.len() as int) == provider.outbox
            &&& after.managed.len() >= provider.managed.len()
            &&& after.managed.take(provider.managed.len() as int) == provider.managed
            &&& forall|i: int|
                0 <= i < radars.len() ==> after.manages(radar_id(#[trigger] radars[i]))
        }),
{
    let start = ProviderView { radars, ..provider };
    lemma_admitting_all(start, radars);
}

/// Where the locator finds what it found before, there is nothing to do.
pub proof fn law_locating_again_changes_nothing(provider: ProviderView, radars: Seq<DiscoveryView>)
    ensures
        provider.after_locating(radars).after_locating(radars) == provider.after_locating(radars),
{
    law_located_radars_are_managed(provider, radars);
    let after = provider.after_locating(radars);
    assert(ProviderView { radars, ..after } == after);
    assert(radars.take(radars.len() as int) =~= radars);
    lemma_nothing_to_take_in(after, radars, radars);
}

/// The spokes of a Furuno radar that is found for the first time are received
/// from then on.
pub proof fn law_new_furuno_radars_are_received(
    provider: ProviderView,
    radars: Seq<DiscoveryView>,
    i: int,
)
    requires
        0 <= i < radars.len(),
        radars[i].brand == Brand::Furuno,
        forall|k: int| 0 <= k < i ==> radar_id(#[trigger] radars[k]) != radar_id(radars[i]),
        !provider.manages(radar_id(radars[i])),
    ensures
        radar_ids(provider.after_locating(radars).receiver.radars).contains(radar_id(radars[i])),
{
    let start = ProviderView { radars, ..provider };
    lemma_received(start, radars, i);
}

/// Taking in what the locator found leaves reception in order: each radar is
/// listed once, and of none a full group of spokes waits.
pub proof fn law_reception_stays_in_order(provider: ProviderView, radars: Seq<DiscoveryView>)
    requires
        provider.receiver.wf(),
    ensures
        provider.after_locating(radars).receiver.wf(),
{
    lemma_in_order(ProviderView { radars, ..provider }, radars);
}

/// What a controller tells of its model changes no id, so that radars are found
/// as before, and nothing else but models.
pub proof fn law_models_change_no_id(
    provider: ProviderView,
    id: Seq<char>,
    told: Option<Seq<char>>,
    other: Seq<char>,
)
    ensures
        located_ids(provider.after_model(id, told).radars) == located_ids(provider.radars),
        provider.after_model(id, told).located(other) == provider.located(other),
        provider.after_model(id, told) == (ProviderView {
            radars: provider.after_model(id, told).radars,
            ..provider
        }),
{
    let after = provider.after_model(id, told);
    assert(located_ids(after.radars) =~= located_ids(provider.radars));
}

proof fn lemma_admitting(p: ProviderView, d: DiscoveryView)
    ensures
        ({
            let after = p.admitting(d);
            &&& after.radars == p.radars
            &&& after.config == p.config
            &&& after.time == p.time
            &&& after.poll_count == p.poll_count
            &&& after.receiver.socket == p.receiver.socket
            &&& after.outbox.len() >= p.outbox.len()
            &&& after.outbox.take(p.outbox.len() as int) == p.outbox
            &&& after.managed == p.managed || after.managed == p.managed.push((radar_id(d), d.brand))
            &&& after.manages(radar_id(d))
        }),
{
    let id = radar_id(d);
    assert(p.admitting(d).outbox.take(p.outbox.len() as int) =~= p.outbox);
    if !p.manages(id) {
        let after = p.admitting(d);
        managed_ids(p.managed).index_of_first_ensures(id);
        let ids = managed_ids(after.managed);
        assert(ids =~= managed_ids(p.managed).push(id));
        assert(after.managed == p.managed.push((id, d.brand)));
        assert forall|k: int| 0 <= k < p.managed.len() implies ids[k] != id by {
            assert(managed_ids(p.managed)[k] == ids[k]);
        }
        lemma_first_at(ids, id, p.managed.len() as int);
    }
}

proof fn lemma_still_managed(p: ProviderView, entry: (Seq<char>, Brand), id: Seq<char>)
    requires
        p.manages(id),
    ensures
        managed_ids(p.managed.push(entry)).index_of_first(id) == managed_ids(
            p.managed,
        ).index_of_first(id),
{
    let ids = managed_ids(p.managed);
    let after = managed_ids(p.managed.push(entry));
    ids.index_of_first_ensures(id);
    let i = ids.index_of_first(id)->0;
    assert(after =~= ids.push(entry.0));
    assert forall|k: int| 0 <= k < i implies after[k] != id by {
        assert(ids.take(i)[k] == ids[k]);
    }
    lemma_first_at(after, id, i);
}

proof fn lemma_admitting_all(p: ProviderView, radars: Seq<DiscoveryView>)
    ensures
        ({
            let after = p.admitting_all(radars);
            &&& after.radars == p.radars
            &&& after.config == p.config
            &&& after.time == p.time
            &&& after.poll_count == p.poll_count
            &&& after.receiver.socket == p.receiver.socket
            &&& after.outbox.len() >= p.outbox.len()
            &&& after.outbox.take(p.outbox.len() as int) == p.outbox
            &&& after.managed.len() >= p.managed.len()
            &&& after.managed.take(p.managed.len() as int) == p.managed
            &&& forall|i: int|
                0 <= i < radars.len() ==> after.manages(radar_id(#[trigger] radars[i]))
        }),
    decreases radars.len(),
{
    let n = p.managed.len() as int;
    if radars.len() == 0 {
        assert(p.managed.take(n) =~= p.managed);
        assert(p.outbox.take(p.outbox.len() as int) =~= p.outbox);
    } else {
        let rest = radars.drop_last();
        lemma_admitting_all(p, rest);
        let before = p.admitting_all(rest);
        let d = radars.last();
        lemma_admitting(before, d);
        let after = before.admitting(d);
        assert(after.managed.take(n) =~= before.managed.take(n));
        let done = p.outbox.len() as int;
        assert(after.outbox.take(done) =~= before.outbox.take(done)) by {
            assert forall|k: int| 0 <= k < done implies after.outbox[k] == before.outbox[k] by {
                assert(after.outbox.take(before.outbox.len() as int)[k] == before.outbox[k]);
            }
        }
        assert forall|i: int| 0 <= i < radars.len() implies after.manages(
            radar_id(#[trigger] radars[i]),
        ) by {
            if i < rest.len() {
                assert(rest[i] == radars[i]);
                lemma_still_managed(before, (radar_id(d), d.brand), radar_id(radars[i]));
            }
        }
    }
}

proof fn lemma_nothing_to_take_in(
    p: ProviderView,
    radars: Seq<DiscoveryView>,
    part: Seq<DiscoveryView>,
)
    requires
        forall|i: int| 0 <= i < radars.len() ==> p.manages(radar_id(#[trigger] radars[i])),
        part.len() <= radars.len(),
        part == radars.take(part.len() as int),
    ensures
        p.admitting_all(part) == p,
    decreases part.len(),
{
    if part.len() > 0 {
        assert(part.drop_last() =~= radars.take(part.len() - 1));
        lemma_nothing_to_take_in(p, radars, part.drop_last());
        assert(part.last() == radars[part.len() - 1]);
    }
}

proof fn lemma_reception_grows(p: ProviderView, d: DiscoveryView, id: Seq<char>)
    requires
        radar_ids(p.receiver.radars).contains(id),
    ensures
        radar_ids(p.admitting(d).receiver.radars).contains(id),
{
    let before = radar_ids(p.receiver.radars);
    let after = radar_ids(p.admitting(d).receiver.radars);
    let k = choose|k: int| 0 <= k < before.len() && before[k] == id;
    assert(after[k] == before[k]);
}

proof fn lemma_received(p: ProviderView, radars: Seq<DiscoveryView>, i: int)
    requires
        0 <= i < radars.len(),
        radars[i].brand == Brand::Furuno,
        forall|k: int| 0 <= k < i ==> radar_id(#[trigger] radars[k]) != radar_id(radars[i]),
        !p.manages(radar_id(radars[i])),
    ensures
        radar_ids(p.admitting_all(radars).receiver.radars).contains(radar_id(radars[i])),
    decreases radars.len(),
{
    let rest = radars.drop_last();
    let before = p.admitting_all(rest);
    let d = radars.last();
    let id = radar_id(radars[i]);
    if i < rest.len() {
        assert(rest[i] == radars[i]);
        assert forall|k: int| 0 <= k < i implies radar_id(#[trigger] rest[k]) != radar_id(
            rest[i],
        ) by {
            assert(rest[k] == radars[k]);
        }
        lemma_received(p, rest, i);
        lemma_reception_grows(before, d, id);
    } else {
        assert forall|k: int| 0 <= k < rest.len() implies radar_id(#[trigger] rest[k]) != id by {
            assert(rest[k] == radars[k]);
        }
        lemma_not_managed_yet(p, rest, id);
        let after = radar_ids(before.admitting(d).receiver.radars);
        if !radar_ids(before.receiver.radars).contains(id) {
            assert(after[after.len() - 1] == id);
        }
    }
}

proof fn lemma_in_order(p: ProviderView, radars: Seq<DiscoveryView>)
    requires
        p.receiver.wf(),
    ensures
        p.admitting_all(radars).receiver.wf(),
    decreases radars.len(),
{
    if radars.len() > 0 {
        lemma_in_order(p, radars.drop_last());
        let before = p.admitting_all(radars.drop_last());
        let d = radars.last();
        if !radar_ids(before.receiver.radars).contains(radar_id(d)) {
            law_tracked_once(before.receiver.radars, radar_id(d), radar_ip(d));
        }
    }
}

proof fn lemma_not_managed_yet(p: ProviderView, radars: Seq<DiscoveryView>, id: Seq<char>)
    requires
        !p.manages(id),
        forall|k: int| 0 <= k < radars.len() ==> radar_id(#[trigger] radars[k]) != id,
    ensures
        !p.admitting_all(radars).manages(id),
    decreases radars.len(),
{
    if radars.len() > 0 {
        let rest = radars.drop_last();
        let d = radars.last();
        assert forall|k: int| 0 <= k < rest.len() implies radar_id(#[trigger] rest[k]) != id by {
            assert(rest[k] == radars[k]);
        }
        assert(radar_id(radars[radars.len() - 1]) != id);
        lemma_not_managed_yet(p, rest, id);
        let before = p.admitting_all(rest);
        lemma_admitting(before, d);
        let after = before.admitting(d);
        let ids = managed_ids(after.managed);
        managed_ids(before.managed).index_of_first_ensures(id);
        assert forall|k: int| 0 <= k < ids.len() implies ids[k] != id by {
            if k < before.managed.len() {
                assert(managed_ids(before.managed)[k] == ids[k]);
            }
        }
        lemma_first_nowhere(ids, id);
    }
}

// ---------------------------------------------------------------------------
// What is known of radars
// ---------------------------------------------------------------------------

/// A radar is found at its first place in the list; its controller is the one
/// that was made for it, and a radar for which none was made has none.
pub proof fn law_lookups(provider: ProviderView, id: Seq<char>, i: int)
    ensures
        0 <= i < provider.radars.len() && radar_id(provider.radars[i]) == id && (forall|k: int|
            0 <= k < i ==> radar_id(#[trigger] provider.radars[k]) != id) ==> provider.located(id)
            == Some(i),
        (forall|k: int|
            0 <= k < provider.radars.len() ==> radar_id(#[trigger] provider.radars[k]) != id)
            ==> provider.located(id) is None,
        0 <= i < provider.managed.len() && provider.managed[i].0 == id && (forall|k: int|
            0 <= k < i ==> (#[trigger] provider.managed[k]).0 != id) ==> provider.controller(id)
            == Some(provider.managed[i].1),
        (forall|k: int|
            0 <= k < provider.managed.len() ==> (#[trigger] provider.managed[k]).0 != id)
            ==> provider.controller(id) is None,
        provider.manages(id) <==> provider.controller(id) is Some,
{
    let ids = located_ids(provider.radars);
    let managed = managed_ids(provider.managed);
    assert(ids.len() == provider.radars.len());
    assert(managed.len() == provider.managed.len());
    if 0 <= i < provider.radars.len() && radar_id(provider.radars[i]) == id && (forall|k: int|
        0 <= k < i ==> radar_id(#[trigger] provider.radars[k]) != id) {
        assert forall|k: int| 0 <= k < i implies ids[k] != id by {
            assert(radar_id(provider.radars[k]) != id);
        }
        lemma_first_at(ids, id, i);
    }
    if forall|k: int|
        0 <= k < provider.radars.len() ==> radar_id(#[trigger] provider.radars[k]) != id {
        assert forall|k: int| 0 <= k < ids.len() implies ids[k] != id by {
            assert(radar_id(provider.radars[k]) != id);
        }
        lemma_first_nowhere(ids, id);
    }
    if 0 <= i < provider.managed.len() && provider.managed[i].0 == id && (forall|k: int|
        0 <= k < i ==> (#[trigger] provider.managed[k]).0 != id) {
        assert forall|k: int| 0 <= k < i implies managed[k] != id by {
            assert(provider.managed[k].0 != id);
        }
        lemma_first_at(managed, id, i);
    }
    if forall|k: int|
        0 <= k < provider.managed.len() ==> (#[trigger] provider.managed[k]).0 != id {
        assert forall|k: int| 0 <= k < managed.len() implies managed[k] != id by {
            assert(provider.managed[k].0 != id);
        }
        lemma_first_nowhere(managed, id);
    }
}

/// A radar that has no controller yet gets one: the engine is asked to add it
/// under its id, with the controller that it needs, and then is told its model,
/// where one is known. For a Furuno radar whose spokes are not received yet they
/// are from then on, from its address, and before all else the spoke socket is
/// opened where it is not open.
pub proof fn law_new_radar(
    provider: ProviderView,
    d: DiscoveryView,
    ip: Seq<char>,
    rest: Seq<char>,
)
    requires
        !provider.manages(radar_id(d)),
        !ip.contains(':'),
        d.address == ip || d.address == ip + seq![':'] + rest,
    ensures
        ({
            let id = radar_id(d);
            let after = provider.admitting(d);
            let new = d.brand == Brand::Furuno && !radar_ids(provider.receiver.radars).contains(id);
            let listen: Seq<CommandView> = if new && provider.receiver.socket is None {
                seq![Command::ListenFuruno]
            } else {
                Seq::empty()
            };
            let add: Seq<CommandView> = seq![
                Command::AddRadar { radar_id: id, controller: controller_for(d) },
            ];
            let tell: Seq<CommandView> = match d.model {
                Some(model) => seq![Command::SetModelInfo { radar_id: id, model }],
                None => Seq::empty(),
            };
            &&& after.outbox == provider.outbox + listen + add + tell
            &&& after.managed == provider.managed + seq![(id, d.brand)]
            &&& new ==> after.receiver.radars == provider.receiver.radars + seq![fresh_radar(id, ip)]
            &&& !new ==> after.receiver.radars == provider.receiver.radars
            &&& after.controller(id) == Some(d.brand)
        }),
{
    let id = radar_id(d);
    let after = provider.admitting(d);
    law_before_first(ip, ':', rest);
    lemma_admitting(provider, d);
    assert(after.managed =~= provider.managed + seq![(id, d.brand)]);
    assert(after.managed == provider.managed.push((id, d.brand)));
    let new = d.brand == Brand::Furuno && !radar_ids(provider.receiver.radars).contains(id);
    if new {
        assert(after.receiver.radars =~= provider.receiver.radars + seq![fresh_radar(id, ip)]);
    }
    let listen: Seq<CommandView> = if new && provider.receiver.socket is None {
        seq![Command::ListenFuruno]
    } else {
        Seq::empty()
    };
    let add: Seq<CommandView> = seq![
        Command::AddRadar { radar_id: id, controller: controller_for(d) },
    ];
    let tell: Seq<CommandView> = match d.model {
        Some(model) => seq![Command::SetModelInfo { radar_id: id, model }],
        None => Seq::empty(),
    };
    assert(after.outbox =~= provider.outbox + listen + add + tell);
    managed_ids(provider.managed).index_of_first_ensures(id);
    let ids = managed_ids(after.managed);
    assert(ids =~= managed_ids(provider.managed).push(id));
    assert forall|k: int| 0 <= k < provider.managed.len() implies ids[k] != id by {
        assert(managed_ids(provider.managed)[k] == ids[k]);
    }
    lemma_first_at(ids, id, provider.managed.len() as int);
}

/// A radar that has a controller is left as it is, and the radars of a run are
/// taken in one after the other.
pub proof fn law_radars_one_by_one(
    provider: ProviderView,
    first: Seq<DiscoveryView>,
    d: DiscoveryView,
)
    ensures
        provider.manages(radar_id(d)) ==> provider.admitting(d) == provider,
        provider.admitting_all(first.push(d)) == provider.admitting_all(first).admitting(d),
        provider.admitting_all(Seq::empty()) == provider,
        provider.after_locating(first) == (ProviderView { radars: first, ..provider }).admitting_all(
            first,
        ),
{
    assert(first.push(d).drop_last() =~= first);
}

/// What a Furuno controller tells of its radar's model is believed: every radar
/// with the id is of that model afterwards, and no other radar changes. What the
/// controller of another brand tells is not, and one that tells nothing changes
/// nothing.
pub proof fn law_told_models(
    provider: ProviderView,
    id: Seq<char>,
    model: Seq<char>,
    i: int,
)
    requires
        0 <= i < provider.radars.len(),
    ensures
        ({
            let after = provider.after_model(id, Some(model));
            let d = provider.radars[i];
            &&& after.radars.len() == provider.radars.len()
            &&& provider.controller(id) == Some(Brand::Furuno) && radar_id(d) == id
                ==> after.radars[i] == DiscoveryView { model: Some(model), ..d }
            &&& provider.controller(id) != Some(Brand::Furuno) || radar_id(d) != id
                ==> after.radars[i] == d
            &&& provider.after_model(id, None) == provider
        }),
        provider.located(id) == Some(i) ==> {
            &&& provider.controller(id) == Some(Brand::Furuno) ==> provider.up_to_date(
                id,
                Some(model),
            ) == Some(DiscoveryView { model: Some(model), ..provider.radars[i] })
            &&& provider.controller(id) != Some(Brand::Furuno) ==> provider.up_to_date(
                id,
                Some(model),
            ) == Some(provider.radars[i])
            &&& provider.up_to_date(id, None) == Some(provider.radars[i])
        },
        provider.located(id) is None ==> provider.up_to_date(id, Some(model)) is None
            && provider.up_to_date(id, None) is None,
{
}

// ---------------------------------------------------------------------------
// The values of controls
// ---------------------------------------------------------------------------

/// The names of the values that the provider itself adds are different from each
/// other and from those of the basic controls.
proof fn lemma_value_names()
    ensures
        "firmwareVersion"@.len() == 15,
        "operatingHours"@.len() == 14,
        "serialNumber"@.len() == 12,
        "bearingAlignment"@.len() == 16,
        "antennaHeight"@.len() == 13,
        "power"@.len() == 5,
        "range"@.len() == 5,
        "gain"@.len() == 4,
        "sea"@.len() == 3,
        "rain"@.len() == 4,
        "noiseReduction"@.len() == 14,
        "interferenceRejection"@.len() == 21,
        "operatingHours"@ != "noiseReduction"@,
        "power"@ != "range"@,
        "gain"@ != "rain"@,
{
    reveal_strlit("firmwareVersion");
    reveal_strlit("operatingHours");
    reveal_strlit("serialNumber");
    reveal_strlit("noiseReduction");
    reveal_strlit("power");
    reveal_strlit("range");
    reveal_strlit("gain");
    reveal_strlit("rain");
    lemma_extended_names();
    assert("operatingHours"@[0] == 'o' && "noiseReduction"@[0] == 'n');
    assert("power"@[0] == 'p' && "range"@[0] == 'r');
    assert("gain"@[0] == 'g' && "rain"@[0] == 'r');
}

/// One of the values that the provider itself adds.
pub open spec fn added_value(name: Seq<char>) -> bool {
    ||| name == "firmwareVersion"@
    ||| name == "operatingHours"@
    ||| name == "serialNumber"@
    ||| name == "bearingAlignment"@
    ||| name == "antennaHeight"@
}

/// What the controller tells of a control is what clients read, unless the
/// provider has the value itself; where the controller tells nothing of its
/// controls, or there is none, nothing that it tells is read.
pub proof fn law_told_values(provider: ProviderView, id: Seq<char>, name: Seq<char>, live: LiveView)
    requires
        provider.located(id) is Some,
        provider.manages(id),
        live.controls is Some,
        !added_value(name),
    ensures
        provider.control_value(id, name, live) == if live.controls->0.contains_key(name) {
            Some(live.controls->0[name])
        } else {
            None
        },
{
}

/// Where no controller tells the values of the controls, the radar stands by at
/// a range of 1852 metres, adjusts gain and sea clutter itself from a level of
/// 50, suppresses no rain clutter, and has noise reduction and interference
/// rejection off; nothing else is known.
pub proof fn law_values_without_a_controller(
    provider: ProviderView,
    id: Seq<char>,
    name: Seq<char>,
    live: LiveView,
)
    requires
        provider.located(id) is Some,
        !provider.manages(id) || live.controls is None,
    ensures
        provider.control_value(id, "power"@, live) == Some(JsonView::Text("standby"@)),
        provider.control_value(id, "range"@, live) == Some(integer_json(1852)),
        provider.control_value(id, "gain"@, live) matches Some(v) && holds(
            v,
            "mode"@,
            JsonView::Text("auto"@),
        ) && holds(v, "value"@, integer_json(50)),
        provider.control_value(id, "sea"@, live) == provider.control_value(id, "gain"@, live),
        provider.control_value(id, "rain"@, live) matches Some(v) && holds(
            v,
            "mode"@,
            JsonView::Text("manual"@),
        ) && holds(v, "value"@, integer_json(0)),
        provider.control_value(id, "noiseReduction"@, live) == Some(JsonView::Bool(false)),
        provider.control_value(id, "interferenceRejection"@, live) == Some(JsonView::Bool(false)),
        !added_value(name) && name != "power"@ && name != "range"@ && name != "gain"@ && name
            != "sea"@ && name != "rain"@ && name != "noiseReduction"@ && name
            != "interferenceRejection"@ ==> provider.control_value(id, name, live) is None,
        provider.state_v5(id, live)->0.status == "standby"@,
{
    lemma_value_names();
    lemma_mode_and_level("auto"@, 50);
    lemma_mode_and_level("manual"@, 0);
}

proof fn lemma_mode_and_level(mode: Seq<char>, level: u64)
    ensures
        holds(mode_and_level(mode, level), "mode"@, JsonView::Text(mode)),
        holds(mode_and_level(mode, level), "value"@, integer_json(level as int)),
{
    reveal_strlit("mode");
    reveal_strlit("value");
    assert("mode"@.len() == 4 && "value"@.len() == 5);
    let v = mode_and_level(mode, level);
    assert(v->Object_0[0] == ("mode"@, JsonView::Text(mode)));
    assert(v->Object_0[1] == ("value"@, integer_json(level as int)));
}

/// What the provider itself adds to the values of the controls: the serial
/// number that was found; the firmware version and the operating hours that a
/// Furuno controller tells, and no other; and how the radar is installed. What
/// it has of these is read whatever the controller tells under the same name.
pub proof fn law_added_values(provider: ProviderView, id: Seq<char>, i: int, live: LiveView)
    requires
        provider.located(id) == Some(i),
    ensures
        provider.radars[i].serial_number matches Some(serial) ==> provider.control_value(
            id,
            "serialNumber"@,
            live,
        ) == Some(JsonView::Text(serial)),
        provider.controller(id) == Some(Brand::Furuno) && live.firmware_version is Some
            ==> provider.control_value(id, "firmwareVersion"@, live) == Some(
            JsonView::Text(live.firmware_version->0),
        ),
        provider.controller(id) == Some(Brand::Furuno) && live.operating_hours is Some
            ==> provider.control_value(id, "operatingHours"@, live) == live.operating_hours,
        provider.controller(id) != Some(Brand::Furuno) && !(provider.manages(id)
            && live.controls is Some) ==> provider.control_value(id, "firmwareVersion"@, live) is None
            && provider.control_value(id, "operatingHours"@, live) is None,
        provider.config.contains_key(id) && provider.config[id].bearing_alignment is Some
            ==> provider.control_value(id, "bearingAlignment"@, live) == Some(
            double_json(provider.config[id].bearing_alignment->0),
        ),
        provider.config.contains_key(id) && provider.config[id].antenna_height is Some
            ==> provider.control_value(id, "antennaHeight"@, live) == Some(
            integer_json(provider.config[id].antenna_height->0 as int),
        ),
        provider.radars[i].serial_number is None && !(provider.manages(id)
            && live.controls is Some) ==> provider.control_value(id, "serialNumber"@, live) is None,
        !provider.config.contains_key(id) && !(provider.manages(id) && live.controls is Some) ==> {
            &&& provider.control_value(id, "bearingAlignment"@, live) is None
            &&& provider.control_value(id, "antennaHeight"@, live) is None
        },
{
    lemma_value_names();
}

/// The state of a radar bears its id and the values of its controls, and its
/// status is that of the power control where that is a text, and standing by
/// where it is not. Only of a known radar there is a state.
pub proof fn law_state(provider: ProviderView, id: Seq<char>, name: Seq<char>, live: LiveView)
    ensures
        provider.state_v5(id, live) is Some <==> provider.located(id) is Some,
        provider.located(id) is None ==> provider.control_value(id, name, live) is None,
        provider.state_v5(id, live) matches Some(state) ==> {
            &&& state.id == id
            &&& state.timestamp == "2025-01-01T00:00:00Z"@
            &&& state.disabled_controls.len() == 0
            &&& provider.control_value(id, name, live) == if state.controls.contains_key(name) {
                Some(state.controls[name])
            } else {
                None
            }
            &&& match provider.control_value(id, "power"@, live) {
                Some(JsonView::Text(status)) => state.status == status,
                _ => state.status == "standby"@,
            }
        },
{
}

// ---------------------------------------------------------------------------
// Polls and emissions
// ---------------------------------------------------------------------------

/// Ten polls make a second, and the list of radars is emitted every ten seconds.
pub proof fn law_pace(polls: u64)
    ensures
        polls * POLL_INTERVAL * 10 == polls * 1000,
        LIST_INTERVAL * POLL_INTERVAL == 10_000,
{
    assert(polls * POLL_INTERVAL * 10 == polls * 1000) by (nonlinear_arith)
        requires
            POLL_INTERVAL == 100,
    ;
}

/// A radar is emitted under `radars.` and its id, with its state; a run of
/// radars one by one, in order.
pub proof fn law_emissions(radars: Seq<DiscoveryView>, i: int)
    requires
        0 <= i < radars.len(),
    ensures
        emissions(radars).len() == radars.len(),
        emissions(radars)[i].path == "radars."@ + emissions(radars)[i].state.id,
        emissions(radars)[i].state == radar_state(radars[i]),
{
}

/// Of what came out of looking for radars, each radar that was found counts
/// once, in order, and nothing else does.
pub proof fn law_discovered(events: Seq<LocatorEvent>, d: RadarDiscovery)
    ensures
        discovered(events.push(LocatorEvent::RadarDiscovered(d))) == discovered(events).push(d@),
        discovered(events.push(LocatorEvent::Other)) == discovered(events),
        discovered(Seq::empty()).len() == 0,
{
    let found = events.push(LocatorEvent::RadarDiscovered(d));
    let other = events.push(LocatorEvent::Other);
    assert(found.drop_last() =~= events);
    assert(other.drop_last() =~= events);
}

/// An installation that is handed in is what is stored about the radar, and is
/// to be saved; what is stored about other radars is as it was.
pub proof fn law_installing(
    provider: ProviderView,
    id: Seq<char>,
    config: RadarInstallationConfig,
    other: Seq<char>,
)
    ensures
        ({
            let after = provider.installing(id, config);
            &&& after.config.contains_key(id)
            &&& after.config[id] == config
            &&& after.installation(id) == config
            &&& other != id ==> after.installation(other) == provider.installation(other)
            &&& other != id ==> (after.config.contains_key(other)
                <==> provider.config.contains_key(other))
            &&& after.outbox == provider.outbox + seq![Command::SaveConfig]
            &&& after == ProviderView { outbox: after.outbox, config: after.config, ..provider }
        }),
        !provider.config.contains_key(id) ==> provider.installation(id)
            == (RadarInstallationConfig { bearing_alignment: None, antenna_height: None }),
        provider.config.contains_key(id) ==> provider.installation(id) == provider.config[id],
{
    assert(provider.installing(id, config).outbox =~= provider.outbox + seq![Command::SaveConfig]);
}

} // verus!
