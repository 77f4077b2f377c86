//! What a radar can do, and the targets that are followed on it.

use crate::double::{law_at_least_is_by_the_whole_part, Double};
use crate::json::{integer_json, law_integer_sides};
use crate::locator::{Brand, DiscoveryView, RadarDiscovery};
use crate::signalk_ffi::{
    calls_view, collision_call, no_measure, publish_collision_warning, zero_measure, Call, CallView, Measure,
};
use crate::spoke_receiver::FURUNO_OUTPUT_SPOKES;
use crate::text::{decimal, decimal_text};
use vstd::prelude::*;
use vstd::string::*;

verus! {

// ---------------------------------------------------------------------------
// Capabilities
// ---------------------------------------------------------------------------

/// A feature that the provider adds to a radar.
#[derive(Clone, Copy, PartialEq, Eq, Structural, Debug)]
pub enum SupportedFeature {
    Arpa,
    GuardZones,
    Trails,
    DualRange,
}

/// What the table of models tells of a model.
#[derive(Clone, Copy, PartialEq, Eq, Structural, Debug)]
pub struct ModelInfo {
    pub has_dual_range: bool,
    pub max_spoke_length: u16,
}

/// How the capabilities of a radar are to be built.
#[derive(Debug)]
pub enum CapabilityPlan {
    /// From the table of models, with the spokes that are streamed.
    FromModel {
        radar_id: String,
        features: Vec<SupportedFeature>,
        spokes_per_revolution: u16,
        max_spoke_length: u16,
    },
    /// From what was discovered.
    FromDiscovery {
        discovery: RadarDiscovery,
        radar_id: String,
        features: Vec<SupportedFeature>,
    },
}

/// The model of a plan.
pub enum PlanView {
    FromModel {
        radar_id: Seq<char>,
        features: Seq<SupportedFeature>,
        spokes_per_revolution: u16,
        max_spoke_length: u16,
    },
    FromDiscovery {
        discovery: DiscoveryView,
        radar_id: Seq<char>,
        features: Seq<SupportedFeature>,
    },
}

impl View for CapabilityPlan {
    type V = PlanView;

    open spec fn view(&self) -> PlanView {
        match *self {
            CapabilityPlan::FromModel {
                radar_id,
                features,
                spokes_per_revolution,
                max_spoke_length,
            } => PlanView::FromModel {
                radar_id: radar_id@,
                features: features@,
                spokes_per_revolution,
                max_spoke_length,
            },
            CapabilityPlan::FromDiscovery { discovery, radar_id, features } =>
                PlanView::FromDiscovery {
                    discovery: discovery@,
                    radar_id: radar_id@,
                    features: features@,
                },
        }
    }
}

/// What the table tells of a radar whose model is known.
pub open spec fn known_info(d: DiscoveryView, info: Option<ModelInfo>) -> Option<ModelInfo> {
    if d.model is Some {
        info
    } else {
        None
    }
}

/// The features of a radar: followed targets, guard zones and trails on every
/// one, and two ranges at once where the model has them.
pub open spec fn features_of(info: Option<ModelInfo>) -> Seq<SupportedFeature> {
    let basic = seq![
        SupportedFeature::Arpa,
        SupportedFeature::GuardZones,
        SupportedFeature::Trails,
    ];
    match info {
        Some(i) => if i.has_dual_range {
            basic.push(SupportedFeature::DualRange)
        } else {
            basic
        },
        None => basic,
    }
}

/// How the capabilities of a radar are to be built. Only the spokes of Furuno
/// radars are merged, so only they need their number corrected.
pub open spec fn plan_for(d: DiscoveryView, radar_id: Seq<char>, info: Option<ModelInfo>) -> PlanView {
    let known = known_info(d, info);
    let features = features_of(known);
    match known {
        Some(i) => if d.brand == Brand::Furuno {
            PlanView::FromModel {
                radar_id,
                features,
                spokes_per_revolution: FURUNO_OUTPUT_SPOKES,
                max_spoke_length: i.max_spoke_length,
            }
        } else {
            PlanView::FromDiscovery { discovery: d, radar_id, features }
        },
        None => PlanView::FromDiscovery { discovery: d, radar_id, features },
    }
}

/// How the capabilities of a radar are to be built; `info` is what the table
/// of models tells of its model.
pub fn plan_capabilities(discovery: RadarDiscovery, radar_id: &str, info: Option<ModelInfo>) -> (plan:
    CapabilityPlan)
    ensures
        plan@ == plan_for(discovery@, radar_id@, info),
{
    let known = if discovery.model.is_some() {
        info
    } else {
        None
    };
    let mut features: Vec<SupportedFeature> = vec![
        SupportedFeature::Arpa,
        SupportedFeature::GuardZones,
        SupportedFeature::Trails,
    ];
    if let Some(i) = known {
        if i.has_dual_range {
            features.push(SupportedFeature::DualRange);
        }
    }
    assert(features@ =~= features_of(known));
    if discovery.brand == Brand::Furuno {
        if let Some(i) = known {
            return CapabilityPlan::FromModel {
                radar_id: radar_id.to_owned(),
                features,
                spokes_per_revolution: FURUNO_OUTPUT_SPOKES,
                max_spoke_length: i.max_spoke_length,
            };
        }
    }
    CapabilityPlan::FromDiscovery { discovery, radar_id: radar_id.to_owned(), features }
}

// ---------------------------------------------------------------------------
// Targets
// ---------------------------------------------------------------------------

/// A target that is to be followed.
#[derive(Debug)]
pub struct Acquisition {
    pub radar_id: String,
    /// Degrees from 0 up to, and without, 360.
    pub bearing: Double,
    /// Metres, more than 0.
    pub distance: Double,
    /// Milliseconds.
    pub timestamp: u64,
}

/// What is wrong with the position of a target, if anything is.
pub open spec fn position_error(bearing: Double, distance: Double) -> Option<Seq<char>> {
    if bearing.below_zero() || bearing.at_least(360) {
        Some("bearing must be 0-360"@)
    } else if distance.at_most_zero() {
        Some("distance must be positive"@)
    } else {
        None
    }
}

/// What is wrong with the position of a target, if anything is.
pub fn check_position(bearing: &Double, distance: &Double) -> (error: Option<String>)
    ensures
        match error {
            Some(e) => position_error(*bearing, *distance) == Some(e@),
            None => position_error(*bearing, *distance) is None,
        },
{
    if bearing.is_below_zero() || bearing.is_at_least(360) {
        return Some("bearing must be 0-360".to_owned());
    }
    if distance.is_at_most_zero() {
        return Some("distance must be positive".to_owned());
    }
    None
}

/// The id of a target that was acquired, by the engine's answer.
pub fn acquire_reply(id: Option<u32>) -> (result: Result<u32, String>)
    ensures
        match result {
            Ok(i) => id == Some(i),
            Err(e) => id is None && e@ == "max targets reached or radar not found"@,
        },
{
    match id {
        Some(i) => Ok(i),
        None => Err("max targets reached or radar not found".to_owned()),
    }
}

/// Something that happened to a target.
#[derive(Debug)]
pub enum ArpaEvent {
    /// A target comes too close; `state` is the SignalK state of the warning.
    CollisionWarning { target_id: u32, state: String, cpa: Measure, tcpa: Measure },
    /// A target is followed from now on.
    TargetAcquired { target_id: u32 },
    /// A target is no longer found.
    TargetLost { target_id: u32 },
    /// A target is followed on.
    TargetUpdate,
}

/// The call that an event asks for, if it asks for one. A target that is lost
/// is no longer dangerous.
pub open spec fn event_call(radar_id: Seq<char>, event: ArpaEvent) -> Option<CallView> {
    match event {
        ArpaEvent::CollisionWarning { target_id, state, cpa, tcpa } => Some(
            collision_call(radar_id, target_id, state@, cpa@, tcpa@),
        ),
        ArpaEvent::TargetLost { target_id } => Some(
            collision_call(radar_id, target_id, "normal"@, zero_measure(), zero_measure()),
        ),
        _ => None,
    }
}

/// The calls that a run of events asks for, in order.
pub open spec fn event_calls(radar_id: Seq<char>, events: Seq<ArpaEvent>) -> Seq<CallView>
    decreases events.len(),
{
    if events.len() == 0 {
        Seq::empty()
    } else {
        let before = event_calls(radar_id, events.drop_last());
        match event_call(radar_id, events.last()) {
            Some(call) => before.push(call),
            None => before,
        }
    }
}

fn call_for(radar_id: &str, event: &ArpaEvent) -> (call: Option<Call>)
    ensures
        match call {
            Some(c) => event_call(radar_id@, *event) == Some(c@),
            None => event_call(radar_id@, *event) is None,
        },
{
    match event {
        ArpaEvent::CollisionWarning { target_id, state, cpa, tcpa } => Some(
            publish_collision_warning(radar_id, *target_id, state.as_str(), cpa, tcpa),
        ),
        ArpaEvent::TargetLost { target_id } => {
            let zero = no_measure();
            Some(publish_collision_warning(radar_id, *target_id, "normal", &zero, &zero))
        },
        ArpaEvent::TargetAcquired { target_id: _ } => None,
        ArpaEvent::TargetUpdate => None,
    }
}

/// The calls that a run of events asks for, in order.
pub fn arpa_calls(radar_id: &str, events: &Vec<ArpaEvent>) -> (calls: Vec<Call>)
    ensures
        calls_view(calls@) == event_calls(radar_id@, events@),
{
    let mut calls: Vec<Call> = Vec::new();
    assert(calls_view(calls@) =~= event_calls(radar_id@, events@.take(0)));
    let n: usize = events.len();
    let mut i: usize = 0;
    while i < n
        invariant
            i <= n,
            n == events@.len(),
            calls_view(calls@) == event_calls(radar_id@, events@.take(i as int)),
        decreases n - i,
    {
        let ghost before = calls@;
        proof {
            assert(events@.take(i + 1).drop_last() =~= events@.take(i as int));
        }
        if let Some(call) = call_for(radar_id, &events[i]) {
            calls.push(call);
            assert(calls_view(calls@) =~= calls_view(before).push(call@));
        }
        i += 1;
    }
    assert(events@.take(n as int) =~= events@);
    calls
}

// ---------------------------------------------------------------------------
// Two ranges at once
// ---------------------------------------------------------------------------

/// Whether a second range may be asked of a radar, by whether it has two.
pub fn check_dual_range(supported: bool) -> (result: Result<(), String>)
    ensures
        match result {
            Ok(_) => supported,
            Err(e) => !supported && e@ == "Radar does not support dual-range"@,
        },
{
    if supported {
        Ok(())
    } else {
        Err("Radar does not support dual-range".to_owned())
    }
}

/// The outcome of asking for a second range, by whether the engine took it.
pub fn dual_range_reply(accepted: bool, secondary_range: u32) -> (result: Result<(), String>)
    ensures
        match result {
            Ok(_) => accepted,
            Err(e) => !accepted && e@ == "Secondary range "@ + decimal_text(
                secondary_range as nat,
            ) + " exceeds maximum"@,
        },
{
    if accepted {
        Ok(())
    } else {
        let mut e = "Secondary range ".to_owned();
        e.append(decimal(secondary_range as u64).as_str());
        e.append(" exceeds maximum");
        Err(e)
    }
}

// ---------------------------------------------------------------------------
// Laws
// ---------------------------------------------------------------------------

/// Every radar has followed targets, guard zones and trails; two ranges at once
/// are its feature where, and only where, its model is known and has them. None
/// is named twice.
pub proof fn law_features(d: DiscoveryView, radar_id: Seq<char>, info: Option<ModelInfo>)
    ensures
        ({
            let features = match plan_for(d, radar_id, info) {
                PlanView::FromModel { features, .. } => features,
                PlanView::FromDiscovery { features, .. } => features,
            };
            let dual = d.model is Some && info is Some && info->0.has_dual_range;
            &&& features.contains(SupportedFeature::Arpa)
            &&& features.contains(SupportedFeature::GuardZones)
            &&& features.contains(SupportedFeature::Trails)
            &&& features.contains(SupportedFeature::DualRange) <==> dual
            &&& features.len() == if dual {
                4int
            } else {
                3
            }
        }),
{
    let known = known_info(d, info);
    let features = features_of(known);
    assert(features[0] == SupportedFeature::Arpa);
    assert(features[1] == SupportedFeature::GuardZones);
    assert(features[2] == SupportedFeature::Trails);
    if d.model is Some && info is Some && info->0.has_dual_range {
        assert(features[3] == SupportedFeature::DualRange);
    }
}

/// The capabilities of a Furuno radar whose model is in the table are built from
/// the table, with 512 spokes in a revolution and the length of spokes that the
/// table tells; those of any other radar from what was found.
pub proof fn law_capabilities(d: DiscoveryView, radar_id: Seq<char>, info: Option<ModelInfo>)
    ensures
        match plan_for(d, radar_id, info) {
            PlanView::FromModel { radar_id: id, spokes_per_revolution, max_spoke_length, .. } => {
                &&& d.brand == Brand::Furuno && d.model is Some && info is Some
                &&& id == radar_id
                &&& spokes_per_revolution == 512
                &&& max_spoke_length == info->0.max_spoke_length
            },
            PlanView::FromDiscovery { discovery, radar_id: id, .. } => {
                &&& d.brand != Brand::Furuno || d.model is None || info is None
                &&& id == radar_id
                &&& discovery == d
            },
        },
{
}

/// A target can be followed at a whole bearing from 0 to 359 degrees and a whole
/// distance above 0; any other whole bearing is refused first, and then any
/// other whole distance.
pub proof fn law_target_positions(bearing: i32, distance: i32)
    ensures
        ({
            let b = integer_json(bearing as int).double()->0;
            let d = integer_json(distance as int).double()->0;
            let error = position_error(b, d);
            &&& bearing < 0 || bearing >= 360 ==> error == Some("bearing must be 0-360"@)
            &&& 0 <= bearing < 360 && distance <= 0 ==> error == Some("distance must be positive"@)
            &&& 0 <= bearing < 360 && distance > 0 ==> error is None
        }),
{
    law_integer_sides(bearing as i64, 360);
    law_integer_sides(distance as i64, 360);
}

/// A bearing that is not negative and whose whole part is below 360 is accepted,
/// with any fraction; a distance is accepted where it is above zero.
pub proof fn law_target_fractions(bearing: Double, distance: Double)
    requires
        !bearing.nan(),
        !bearing.infinite(),
        !distance.nan(),
    ensures
        position_error(bearing, distance) is None <==> {
            &&& bearing.zero() || !bearing.negative()
            &&& bearing.truncated() < 360
            &&& !distance.zero() && !distance.negative()
        },
{
    law_at_least_is_by_the_whole_part(bearing, 360);
}

/// Events are told one by one, in order: a warning is published with what was
/// measured, a target that is lost is no longer dangerous, and nothing else is
/// published.
pub proof fn law_events(radar_id: Seq<char>, events: Seq<ArpaEvent>, event: ArpaEvent)
    ensures
        event_calls(radar_id, Seq::empty()).len() == 0,
        match event {
            ArpaEvent::CollisionWarning { target_id, state, cpa, tcpa } => event_calls(
                radar_id,
                events.push(event),
            ) == event_calls(radar_id, events).push(
                collision_call(radar_id, target_id, state@, cpa@, tcpa@),
            ),
            ArpaEvent::TargetLost { target_id } => event_calls(radar_id, events.push(event))
                == event_calls(radar_id, events).push(
                collision_call(radar_id, target_id, "normal"@, zero_measure(), zero_measure()),
            ),
            ArpaEvent::TargetAcquired { .. } => event_calls(radar_id, events.push(event))
                == event_calls(radar_id, events),
            ArpaEvent::TargetUpdate => event_calls(radar_id, events.push(event)) == event_calls(
                radar_id,
                events,
            ),
        },
{
    assert(events.push(event).drop_last() =~= events);
}

} // verus!
