//! The radar provider: which radars there are, what clients ask of them, and
//! what is told to clients.
//!
//! The provider decides; what it decides is done by others. It collects
//! [`Command`]s, which [`RadarProvider::take_commands`] hands out in order, and
//! takes in what the locator and the controllers report.

use crate::commands::{
    choose_controller, commands_view, controller_for, radar_ip, Command, CommandView,
};
use crate::config::{
    load_config, loaded_config, no_installation, stored_config, PluginConfig,
    RadarInstallationConfig, StoredConfig,
};
use crate::controls::{
    compound_control, furuno_setting, get_auto, get_level, level_field, low_u32, outcome_view,
    parse_compound_control, requested_setting, ControlError, FurunoSetting,
};
use crate::double::Double;
use crate::features::{
    arpa_calls, check_dual_range, check_position, event_calls, plan_capabilities,
    plan_for, position_error, Acquisition, ArpaEvent, CapabilityPlan, ModelInfo,
};
use crate::json::{double_json, integer_json, Json, JsonView};
use crate::locator::{
    clone_text, discovered, discoveries_view, optional_text, Brand, DiscoveryView, LocatorEvent,
    RadarDiscovery,
};
use crate::radar_state::{radar_id, radar_id_of, radar_state, RadarState, RadarStateView};
use crate::signalk_ffi::{calls_view, debug, Call, CallView};
use crate::spoke_receiver::{
    after_frame, empty_log, fresh_radar, listen_call, listen_next, radar_ids, routed, FrameReport,
    ListenStep, Packet, ReceiverView, SpokeBatch, SpokeReceiver,
};
use crate::state_v5::{
    default_values, fallback_controls, optional_json, put_value, status_of, told_status, with_value,
    LiveReport, LiveView, RadarStateV5, StateV5View,
};
use crate::string_map::StringMap;
use crate::text::{
    decimal, decimal_text, lemma_first_at, lemma_first_nowhere, str_eq, text_before,
};
use crate::wasm_io::WasmIoProvider;
use vstd::prelude::*;
use vstd::string::*;

verus! {

/// The milliseconds between two polls.
pub const POLL_INTERVAL: u64 = 100;

/// The polls between two emissions of the whole radar list.
pub const LIST_INTERVAL: u64 = 100;

/// The level of gain and clutter controls where a request names none.
pub const DEFAULT_LEVEL: u8 = 50;

// ---------------------------------------------------------------------------
// Emissions
// ---------------------------------------------------------------------------

/// A radar's state that is to be emitted under a path.
#[derive(Debug)]
pub struct Emission {
    pub path: String,
    pub state: RadarState,
}

/// The model of an emission.
pub struct EmissionView {
    pub path: Seq<char>,
    pub state: RadarStateView,
}

impl View for Emission {
    type V = EmissionView;

    open spec fn view(&self) -> EmissionView {
        EmissionView { path: self.path@, state: self.state@ }
    }
}

/// The emission for a radar.
pub open spec fn emission(d: DiscoveryView) -> EmissionView {
    EmissionView { path: "radars."@ + radar_id(d), state: radar_state(d) }
}

/// The emissions for a run of radars.
pub open spec fn emissions(radars: Seq<DiscoveryView>) -> Seq<EmissionView> {
    radars.map_values(|d: DiscoveryView| emission(d))
}

/// The line that sums up polls.
pub open spec fn summary_line(count: nat, radars: nat, spokes: nat) -> CallView {
    CallView::Debug {
        msg: "RadarProvider poll #"@ + decimal_text(count) + ": "@ + decimal_text(radars)
            + " radars, "@ + decimal_text(spokes) + " spokes emitted"@,
    }
}

/// The models of a run of emissions.
pub open spec fn emissions_view(out: Seq<Emission>) -> Seq<EmissionView> {
    out.map_values(|e: Emission| e@)
}

// ---------------------------------------------------------------------------
// The provider's state
// ---------------------------------------------------------------------------

/// A radar that has a controller.
#[derive(Debug)]
struct ManagedRadar {
    id: String,
    brand: Brand,
}

impl View for ManagedRadar {
    type V = (Seq<char>, Brand);

    closed spec fn view(&self) -> (Seq<char>, Brand) {
        (self.id@, self.brand)
    }
}

/// The radar provider.
#[derive(Debug)]
pub struct RadarProvider {
    io: WasmIoProvider,
    /// The radars that the locator knows, in its order.
    radars: Vec<RadarDiscovery>,
    /// The radars that have a controller.
    managed: Vec<ManagedRadar>,
    /// The reception of spokes.
    spoke_receiver: SpokeReceiver,
    poll_count: u64,
    config: PluginConfig,
    /// What is to be done, in order.
    outbox: Vec<Command<String>>,
}

/// The model of the provider.
pub struct ProviderView {
    /// The time in milliseconds.
    pub time: u64,
    /// The radars that the locator knows, in its order.
    pub radars: Seq<DiscoveryView>,
    /// The ids of the radars that have a controller, with their brands.
    pub managed: Seq<(Seq<char>, Brand)>,
    pub receiver: ReceiverView,
    pub poll_count: u64,
    pub config: Map<Seq<char>, RadarInstallationConfig>,
    /// What is to be done, in order.
    pub outbox: Seq<CommandView>,
}

impl View for RadarProvider {
    type V = ProviderView;

    closed spec fn view(&self) -> ProviderView {
        ProviderView {
            time: self.io@,
            radars: discoveries_view(self.radars@),
            managed: self.managed@.map_values(|m: ManagedRadar| m@),
            receiver: self.spoke_receiver@,
            poll_count: self.poll_count,
            config: self.config@,
            outbox: commands_view(self.outbox@),
        }
    }
}

/// The ids of a run of radars.
pub open spec fn located_ids(radars: Seq<DiscoveryView>) -> Seq<Seq<char>> {
    radars.map_values(|d: DiscoveryView| radar_id(d))
}

/// The ids of the radars that have a controller.
pub open spec fn managed_ids(managed: Seq<(Seq<char>, Brand)>) -> Seq<Seq<char>> {
    managed.map_values(|m: (Seq<char>, Brand)| m.0)
}

impl ProviderView {
    /// The provider is in order: the time can be told in milliseconds, no radar
    /// has two controllers, and reception is in order.
    pub open spec fn wf(self) -> bool {
        &&& self.poll_count * POLL_INTERVAL <= u64::MAX
        &&& managed_ids(self.managed).no_duplicates()
        &&& self.receiver.wf()
    }

    /// The position of the first radar with this id.
    pub open spec fn located(self, id: Seq<char>) -> Option<int> {
        located_ids(self.radars).index_of_first(id)
    }

    /// The brand of the controller of a radar.
    pub open spec fn controller(self, id: Seq<char>) -> Option<Brand> {
        match managed_ids(self.managed).index_of_first(id) {
            Some(i) => Some(self.managed[i].1),
            None => None,
        }
    }

    /// Whether a radar has a controller.
    pub open spec fn manages(self, id: Seq<char>) -> bool {
        self.controller(id) is Some
    }

    /// With one more thing to be done.
    pub open spec fn issuing(self, command: CommandView) -> ProviderView {
        ProviderView { outbox: self.outbox.push(command), ..self }
    }

    /// How a radar is installed, as far as it is known.
    pub open spec fn installation(self, id: Seq<char>) -> RadarInstallationConfig {
        if self.config.contains_key(id) {
            self.config[id]
        } else {
            no_installation()
        }
    }

    /// With a new installation of a radar, which is to be stored.
    pub open spec fn installing(self, id: Seq<char>, config: RadarInstallationConfig) -> ProviderView {
        ProviderView { config: self.config.insert(id, config), ..self }.issuing(Command::SaveConfig)
    }

    /// With an announcement to Furuno radars, where the radar is one.
    pub open spec fn announcing(self, id: Seq<char>) -> ProviderView {
        if self.controller(id) == Some(Brand::Furuno) {
            self.issuing(Command::Announce)
        } else {
            self
        }
    }

    /// After a request to transmit or to stand by.
    pub open spec fn after_power(self, id: Seq<char>, state: Seq<char>) -> ProviderView {
        self.announcing(id).issuing(
            Command::SetPower { radar_id: id, transmit: state == "transmit"@ },
        )
    }

    /// After a request for a range.
    pub open spec fn after_range(self, id: Seq<char>, range: u32) -> ProviderView {
        self.announcing(id).issuing(Command::SetRange { radar_id: id, range })
    }

    /// After a request for a gain.
    pub open spec fn after_gain(self, id: Seq<char>, auto: bool, value: Option<u8>) -> ProviderView {
        self.issuing(Command::SetGain { radar_id: id, value: requested_level(value), auto })
    }

    /// After a request for a suppression of sea clutter.
    pub open spec fn after_sea(self, id: Seq<char>, auto: bool, value: Option<u8>) -> ProviderView {
        self.issuing(Command::SetSea { radar_id: id, value: requested_level(value), auto })
    }

    /// After a request for a suppression of rain clutter.
    pub open spec fn after_rain(self, id: Seq<char>, auto: bool, value: Option<u8>) -> ProviderView {
        self.issuing(Command::SetRain { radar_id: id, value: requested_level(value), auto })
    }

    /// After a setting for a Furuno controller. The bearing alignment and the
    /// antenna height are stored too.
    pub open spec fn after_setting(self, id: Seq<char>, setting: FurunoSetting) -> ProviderView {
        let sent = self.issuing(Command::Furuno { radar_id: id, setting });
        match setting {
            FurunoSetting::BearingAlignment(degrees) => sent.installing(
                id,
                RadarInstallationConfig {
                    bearing_alignment: Some(degrees),
                    ..self.installation(id)
                },
            ),
            FurunoSetting::AntennaHeight(metres) => sent.installing(
                id,
                RadarInstallationConfig { antenna_height: Some(metres), ..self.installation(id) },
            ),
            _ => sent,
        }
    }

    /// After an extended request to a Furuno radar, and its outcome.
    pub open spec fn after_furuno_control(
        self,
        id: Seq<char>,
        control_id: Seq<char>,
        value: JsonView,
    ) -> (ProviderView, Result<(), ControlError<Seq<char>>>) {
        let announced = self.issuing(Command::Announce);
        if self.controller(id) != Some(Brand::Furuno) {
            (announced, Err(ControlError::ControllerNotAvailable))
        } else {
            match requested_setting(control_id, value) {
                Ok(setting) => (announced.after_setting(id, setting), Ok(())),
                Err(error) => (announced, Err(error)),
            }
        }
    }

    /// After an extended request, and its outcome. Only Furuno radars have
    /// extended controls.
    pub open spec fn after_extended_control(
        self,
        id: Seq<char>,
        control_id: Seq<char>,
        value: JsonView,
    ) -> (ProviderView, Result<(), ControlError<Seq<char>>>) {
        match self.located(id) {
            None => (self, Err(ControlError::RadarNotFound)),
            Some(i) => if self.radars[i].brand == Brand::Furuno {
                self.after_furuno_control(id, control_id, value)
            } else {
                (self, Err(ControlError::ControlNotFound(control_id)))
            },
        }
    }

    /// The outcome of a request that any controller can carry out.
    pub open spec fn availability(self, id: Seq<char>) -> Result<(), ControlError<Seq<char>>> {
        if self.manages(id) {
            Ok(())
        } else {
            Err(ControlError::ControllerNotAvailable)
        }
    }

    /// After a request for a control, and its outcome.
    pub open spec fn after_control(
        self,
        id: Seq<char>,
        control_id: Seq<char>,
        value: JsonView,
    ) -> (ProviderView, Result<(), ControlError<Seq<char>>>) {
        if self.located(id) is None {
            (self, Err(ControlError::RadarNotFound))
        } else if control_id == "power"@ {
            match value.text() {
                Some(state) => (self.after_power(id, state), self.availability(id)),
                None => (self, Err(ControlError::InvalidValue("power must be a string"@))),
            }
        } else if control_id == "range"@ {
            match value.unsigned() {
                Some(n) => (
                    self.after_range(id, (n % 0x1_0000_0000) as u32),
                    self.availability(id),
                ),
                None => (self, Err(ControlError::InvalidValue("range must be a number"@))),
            }
        } else if control_id == "gain"@ {
            match compound_control(value) {
                Ok((auto, level)) => (self.after_gain(id, auto, level), self.availability(id)),
                Err(error) => (self, Err(error)),
            }
        } else if control_id == "sea"@ {
            match compound_control(value) {
                Ok((auto, level)) => (self.after_sea(id, auto, level), self.availability(id)),
                Err(error) => (self, Err(error)),
            }
        } else if control_id == "rain"@ {
            match compound_control(value) {
                Ok((auto, level)) => (self.after_rain(id, auto, level), self.availability(id)),
                Err(error) => (self, Err(error)),
            }
        } else {
            self.after_extended_control(id, control_id, value)
        }
    }

    /// After one entry of a request for several controls, and whether it
    /// succeeded.
    pub open spec fn after_entry(self, id: Seq<char>, control_id: Seq<char>, value: JsonView) -> (
        ProviderView,
        bool,
    ) {
        if control_id == "power"@ {
            match value.text() {
                Some(state) => (self.after_power(id, state), self.manages(id)),
                None => (self, false),
            }
        } else if control_id == "range"@ {
            match value.unsigned() {
                Some(n) => (self.after_range(id, (n % 0x1_0000_0000) as u32), self.manages(id)),
                None => (self, false),
            }
        } else if control_id == "gain"@ {
            (self.after_gain(id, asks_auto(value), level_field(value)), self.manages(id))
        } else if control_id == "sea"@ {
            (self.after_sea(id, asks_auto(value), level_field(value)), self.manages(id))
        } else if control_id == "rain"@ {
            (self.after_rain(id, asks_auto(value), level_field(value)), self.manages(id))
        } else {
            let (after, outcome) = self.after_control(id, control_id, value);
            (after, outcome is Ok)
        }
    }

    /// After the entries of a request for several controls, one after the
    /// other, and whether all of them succeeded.
    pub open spec fn after_entries(self, id: Seq<char>, entries: Seq<(Seq<char>, JsonView)>) -> (
        ProviderView,
        bool,
    )
        decreases entries.len(),
    {
        if entries.len() == 0 {
            (self, true)
        } else {
            let (before, success) = self.after_entries(id, entries.drop_last());
            let (control_id, value) = entries.last();
            let (after, ok) = before.after_entry(id, control_id, value);
            (after, success && ok)
        }
    }

    /// With the spokes of a Furuno radar being received; the spoke socket is
    /// opened for a new one where it is not open.
    pub open spec fn receiving(self, id: Seq<char>, ip: Seq<char>) -> ProviderView {
        if radar_ids(self.receiver.radars).contains(id) {
            self
        } else {
            let tracking = ProviderView {
                receiver: ReceiverView {
                    radars: self.receiver.radars.push(fresh_radar(id, ip)),
                    ..self.receiver
                },
                ..self
            };
            if self.receiver.socket is None {
                tracking.issuing(Command::ListenFuruno)
            } else {
                tracking
            }
        }
    }

    /// With a radar taken under control, unless it is already.
    pub open spec fn admitting(self, d: DiscoveryView) -> ProviderView {
        let id = radar_id(d);
        if self.manages(id) {
            self
        } else {
            let received = if d.brand == Brand::Furuno {
                self.receiving(id, radar_ip(d))
            } else {
                self
            };
            let added = ProviderView { managed: received.managed.push((id, d.brand)), ..received
            }.issuing(Command::AddRadar { radar_id: id, controller: controller_for(d) });
            match d.model {
                Some(model) => added.issuing(Command::SetModelInfo { radar_id: id, model }),
                None => added,
            }
        }
    }

    /// With a run of radars taken under control, one after the other.
    pub open spec fn admitting_all(self, radars: Seq<DiscoveryView>) -> ProviderView
        decreases radars.len(),
    {
        if radars.len() == 0 {
            self
        } else {
            self.admitting_all(radars.drop_last()).admitting(radars.last())
        }
    }

    /// After the locator has told which radars there are.
    pub open spec fn after_locating(self, radars: Seq<DiscoveryView>) -> ProviderView {
        ProviderView { radars, ..self }.admitting_all(radars)
    }

    /// The model that is believed of a radar: that of its controller, if it is
    /// one that tells.
    pub open spec fn told_model(self, id: Seq<char>, told: Option<Seq<char>>) -> Option<Seq<char>> {
        if self.controller(id) == Some(Brand::Furuno) {
            told
        } else {
            None
        }
    }

    /// After a controller was asked for its radar's model.
    pub open spec fn after_model(self, id: Seq<char>, told: Option<Seq<char>>) -> ProviderView {
        match self.told_model(id, told) {
            Some(model) => ProviderView {
                radars: self.radars.map_values(
                    |d: DiscoveryView|
                        if radar_id(d) == id {
                            DiscoveryView { model: Some(model), ..d }
                        } else {
                            d
                        },
                ),
                ..self
            },
            None => self,
        }
    }

    /// What is known of a radar, with the model that its controller tells.
    pub open spec fn up_to_date(self, id: Seq<char>, told: Option<Seq<char>>) -> Option<
        DiscoveryView,
    > {
        match self.located(id) {
            Some(i) => Some(
                DiscoveryView {
                    model: match self.told_model(id, told) {
                        Some(model) => Some(model),
                        None => self.radars[i].model,
                    },
                    ..self.radars[i]
                },
            ),
            None => None,
        }
    }

    /// The values of a radar's controls: those that its controller tells, or
    /// else the defaults; from a Furuno controller also what it tells of
    /// itself; the serial number; and how the radar is installed.
    pub open spec fn control_values(self, id: Seq<char>, i: int, live: LiveView) -> Map<
        Seq<char>,
        JsonView,
    > {
        let told = if self.manages(id) && live.controls is Some {
            live.controls->0
        } else {
            fallback_controls()
        };
        let identified = if self.controller(id) == Some(Brand::Furuno) {
            with_value(
                with_value(told, "firmwareVersion"@, text_json(live.firmware_version)),
                "operatingHours"@,
                live.operating_hours,
            )
        } else {
            told
        };
        let numbered = with_value(
            identified,
            "serialNumber"@,
            text_json(self.radars[i].serial_number),
        );
        let aligned = with_value(
            numbered,
            "bearingAlignment"@,
            match self.installation(id).bearing_alignment {
                Some(degrees) => Some(double_json(degrees)),
                None => None,
            },
        );
        with_value(
            aligned,
            "antennaHeight"@,
            match self.installation(id).antenna_height {
                Some(metres) => Some(integer_json(metres as int)),
                None => None,
            },
        )
    }

    /// The state of a radar with the values of its controls.
    pub open spec fn state_v5(self, id: Seq<char>, live: LiveView) -> Option<StateV5View> {
        match self.located(id) {
            Some(i) => {
                let controls = self.control_values(id, i, live);
                Some(
                    StateV5View {
                        id,
                        timestamp: "2025-01-01T00:00:00Z"@,
                        status: told_status(controls),
                        controls,
                        disabled_controls: Seq::empty(),
                    },
                )
            },
            None => None,
        }
    }

    /// The value of one control.
    pub open spec fn control_value(self, id: Seq<char>, control_id: Seq<char>, live: LiveView) -> Option<
        JsonView,
    > {
        match self.state_v5(id, live) {
            Some(state) => if state.controls.contains_key(control_id) {
                Some(state.controls[control_id])
            } else {
                None
            },
            None => None,
        }
    }
}

/// A text as a JSON value, where there is one.
pub open spec fn text_json(text: Option<Seq<char>>) -> Option<JsonView> {
    match text {
        Some(t) => Some(JsonView::Text(t)),
        None => None,
    }
}

/// The level that a request asks for.
pub open spec fn requested_level(value: Option<u8>) -> i32 {
    match value {
        Some(v) => v as i32,
        None => DEFAULT_LEVEL as i32,
    }
}

/// Whether the field `mode` asks the radar to adjust itself.
pub open spec fn asks_auto(value: JsonView) -> bool {
    value.field_text("mode"@) == Some("auto"@)
}

impl RadarProvider {
    #[verifier::type_invariant]
    spec fn in_order(self) -> bool {
        self@.wf()
    }

    /// A provider that knows no radars yet, with the configuration that is
    /// loaded from what is stored.
    pub fn new(stored: Option<&StoredConfig>) -> (provider: RadarProvider)
        ensures
            provider@.wf(),
            provider@.time == 0,
            provider@.radars.len() == 0,
            provider@.managed.len() == 0,
            provider@.receiver.socket is None,
            provider@.receiver.radars.len() == 0,
            provider@.receiver.log == empty_log(),
            provider@.poll_count == 0,
            provider@.config == loaded_config(
                match stored {
                    Some(s) => Some(s@),
                    None => None,
                },
            ),
            provider@.outbox.len() == 0,
    {
        RadarProvider {
            io: WasmIoProvider::new(),
            radars: Vec::new(),
            managed: Vec::new(),
            spoke_receiver: SpokeReceiver::new(),
            poll_count: 0,
            config: load_config(stored),
            outbox: Vec::new(),
        }
    }

    /// Hands out what is to be done.
    pub fn take_commands(&mut self) -> (commands: Vec<Command<String>>)
        ensures
            final(self)@.wf(),
            commands_view(commands@) == old(self)@.outbox,
            final(self)@ == (ProviderView { outbox: Seq::empty(), ..old(self)@ }),
    {
        proof {
            use_type_invariant(&*self);
        }
        let mut commands: Vec<Command<String>> = Vec::new();
        std::mem::swap(&mut commands, &mut self.outbox);
        assert(self@.outbox =~= Seq::<CommandView>::empty());
        commands
    }

    fn issue(&mut self, command: Command<String>)
        ensures
            final(self)@.wf(),
            final(self).radars == old(self).radars,
            final(self)@ == old(self)@.issuing(command@),
    {
        proof {
            use_type_invariant(&*self);
        }
        let mut outbox: Vec<Command<String>> = Vec::new();
        std::mem::swap(&mut outbox, &mut self.outbox);
        outbox.push(command);
        self.outbox = outbox;
        assert(self@.outbox =~= old(self)@.outbox.push(command@));
    }

    /// The position of the first radar with this id.
    fn position(&self, radar_id: &str) -> (position: Option<usize>)
        ensures
            match position {
                Some(i) => i < self.radars@.len() && self@.located(radar_id@) == Some(i as int),
                None => self@.located(radar_id@) is None,
            },
    {
        let ghost ids = located_ids(self@.radars);
        let n: usize = self.radars.len();
        let mut i: usize = 0;
        while i < n
            invariant
                i <= n,
                n == self.radars@.len(),
                ids == located_ids(self@.radars),
                forall|k: int| 0 <= k < i ==> ids[k] != radar_id@,
            decreases n - i,
        {
            let id = radar_id_of(&self.radars[i]);
            assert(ids[i as int] == id@);
            if str_eq(id.as_str(), radar_id) {
                proof {
                    lemma_first_at(ids, radar_id@, i as int);
                }
                return Some(i);
            }
            i += 1;
        }
        proof {
            lemma_first_nowhere(ids, radar_id@);
        }
        None
    }

    /// The brand of the controller of a radar.
    pub fn controller(&self, radar_id: &str) -> (brand: Option<Brand>)
        ensures
            brand == self@.controller(radar_id@),
    {
        let ghost ids = managed_ids(self@.managed);
        let n: usize = self.managed.len();
        let mut i: usize = 0;
        while i < n
            invariant
                i <= n,
                n == self.managed@.len(),
                ids == managed_ids(self@.managed),
                forall|k: int| 0 <= k < i ==> ids[k] != radar_id@,
            decreases n - i,
        {
            assert(ids[i as int] == self.managed@[i as int].id@);
            if str_eq(self.managed[i].id.as_str(), radar_id) {
                proof {
                    lemma_first_at(ids, radar_id@, i as int);
                }
                return Some(self.managed[i].brand);
            }
            i += 1;
        }
        proof {
            lemma_first_nowhere(ids, radar_id@);
        }
        None
    }

    /// Whether a radar has a controller.
    pub fn contains(&self, radar_id: &str) -> (contains: bool)
        ensures
            contains == self@.manages(radar_id@),
    {
        self.controller(radar_id).is_some()
    }

    fn announce_if_furuno(&mut self, radar_id: &str)
        ensures
            final(self)@.wf(),
            final(self)@ == old(self)@.announcing(radar_id@),
    {
        proof {
            use_type_invariant(&*self);
        }
        if let Some(brand) = self.controller(radar_id) {
            if brand == Brand::Furuno {
                self.issue(Command::Announce);
            }
        }
    }

    /// Asks a radar to transmit, or, in any state but `transmit`, to stand by.
    /// Whether it has a controller that can do so is returned.
    pub fn set_power(&mut self, radar_id: &str, state: &str) -> (done: bool)
        ensures
            final(self)@.wf(),
            final(self)@ == old(self)@.after_power(radar_id@, state@),
            done == old(self)@.manages(radar_id@),
    {
        let transmit = str_eq(state, "transmit");
        self.announce_if_furuno(radar_id);
        self.issue(Command::SetPower { radar_id: radar_id.to_owned(), transmit });
        self.contains(radar_id)
    }

    /// Asks a radar for a range in metres. Whether it has a controller that can
    /// do so is returned.
    pub fn set_range(&mut self, radar_id: &str, range: u32) -> (done: bool)
        ensures
            final(self)@.wf(),
            final(self)@ == old(self)@.after_range(radar_id@, range),
            done == old(self)@.manages(radar_id@),
    {
        self.announce_if_furuno(radar_id);
        self.issue(Command::SetRange { radar_id: radar_id.to_owned(), range });
        self.contains(radar_id)
    }

    /// Asks a radar for a gain. Whether it has a controller that can do so is
    /// returned.
    pub fn set_gain(&mut self, radar_id: &str, auto: bool, value: Option<u8>) -> (done: bool)
        ensures
            final(self)@.wf(),
            final(self)@ == old(self)@.after_gain(radar_id@, auto, value),
            done == old(self)@.manages(radar_id@),
    {
        let value: i32 = level_or_default(value);
        self.issue(Command::SetGain { radar_id: radar_id.to_owned(), value, auto });
        self.contains(radar_id)
    }

    /// Asks a radar for a suppression of sea clutter. Whether it has a
    /// controller that can do so is returned.
    pub fn set_sea(&mut self, radar_id: &str, auto: bool, value: Option<u8>) -> (done: bool)
        ensures
            final(self)@.wf(),
            final(self)@ == old(self)@.after_sea(radar_id@, auto, value),
            done == old(self)@.manages(radar_id@),
    {
        let value: i32 = level_or_default(value);
        self.issue(Command::SetSea { radar_id: radar_id.to_owned(), value, auto });
        self.contains(radar_id)
    }

    /// Asks a radar for a suppression of rain clutter. Whether it has a
    /// controller that can do so is returned.
    pub fn set_rain(&mut self, radar_id: &str, auto: bool, value: Option<u8>) -> (done: bool)
        ensures
            final(self)@.wf(),
            final(self)@ == old(self)@.after_rain(radar_id@, auto, value),
            done == old(self)@.manages(radar_id@),
    {
        let value: i32 = level_or_default(value);
        self.issue(Command::SetRain { radar_id: radar_id.to_owned(), value, auto });
        self.contains(radar_id)
    }

    /// How a radar is installed, where anything is stored about it.
    pub fn get_installation_config(&self, radar_id: &str) -> (config: Option<
        &RadarInstallationConfig,
    >)
        ensures
            match config {
                Some(c) => self@.config.contains_key(radar_id@) && *c == self@.config[radar_id@],
                None => !self@.config.contains_key(radar_id@),
            },
    {
        self.config.radars.get(radar_id)
    }

    /// Sets how a radar is installed, and has it stored.
    pub fn set_installation_config(&mut self, radar_id: &str, config: RadarInstallationConfig)
        ensures
            final(self)@.wf(),
            final(self)@ == old(self)@.installing(radar_id@, config),
    {
        proof {
            use_type_invariant(&*self);
        }
        let mut radars: StringMap<RadarInstallationConfig> = StringMap::new();
        std::mem::swap(&mut radars, &mut self.config.radars);
        radars.insert(radar_id.to_owned(), config);
        self.config.radars = radars;
        self.issue(Command::SaveConfig);
    }

    fn installation(&self, radar_id: &str) -> (config: RadarInstallationConfig)
        ensures
            config == self@.installation(radar_id@),
    {
        match self.config.radars.get(radar_id) {
            Some(c) => *c,
            None => RadarInstallationConfig::default(),
        }
    }

    /// Carries out an extended request to a Furuno radar.
    pub fn furuno_set_extended_control(
        &mut self,
        radar_id: &str,
        control_id: &str,
        value: &Json,
    ) -> (outcome: Result<(), ControlError<String>>)
        ensures
            final(self)@.wf(),
            (final(self)@, outcome_view(outcome)) == old(self)@.after_furuno_control(
                radar_id@,
                control_id@,
                value@,
            ),
    {
        self.issue(Command::Announce);
        match self.controller(radar_id) {
            Some(Brand::Furuno) => {},
            _ => {
                return Err(ControlError::ControllerNotAvailable);
            },
        }
        let setting = match furuno_setting(control_id, value) {
            Ok(setting) => setting,
            Err(error) => {
                return Err(error);
            },
        };
        self.issue(Command::Furuno { radar_id: radar_id.to_owned(), setting });
        match setting {
            FurunoSetting::BearingAlignment(degrees) => {
                let mut config = self.installation(radar_id);
                config.bearing_alignment = Some(degrees);
                self.set_installation_config(radar_id, config);
            },
            FurunoSetting::AntennaHeight(metres) => {
                let mut config = self.installation(radar_id);
                config.antenna_height = Some(metres);
                self.set_installation_config(radar_id, config);
            },
            _ => {},
        }
        Ok(())
    }

    /// Carries out an extended request, of the kind that depends on the brand.
    pub fn set_extended_control(&mut self, radar_id: &str, control_id: &str, value: &Json) -> (outcome:
        Result<(), ControlError<String>>)
        ensures
            final(self)@.wf(),
            (final(self)@, outcome_view(outcome)) == old(self)@.after_extended_control(
                radar_id@,
                control_id@,
                value@,
            ),
    {
        proof {
            use_type_invariant(&*self);
        }
        match self.position(radar_id) {
            None => Err(ControlError::RadarNotFound),
            Some(i) => {
                if self.radars[i].brand == Brand::Furuno {
                    self.furuno_set_extended_control(radar_id, control_id, value)
                } else {
                    Err(ControlError::ControlNotFound(control_id.to_owned()))
                }
            },
        }
    }

    /// Carries out a request for one control.
    pub fn set_control_v5(&mut self, radar_id: &str, control_id: &str, value: &Json) -> (outcome:
        Result<(), ControlError<String>>)
        ensures
            final(self)@.wf(),
            (final(self)@, outcome_view(outcome)) == old(self)@.after_control(
                radar_id@,
                control_id@,
                value@,
            ),
    {
        proof {
            use_type_invariant(&*self);
        }
        if self.position(radar_id).is_none() {
            return Err(ControlError::RadarNotFound);
        }
        if str_eq(control_id, "power") {
            match value.as_str() {
                Some(state) => {
                    let done = self.set_power(radar_id, state);
                    available(done)
                },
                None => Err(ControlError::InvalidValue("power must be a string".to_owned())),
            }
        } else if str_eq(control_id, "range") {
            match value.as_u64() {
                Some(n) => {
                    let done = self.set_range(radar_id, low_u32(n));
                    available(done)
                },
                None => Err(ControlError::InvalidValue("range must be a number".to_owned())),
            }
        } else if str_eq(control_id, "gain") {
            match parse_compound_control(value) {
                Ok((auto, level)) => {
                    let done = self.set_gain(radar_id, auto, level);
                    available(done)
                },
                Err(error) => Err(error),
            }
        } else if str_eq(control_id, "sea") {
            match parse_compound_control(value) {
                Ok((auto, level)) => {
                    let done = self.set_sea(radar_id, auto, level);
                    available(done)
                },
                Err(error) => Err(error),
            }
        } else if str_eq(control_id, "rain") {
            match parse_compound_control(value) {
                Ok((auto, level)) => {
                    let done = self.set_rain(radar_id, auto, level);
                    available(done)
                },
                Err(error) => Err(error),
            }
        } else {
            self.set_extended_control(radar_id, control_id, value)
        }
    }

    fn set_entry(&mut self, radar_id: &str, control_id: &str, value: &Json) -> (ok: bool)
        ensures
            final(self)@.wf(),
            (final(self)@, ok) == old(self)@.after_entry(radar_id@, control_id@, value@),
    {
        proof {
            use_type_invariant(&*self);
        }
        if str_eq(control_id, "power") {
            match value.as_str() {
                Some(state) => self.set_power(radar_id, state),
                None => false,
            }
        } else if str_eq(control_id, "range") {
            match value.as_u64() {
                Some(n) => self.set_range(radar_id, low_u32(n)),
                None => false,
            }
        } else if str_eq(control_id, "gain") {
            self.set_gain(radar_id, get_auto(value), get_level(value))
        } else if str_eq(control_id, "sea") {
            self.set_sea(radar_id, get_auto(value), get_level(value))
        } else if str_eq(control_id, "rain") {
            self.set_rain(radar_id, get_auto(value), get_level(value))
        } else {
            self.set_control_v5(radar_id, control_id, value).is_ok()
        }
    }

    /// Carries out a request for several controls, the entries of an object,
    /// one after the other. A failing entry does not stop the others; whether
    /// all succeeded is returned. What is no object fails as a whole.
    pub fn set_controls(&mut self, radar_id: &str, controls: &Json) -> (success: bool)
        ensures
            final(self)@.wf(),
            match controls@.entries() {
                Some(entries) => (final(self)@, success) == old(self)@.after_entries(
                    radar_id@,
                    entries,
                ),
                None => final(self)@ == old(self)@ && !success,
            },
    {
        proof {
            use_type_invariant(&*self);
        }
        let entries = match controls.as_object() {
            Some(entries) => entries,
            None => {
                return false;
            },
        };
        let ghost all = controls@.entries()->0;
        let mut success = true;
        let n: usize = entries.len();
        let mut i: usize = 0;
        while i < n
            invariant
                i <= n,
                n == entries@.len(),
                all.len() == n,
                forall|k: int|
                    0 <= k < n ==> #[trigger] all[k] == (entries@[k].0@, entries@[k].1@),
                self@.wf(),
                (self@, success) == old(self)@.after_entries(radar_id@, all.take(i as int)),
            decreases n - i,
        {
            proof {
                assert(all.take(i + 1).drop_last() =~= all.take(i as int));
                assert(all.take(i + 1).last() == all[i as int]);
            }
            let ok = self.set_entry(radar_id, entries[i].0.as_str(), &entries[i].1);
            if !ok {
                success = false;
            }
            i += 1;
        }
        assert(all.take(n as int) =~= all);
        success
    }

    /// Begins a poll: counts it and moves the clock on.
    pub fn begin_poll(&mut self)
        requires
            (old(self)@.poll_count + 1) * POLL_INTERVAL <= u64::MAX,
        ensures
            final(self)@.wf(),
            final(self)@ == (ProviderView {
                poll_count: (old(self)@.poll_count + 1) as u64,
                time: ((old(self)@.poll_count + 1) * POLL_INTERVAL) as u64,
                ..old(self)@
            }),
    {
        proof {
            use_type_invariant(&*self);
        }
        self.poll_count = self.poll_count + 1;
        let mut io = WasmIoProvider::new();
        io.set_time(self.poll_count * POLL_INTERVAL);
        self.io = io;
    }

    /// Takes in what the locator found: the radars that there are now, in its
    /// order, and what was new. New radars are taken under control, and each
    /// radar that was discovered is to be emitted.
    pub fn poll(&mut self, radars: Vec<RadarDiscovery>, events: &Vec<LocatorEvent>) -> (out: Vec<
        Emission,
    >)
        ensures
            final(self)@.wf(),
            final(self)@ == old(self)@.after_locating(discoveries_view(radars@)),
            emissions_view(out@) == emissions(discovered(events@)),
    {
        proof {
            use_type_invariant(&*self);
        }
        let out = RadarProvider::emit_discovered(events);
        let ghost all = discoveries_view(radars@);
        self.radars = radars;
        let ghost start = self@;
        assert(start == ProviderView { radars: all, ..old(self)@ });
        let n: usize = self.radars.len();
        let mut i: usize = 0;
        while i < n
            invariant
                i <= n,
                n == self.radars@.len(),
                self@.wf(),
                all == discoveries_view(self.radars@),
                self.radars@ == radars@,
                self@ == start.admitting_all(all.take(i as int)),
            decreases n - i,
        {
            proof {
                assert(all.take(i + 1).drop_last() =~= all.take(i as int));
                assert(all.take(i + 1).last() == all[i as int]);
            }
            self.take_in(i);
            i += 1;
        }
        assert(all.take(n as int) =~= all);
        out
    }

    /// The emissions for the radars that were discovered.
    fn emit_discovered(events: &Vec<LocatorEvent>) -> (out: Vec<Emission>)
        ensures
            emissions_view(out@) == emissions(discovered(events@)),
    {
        let mut out: Vec<Emission> = Vec::new();
        assert(emissions_view(out@) =~= emissions(discovered(events@.take(0))));
        let n: usize = events.len();
        let mut i: usize = 0;
        while i < n
            invariant
                i <= n,
                n == events@.len(),
                emissions_view(out@) == emissions(discovered(events@.take(i as int))),
            decreases n - i,
        {
            let ghost before = out@;
            let ghost found = discovered(events@.take(i as int));
            proof {
                assert(events@.take(i + 1).drop_last() =~= events@.take(i as int));
            }
            if let LocatorEvent::RadarDiscovered(d) = &events[i] {
                out.push(RadarProvider::emit_radar_discovered(d));
                assert(emissions_view(out@) =~= emissions_view(before).push(emission(d@)));
                assert(emissions(found.push(d@)) =~= emissions(found).push(emission(d@)));
            }
            i += 1;
        }
        assert(events@.take(n as int) =~= events@);
        out
    }

    /// The emission for a radar, under its own path.
    pub fn emit_radar_discovered(discovery: &RadarDiscovery) -> (out: Emission)
        ensures
            out@ == emission(discovery@),
    {
        let state = RadarState::from(discovery);
        let mut path = "radars.".to_owned();
        path.append(state.id.as_str());
        Emission { path, state }
    }

    /// The emissions for all radars, each under its own path.
    pub fn emit_radar_list(&self) -> (out: Vec<Emission>)
        ensures
            emissions_view(out@) == emissions(self@.radars),
    {
        let mut out: Vec<Emission> = Vec::new();
        let n: usize = self.radars.len();
        let mut i: usize = 0;
        while i < n
            invariant
                i <= n,
                n == self.radars@.len(),
                out@.len() == i,
                forall|k: int|
                    0 <= k < i ==> (#[trigger] out@[k])@ == emission(self.radars@[k]@),
            decreases n - i,
        {
            out.push(RadarProvider::emit_radar_discovered(&self.radars[i]));
            i += 1;
        }
        assert(emissions_view(out@) =~= emissions(self@.radars));
        out
    }

    /// Ends a poll in which `spokes` spokes reached clients: every
    /// [`LIST_INTERVAL`] polls a summary is logged and the whole list is to be
    /// emitted.
    pub fn finish_poll(&self, spokes: u32) -> (end: (Option<Call>, Vec<Emission>))
        ensures
            match end.0 {
                Some(c) => self@.poll_count % LIST_INTERVAL == 0 && c@ == summary_line(
                    self@.poll_count as nat,
                    self@.radars.len(),
                    spokes as nat,
                ),
                None => self@.poll_count % LIST_INTERVAL != 0,
            },
            emissions_view(end.1@) == if self@.poll_count % LIST_INTERVAL == 0 {
                emissions(self@.radars)
            } else {
                Seq::empty()
            },
    {
        if self.poll_count % LIST_INTERVAL == 0 {
            let mut msg = "RadarProvider poll #".to_owned();
            msg.append(decimal(self.poll_count).as_str());
            msg.append(": ");
            msg.append(decimal(self.radars.len() as u64).as_str());
            msg.append(" radars, ");
            msg.append(decimal(spokes as u64).as_str());
            msg.append(" spokes emitted");
            (Some(debug(msg.as_str())), self.emit_radar_list())
        } else {
            let out: Vec<Emission> = Vec::new();
            assert(emissions_view(out@) =~= Seq::<EmissionView>::empty());
            (None, out)
        }
    }

    /// Takes the radar at position `i` under control, unless it is already.
    fn take_in(&mut self, i: usize)
        requires
            i < old(self).radars@.len(),
        ensures
            final(self)@.wf(),
            final(self).radars == old(self).radars,
            final(self)@ == old(self)@.admitting(old(self).radars@[i as int]@),
    {
        proof {
            use_type_invariant(&*self);
        }
        let id = radar_id_of(&self.radars[i]);
        if self.contains(id.as_str()) {
            return ;
        }
        let brand = self.radars[i].brand;
        if brand == Brand::Furuno {
            let ip = text_before(self.radars[i].address.as_str(), ':');
            self.receive(id.as_str(), ip.as_str());
        }
        let ghost received = self@;
        let controller = choose_controller(&self.radars[i]);
        let model = clone_text(&self.radars[i].model);
        let mut managed: Vec<ManagedRadar> = Vec::new();
        std::mem::swap(&mut managed, &mut self.managed);
        managed.push(ManagedRadar { id: id.clone(), brand });
        proof {
            assert(managed@.map_values(|m: ManagedRadar| m@) =~= received.managed.push(
                (id@, brand),
            ));
            lemma_admitted_once(old(self)@.managed, id@, brand);
        }
        self.managed = managed;
        self.issue(Command::AddRadar { radar_id: id.clone(), controller });
        if let Some(model) = model {
            self.issue(Command::SetModelInfo { radar_id: id, model });
        }
    }

    fn receive(&mut self, id: &str, ip: &str)
        ensures
            final(self)@.wf(),
            final(self).radars == old(self).radars,
            final(self)@ == old(self)@.receiving(id@, ip@),
    {
        proof {
            use_type_invariant(&*self);
        }
        let mut receiver = SpokeReceiver::new();
        std::mem::swap(&mut receiver, &mut self.spoke_receiver);
        let start = receiver.add_furuno_radar(id, ip);
        self.spoke_receiver = receiver;
        if start.is_some() {
            self.issue(Command::ListenFuruno);
        }
    }

    /// Takes in the model that a radar's controller tells, if it tells one. The
    /// known radars with this id are of that model from now on. Only Furuno
    /// controllers tell models.
    pub fn controller_model(&mut self, radar_id: &str, told: Option<String>)
        ensures
            final(self)@.wf(),
            final(self)@ == old(self)@.after_model(radar_id@, optional_text(told)),
    {
        proof {
            use_type_invariant(&*self);
        }
        let model = match self.get_controller_model(radar_id, told) {
            Some(model) => model,
            None => {
                return ;
            },
        };
        let ghost before = self.radars@;
        let ghost wanted = old(self)@.after_model(radar_id@, optional_text(told)).radars;
        let mut radars: Vec<RadarDiscovery> = Vec::new();
        std::mem::swap(&mut radars, &mut self.radars);
        let n: usize = radars.len();
        let mut i: usize = 0;
        while i < n
            invariant
                i <= n,
                n == before.len(),
                radars@.len() == n,
                before == old(self).radars@,
                old(self)@.told_model(radar_id@, optional_text(told)) == Some(model@),
                wanted == old(self)@.after_model(radar_id@, optional_text(told)).radars,
                forall|k: int| 0 <= k < i ==> (#[trigger] radars@[k])@ == wanted[k],
                forall|k: int| i <= k < n ==> #[trigger] radars@[k] == before[k],
            decreases n - i,
        {
            let id = radar_id_of(&radars[i]);
            assert(old(self)@.radars[i as int] == before[i as int]@);
            if str_eq(id.as_str(), radar_id) {
                let mut radar = radars[i].clone();
                radar.model = Some(model.clone());
                radars.set(i, radar);
            }
            i += 1;
        }
        self.radars = radars;
        assert(self@.radars =~= wanted);
    }

    /// The model that is believed of what a controller tells.
    pub fn get_controller_model(&self, radar_id: &str, told: Option<String>) -> (model: Option<
        String,
    >)
        ensures
            optional_text(model) == self@.told_model(radar_id@, optional_text(told)),
    {
        match self.controller(radar_id) {
            Some(Brand::Furuno) => told,
            _ => None,
        }
    }

    /// The radars that the locator knows, in its order.
    pub fn radars(&self) -> (radars: &Vec<RadarDiscovery>)
        ensures
            discoveries_view(radars@) == self@.radars,
    {
        &self.radars
    }

    /// The time in milliseconds.
    pub fn time(&self) -> (time_ms: u64)
        ensures
            time_ms == self@.time,
    {
        self.io.current_time_ms()
    }

    /// How many polls there have been.
    pub fn poll_count(&self) -> (count: u64)
        ensures
            count == self@.poll_count,
    {
        self.poll_count
    }

    /// The configuration as it is to be stored.
    pub fn save_config(&self) -> (stored: StoredConfig)
        ensures
            stored@ == stored_config(self@.config),
    {
        self.config.stored()
    }

    /// The configuration.
    pub fn config(&self) -> (config: &PluginConfig)
        ensures
            config@ == self@.config,
    {
        &self.config
    }

    /// The reception of spokes.
    pub fn spoke_receiver(&self) -> (receiver: &SpokeReceiver)
        ensures
            receiver@ == self@.receiver,
            receiver@.wf(),
    {
        proof {
            use_type_invariant(self);
        }
        &self.spoke_receiver
    }

    /// Goes on opening the spoke socket, as [`SpokeReceiver::listen_reply`]
    /// does.
    pub fn listen_reply(&mut self, step: ListenStep, reply: i32, port: u16, group: &str) -> (next: (
        Option<ListenStep>,
        Option<Call>,
    ))
        ensures
            final(self)@.wf(),
            final(self)@ == (ProviderView {
                receiver: old(self)@.receiver.after_listen(step, reply),
                ..old(self)@
            }),
            next.0 == listen_next(step, reply),
            match next.1 {
                Some(c) => listen_call(step, reply, port, group@) == Some(c@),
                None => listen_call(step, reply, port, group@) is None,
            },
    {
        proof {
            use_type_invariant(&*self);
        }
        let mut receiver = SpokeReceiver::new();
        std::mem::swap(&mut receiver, &mut self.spoke_receiver);
        let next = receiver.listen_reply(step, reply, port, group);
        self.spoke_receiver = receiver;
        next
    }

    /// Takes in the datagrams that were found, as [`SpokeReceiver::poll`] does.
    pub fn poll_spokes(&mut self, packets: Vec<Packet>) -> (found: (
        Vec<(Vec<u8>, usize)>,
        Vec<Call>,
    ))
        requires
            packets@.len() <= u32::MAX,
            old(self)@.receiver.log.poll_count < u64::MAX,
        ensures
            final(self)@.wf(),
            final(self)@ == (ProviderView {
                receiver: old(self)@.receiver.after_poll(packets@),
                ..old(self)@
            }),
            found.0@.map_values(|f: (Vec<u8>, usize)| (f.0@, f.1 as int)) == routed(
                old(self)@.receiver.radars,
                packets@,
            ),
            forall|i: int|
                0 <= i < found.0@.len() ==> (#[trigger] found.0@[i]).1
                    < old(self)@.receiver.radars.len(),
            calls_view(found.1@) == old(self)@.receiver.poll_lines(packets@),
    {
        proof {
            use_type_invariant(&*self);
        }
        let mut receiver = SpokeReceiver::new();
        std::mem::swap(&mut receiver, &mut self.spoke_receiver);
        let found = receiver.poll(packets);
        self.spoke_receiver = receiver;
        found
    }

    /// Takes in a frame, as [`SpokeReceiver::process_furuno_frame`] does.
    pub fn process_frame(&mut self, radar_idx: usize, frame: FrameReport) -> (out: (
        Option<SpokeBatch>,
        Option<Call>,
    ))
        requires
            radar_idx < old(self)@.receiver.radars.len(),
            old(self)@.receiver.log.frame_count < u64::MAX,
        ensures
            final(self)@.wf(),
            final(self)@ == (ProviderView {
                receiver: old(self)@.receiver.after_frame_of(radar_idx as int, frame@),
                ..old(self)@
            }),
            match out.0 {
                Some(b) => after_frame(
                    old(self)@.receiver.radars[radar_idx as int],
                    frame@,
                ).1 == Some(b@),
                None => after_frame(
                    old(self)@.receiver.radars[radar_idx as int],
                    frame@,
                ).1 is None,
            },
            match out.1 {
                Some(c) => old(self)@.receiver.frame_line(frame@) == Some(c@),
                None => old(self)@.receiver.frame_line(frame@) is None,
            },
    {
        proof {
            use_type_invariant(&*self);
        }
        let mut receiver = SpokeReceiver::new();
        std::mem::swap(&mut receiver, &mut self.spoke_receiver);
        let out = receiver.process_furuno_frame(radar_idx, frame);
        self.spoke_receiver = receiver;
        out
    }

    /// Counts a batch that was streamed, as [`SpokeReceiver::batch_emitted`]
    /// does.
    pub fn batch_emitted(&mut self, batch: &SpokeBatch, delivered: bool) -> (line: Option<Call>)
        requires
            old(self)@.receiver.log.emit_fail < u64::MAX,
        ensures
            final(self)@.wf(),
            final(self)@ == (ProviderView {
                receiver: old(self)@.receiver.after_emission(delivered),
                ..old(self)@
            }),
            match line {
                Some(c) => old(self)@.receiver.emission_line(batch.radar_id@, delivered) == Some(
                    c@,
                ),
                None => old(self)@.receiver.emission_line(batch.radar_id@, delivered) is None,
            },
    {
        proof {
            use_type_invariant(&*self);
        }
        let mut receiver = SpokeReceiver::new();
        std::mem::swap(&mut receiver, &mut self.spoke_receiver);
        let line = receiver.batch_emitted(batch, delivered);
        self.spoke_receiver = receiver;
        line
    }

    /// Ends the reception of spokes. The call closes the socket, where one is
    /// open.
    pub fn shutdown(&mut self) -> (call: Option<Call>)
        ensures
            final(self)@.wf(),
            match call {
                Some(c) => old(self)@.receiver.socket matches Some(socket) && c@
                    == (CallView::UdpClose { socket }),
                None => old(self)@.receiver.socket is None,
            },
            final(self)@.receiver.socket is None,
            final(self)@.receiver.radars.len() == 0,
            final(self)@.receiver.log == old(self)@.receiver.log,
            final(self)@ == (ProviderView { receiver: final(self)@.receiver, ..old(self)@ }),
    {
        proof {
            use_type_invariant(&*self);
        }
        let mut receiver = SpokeReceiver::new();
        std::mem::swap(&mut receiver, &mut self.spoke_receiver);
        let call = receiver.shutdown();
        self.spoke_receiver = receiver;
        call
    }

    /// The ids of the known radars.
    pub fn get_radar_ids(&self) -> (ids: Vec<String>)
        ensures
            ids@.map_values(|id: String| id@) == located_ids(self@.radars),
    {
        let mut ids: Vec<String> = Vec::new();
        let n: usize = self.radars.len();
        let mut i: usize = 0;
        while i < n
            invariant
                i <= n,
                n == self.radars@.len(),
                ids@.len() == i,
                forall|k: int| 0 <= k < i ==> (#[trigger] ids@[k])@ == radar_id(self.radars@[k]@),
            decreases n - i,
        {
            ids.push(radar_id_of(&self.radars[i]));
            i += 1;
        }
        assert(ids@.map_values(|id: String| id@) =~= located_ids(self@.radars));
        ids
    }

    /// The state of the radar with this id.
    pub fn get_radar_info(&self, radar_id: &str) -> (state: Option<RadarState>)
        ensures
            match state {
                Some(s) => {
                    &&& self@.located(radar_id@) matches Some(i)
                    &&& s@ == radar_state(self@.radars[i])
                },
                None => self@.located(radar_id@) is None,
            },
    {
        match self.position(radar_id) {
            Some(i) => Some(RadarState::from(&self.radars[i])),
            None => None,
        }
    }

    /// What is known of the radar with this id.
    pub fn find_radar(&self, radar_id: &str) -> (radar: Option<&RadarDiscovery>)
        ensures
            match radar {
                Some(d) => self@.located(radar_id@) matches Some(i) && d@ == self@.radars[i],
                None => self@.located(radar_id@) is None,
            },
    {
        match self.position(radar_id) {
            Some(i) => Some(&self.radars[i]),
            None => None,
        }
    }

    /// What is known of a radar, with the model that its controller tells: what
    /// its capabilities depend on.
    pub fn capability_subject(&self, radar_id: &str, told: Option<String>) -> (subject: Option<
        RadarDiscovery,
    >)
        ensures
            match subject {
                Some(d) => self@.up_to_date(radar_id@, optional_text(told)) == Some(d@),
                None => self@.up_to_date(radar_id@, optional_text(told)) is None,
            },
    {
        match self.position(radar_id) {
            Some(i) => {
                let mut discovery = self.radars[i].clone();
                let model = self.get_controller_model(radar_id, told);
                if model.is_some() {
                    discovery.model = model;
                }
                Some(discovery)
            },
            None => None,
        }
    }

    /// How the capabilities of a radar are to be built. `told` is the model
    /// that its controller tells, `info` what the table of models tells of the
    /// model of [`RadarProvider::capability_subject`].
    pub fn get_capabilities(&self, radar_id: &str, told: Option<String>, info: Option<ModelInfo>) -> (plan:
        Option<CapabilityPlan>)
        ensures
            match plan {
                Some(p) => {
                    &&& self@.up_to_date(radar_id@, optional_text(told)) matches Some(d)
                    &&& p@ == plan_for(d, radar_id@, info)
                },
                None => self@.located(radar_id@) is None,
            },
    {
        match self.capability_subject(radar_id, told) {
            Some(discovery) => Some(plan_capabilities(discovery, radar_id, info)),
            None => None,
        }
    }

    /// The state of a radar with the values of its controls. `live` is what its
    /// controller tells.
    pub fn get_state_v5(&self, radar_id: &str, live: LiveReport) -> (state: Option<RadarStateV5>)
        ensures
            match state {
                Some(s) => self@.state_v5(radar_id@, live@) == Some(s@),
                None => self@.located(radar_id@) is None,
            },
    {
        let i: usize = match self.position(radar_id) {
            Some(i) => i,
            None => {
                return None;
            },
        };
        let brand = self.controller(radar_id);
        let mut controls = match (brand, live.controls) {
            (Some(_), Some(told)) => told,
            _ => default_values(),
        };
        if let Some(Brand::Furuno) = brand {
            put_value(&mut controls, "firmwareVersion", json_text(&live.firmware_version));
            put_value(&mut controls, "operatingHours", live.operating_hours);
        }
        put_value(&mut controls, "serialNumber", json_text(&self.radars[i].serial_number));
        let installed = self.installation(radar_id);
        let bearing = match installed.bearing_alignment {
            Some(degrees) => Some(Json::from_double(degrees)),
            None => None,
        };
        put_value(&mut controls, "bearingAlignment", bearing);
        let height = match installed.antenna_height {
            Some(metres) => Some(Json::from_i32(metres)),
            None => None,
        };
        put_value(&mut controls, "antennaHeight", height);
        let disabled: Vec<String> = Vec::new();
        assert(disabled@ =~= Seq::<String>::empty());
        Some(
            RadarStateV5 {
                id: radar_id.to_owned(),
                timestamp: "2025-01-01T00:00:00Z".to_owned(),
                status: status_of(&controls),
                controls,
                disabled_controls: disabled,
            },
        )
    }

    /// The value of one control of a radar. `live` is what its controller
    /// tells.
    pub fn get_control(&self, radar_id: &str, control_id: &str, live: LiveReport) -> (value: Option<
        Json,
    >)
        ensures
            optional_json(value) == self@.control_value(radar_id@, control_id@, live@),
    {
        match self.get_state_v5(radar_id, live) {
            Some(state) => match state.controls.get(control_id) {
                Some(v) => Some(v.clone()),
                None => None,
            },
            None => None,
        }
    }

    /// The targets that are followed on a radar, by what the engine told. There
    /// are none to tell of where it told none and the radar has no controller.
    pub fn get_targets<T>(&self, radar_id: &str, targets: Vec<T>) -> (told: Option<Vec<T>>)
        ensures
            told == if targets@.len() == 0 && !self@.manages(radar_id@) {
                None::<Vec<T>>
            } else {
                Some(targets)
            },
    {
        if targets.len() == 0 && !self.contains(radar_id) {
            None
        } else {
            Some(targets)
        }
    }

    /// A request to follow a target at a position, or what is wrong with the
    /// position. [`crate::features::acquire_reply`] reads the engine's answer.
    pub fn acquire_target(&self, radar_id: &str, bearing: Double, distance: Double) -> (request:
        Result<Acquisition, String>)
        ensures
            match request {
                Ok(a) => {
                    &&& position_error(bearing, distance) is None
                    &&& a.radar_id@ == radar_id@
                    &&& a.bearing == bearing
                    &&& a.distance == distance
                    &&& a.timestamp == self@.poll_count * POLL_INTERVAL
                },
                Err(e) => position_error(bearing, distance) == Some(e@),
            },
    {
        proof {
            use_type_invariant(self);
        }
        match check_position(&bearing, &distance) {
            Some(error) => Err(error),
            None => Ok(
                Acquisition {
                    radar_id: radar_id.to_owned(),
                    bearing,
                    distance,
                    timestamp: self.poll_count * POLL_INTERVAL,
                },
            ),
        }
    }

    /// Whether the settings for following targets may be changed: on a radar
    /// that has a controller.
    pub fn set_arpa_settings(&self, radar_id: &str) -> (result: Result<(), String>)
        ensures
            match result {
                Ok(_) => self@.manages(radar_id@),
                Err(e) => !self@.manages(radar_id@) && e@ == "radar not found"@,
            },
    {
        if self.contains(radar_id) {
            Ok(())
        } else {
            Err("radar not found".to_owned())
        }
    }

    /// The calls that publish what happened to targets, in order: a warning for
    /// each that comes too close, and the end of the warning for each that is
    /// lost.
    pub fn process_arpa_events(&self, radar_id: &str, events: &Vec<ArpaEvent>) -> (calls: Vec<Call>)
        ensures
            calls_view(calls@) == event_calls(radar_id@, events@),
    {
        arpa_calls(radar_id, events)
    }

    /// Whether a second range may be asked of a radar, by whether it has two.
    /// [`crate::features::dual_range_reply`] reads the engine's answer.
    pub fn set_dual_range_config(supported: bool) -> (result: Result<(), String>)
        ensures
            match result {
                Ok(_) => supported,
                Err(e) => !supported && e@ == "Radar does not support dual-range"@,
            },
    {
        check_dual_range(supported)
    }
}

fn json_text(text: &Option<String>) -> (value: Option<Json>)
    ensures
        optional_json(value) == text_json(optional_text(*text)),
{
    match text {
        Some(t) => Some(Json::from_text(t.as_str())),
        None => None,
    }
}

proof fn lemma_admitted_once(managed: Seq<(Seq<char>, Brand)>, id: Seq<char>, brand: Brand)
    requires
        managed_ids(managed).no_duplicates(),
        managed_ids(managed).index_of_first(id) is None,
    ensures
        managed_ids(managed.push((id, brand))).no_duplicates(),
{
    let ids = managed_ids(managed);
    let after = managed_ids(managed.push((id, brand)));
    ids.index_of_first_ensures(id);
    assert(after =~= ids.push(id));
    assert forall|i: int, j: int|
        0 <= i < after.len() && 0 <= j < after.len() && i != j implies after[i] != after[j] by {
        if i < ids.len() {
            assert(ids[i] == after[i]);
        }
        if j < ids.len() {
            assert(ids[j] == after[j]);
        }
    }
}

fn available(done: bool) -> (outcome: Result<(), ControlError<String>>)
    ensures
        outcome_view(outcome) == if done {
            Ok::<(), ControlError<Seq<char>>>(())
        } else {
            Err(ControlError::ControllerNotAvailable)
        },
{
    if done {
        Ok(())
    } else {
        Err(ControlError::ControllerNotAvailable)
    }
}

fn level_or_default(value: Option<u8>) -> (level: i32)
    ensures
        level == requested_level(value),
{
    match value {
        Some(v) => v as i32,
        None => DEFAULT_LEVEL as i32,
    }
}

} // verus!
