//! What the provider asks of those around it: of the radars' controllers, of
//! the locator and of the store for its configuration.

use crate::controls::FurunoSetting;
use crate::locator::{optional_text, Brand, DiscoveryView, RadarDiscovery};
use crate::text::{
    before_first, law_before_first, law_occurrence, occurs_in, str_contains, text_before,
};
use vstd::prelude::*;

verus! {

/// The generations of Navico radars.
#[derive(Clone, Copy, PartialEq, Eq, Structural, Debug)]
pub enum NavicoModel {
    BR24,
    Gen3,
    Gen4,
    Halo,
}

/// The lines of Raymarine radars.
#[derive(Clone, Copy, PartialEq, Eq, Structural, Debug)]
pub enum RaymarineVariant {
    Quantum,
    RD,
}

/// The multicast address that Navico radars take commands on.
pub open spec fn navico_command_address() -> Seq<char> {
    "236.6.7.8"@
}

/// The multicast address that Navico radars report on.
pub open spec fn navico_report_address() -> Seq<char> {
    "236.6.7.9"@
}

/// The port that Navico radars report on.
pub const NAVICO_REPORT_PORT: u16 = 6680;

/// The controller that a radar needs. `S` is text.
#[derive(Debug)]
pub enum Controller<S> {
    Furuno { address: S },
    Navico {
        command_address: S,
        command_port: u16,
        report_address: S,
        report_port: u16,
        model: NavicoModel,
    },
    /// Commands and reports go over one address.
    Raymarine {
        address: S,
        command_port: u16,
        data_port: u16,
        variant: RaymarineVariant,
        has_doppler: bool,
    },
    Garmin { address: S },
}

impl View for Controller<String> {
    type V = Controller<Seq<char>>;

    open spec fn view(&self) -> Controller<Seq<char>> {
        match *self {
            Controller::Furuno { address } => Controller::Furuno { address: address@ },
            Controller::Navico {
                command_address,
                command_port,
                report_address,
                report_port,
                model,
            } => Controller::Navico {
                command_address: command_address@,
                command_port,
                report_address: report_address@,
                report_port,
                model,
            },
            Controller::Raymarine { address, command_port, data_port, variant, has_doppler } =>
                Controller::Raymarine {
                    address: address@,
                    command_port,
                    data_port,
                    variant,
                    has_doppler,
                },
            Controller::Garmin { address } => Controller::Garmin { address: address@ },
        }
    }
}

/// Whether a model is known and its name holds `part`.
pub open spec fn model_holds(model: Option<Seq<char>>, part: Seq<char>) -> bool {
    match model {
        Some(m) => occurs_in(m, part),
        None => false,
    }
}

fn model_contains(model: &Option<String>, part: &str) -> (holds: bool)
    ensures
        holds == model_holds(optional_text(*model), part@),
{
    match model {
        Some(m) => str_contains(m.as_str(), part),
        None => false,
    }
}

/// The generation that a Navico model name tells; 4G where it tells none.
pub open spec fn navico_generation(model: Option<Seq<char>>) -> NavicoModel {
    if model_holds(model, "HALO"@) {
        NavicoModel::Halo
    } else if model_holds(model, "4G"@) {
        NavicoModel::Gen4
    } else if model_holds(model, "3G"@) {
        NavicoModel::Gen3
    } else if model_holds(model, "BR24"@) {
        NavicoModel::BR24
    } else {
        NavicoModel::Gen4
    }
}

/// The generation that a Navico model name tells.
pub fn navico_model(model: &Option<String>) -> (generation: NavicoModel)
    ensures
        generation == navico_generation(optional_text(*model)),
{
    if model_contains(model, "HALO") {
        NavicoModel::Halo
    } else if model_contains(model, "4G") {
        NavicoModel::Gen4
    } else if model_contains(model, "3G") {
        NavicoModel::Gen3
    } else if model_contains(model, "BR24") {
        NavicoModel::BR24
    } else {
        NavicoModel::Gen4
    }
}

/// The line that a Raymarine model name tells, and whether the radar measures
/// speed.
pub open spec fn raymarine_line(model: Option<Seq<char>>) -> (RaymarineVariant, bool) {
    if model_holds(model, "Quantum 2"@) {
        (RaymarineVariant::Quantum, true)
    } else if model_holds(model, "Quantum"@) {
        (RaymarineVariant::Quantum, false)
    } else {
        (RaymarineVariant::RD, false)
    }
}

/// The line that a Raymarine model name tells, and whether the radar measures
/// speed.
pub fn raymarine_variant(model: &Option<String>) -> (line: (RaymarineVariant, bool))
    ensures
        line == raymarine_line(optional_text(*model)),
{
    if model_contains(model, "Quantum 2") {
        (RaymarineVariant::Quantum, true)
    } else if model_contains(model, "Quantum") {
        (RaymarineVariant::Quantum, false)
    } else {
        (RaymarineVariant::RD, false)
    }
}

/// The address of a radar without its port.
pub open spec fn radar_ip(d: DiscoveryView) -> Seq<char> {
    before_first(d.address, ':')
}

/// The controller that a radar needs.
pub open spec fn controller_for(d: DiscoveryView) -> Controller<Seq<char>> {
    match d.brand {
        Brand::Furuno => Controller::Furuno { address: radar_ip(d) },
        Brand::Navico => Controller::Navico {
            command_address: navico_command_address(),
            command_port: d.command_port,
            report_address: navico_report_address(),
            report_port: NAVICO_REPORT_PORT,
            model: navico_generation(d.model),
        },
        Brand::Raymarine => Controller::Raymarine {
            address: radar_ip(d),
            command_port: d.command_port,
            data_port: d.data_port,
            variant: raymarine_line(d.model).0,
            has_doppler: raymarine_line(d.model).1,
        },
        Brand::Garmin => Controller::Garmin { address: radar_ip(d) },
    }
}

/// The controller that a radar needs.
pub fn choose_controller(d: &RadarDiscovery) -> (controller: Controller<String>)
    ensures
        controller@ == controller_for(d@),
{
    match d.brand {
        Brand::Furuno => Controller::Furuno { address: text_before(d.address.as_str(), ':') },
        Brand::Navico => Controller::Navico {
            command_address: "236.6.7.8".to_owned(),
            command_port: d.command_port,
            report_address: "236.6.7.9".to_owned(),
            report_port: NAVICO_REPORT_PORT,
            model: navico_model(&d.model),
        },
        Brand::Raymarine => {
            let (variant, has_doppler) = raymarine_variant(&d.model);
            Controller::Raymarine {
                address: text_before(d.address.as_str(), ':'),
                command_port: d.command_port,
                data_port: d.data_port,
                variant,
                has_doppler,
            }
        },
        Brand::Garmin => Controller::Garmin { address: text_before(d.address.as_str(), ':') },
    }
}

/// Something that the provider asks to be done. `S` is text.
#[derive(Debug)]
pub enum Command<S> {
    /// Send the announcement that Furuno radars answer to.
    Announce,
    /// Open the spoke socket, unless it is open.
    ListenFuruno,
    /// Take a radar under control.
    AddRadar { radar_id: S, controller: Controller<S> },
    /// Tell the engine a radar's model.
    SetModelInfo { radar_id: S, model: S },
    SetPower { radar_id: S, transmit: bool },
    /// Metres.
    SetRange { radar_id: S, range: u32 },
    SetGain { radar_id: S, value: i32, auto: bool },
    SetSea { radar_id: S, value: i32, auto: bool },
    SetRain { radar_id: S, value: i32, auto: bool },
    /// Change a setting of a Furuno controller.
    Furuno { radar_id: S, setting: FurunoSetting },
    /// Store the configuration.
    SaveConfig,
}

/// The model of a command.
pub type CommandView = Command<Seq<char>>;

impl View for Command<String> {
    type V = CommandView;

    open spec fn view(&self) -> CommandView {
        match *self {
            Command::Announce => Command::Announce,
            Command::ListenFuruno => Command::ListenFuruno,
            Command::AddRadar { radar_id, controller } => Command::AddRadar {
                radar_id: radar_id@,
                controller: controller@,
            },
            Command::SetModelInfo { radar_id, model } => Command::SetModelInfo {
                radar_id: radar_id@,
                model: model@,
            },
            Command::SetPower { radar_id, transmit } => Command::SetPower {
                radar_id: radar_id@,
                transmit,
            },
            Command::SetRange { radar_id, range } => Command::SetRange {
                radar_id: radar_id@,
                range,
            },
            Command::SetGain { radar_id, value, auto } => Command::SetGain {
                radar_id: radar_id@,
                value,
                auto,
            },
            Command::SetSea { radar_id, value, auto } => Command::SetSea {
                radar_id: radar_id@,
                value,
                auto,
            },
            Command::SetRain { radar_id, value, auto } => Command::SetRain {
                radar_id: radar_id@,
                value,
                auto,
            },
            Command::Furuno { radar_id, setting } => Command::Furuno {
                radar_id: radar_id@,
                setting,
            },
            Command::SaveConfig => Command::SaveConfig,
        }
    }
}

/// The models of a run of commands.
pub open spec fn commands_view(commands: Seq<Command<String>>) -> Seq<CommandView> {
    commands.map_values(|c: Command<String>| c@)
}

// ---------------------------------------------------------------------------
// Laws
// ---------------------------------------------------------------------------

/// A Navico radar is driven by the generation that its model names, wherever in
/// the model the name stands: HALO before 4G, 4G before 3G, 3G before BR24; and
/// as a 4G where the model names none, or is not known. Commands and reports go
/// over the multicast addresses of Navico radars, commands to the port that was
/// found.
pub proof fn law_navico_controllers(d: DiscoveryView, a: Seq<char>, b: Seq<char>)
    requires
        d.brand == Brand::Navico,
    ensures
        controller_for(d) matches Controller::Navico {
            command_address,
            command_port,
            report_address,
            report_port,
            model,
        } && {
            &&& command_address == "236.6.7.8"@
            &&& command_port == d.command_port
            &&& report_address == "236.6.7.9"@
            &&& report_port == 6680
            &&& d.model == Some(a + "HALO"@ + b) ==> model == NavicoModel::Halo
            &&& d.model is None ==> model == NavicoModel::Gen4
            &&& d.model matches Some(m) ==> {
                &&& !occurs_in(m, "HALO"@) && m == a + "4G"@ + b ==> model == NavicoModel::Gen4
                &&& !occurs_in(m, "HALO"@) && !occurs_in(m, "4G"@) && m == a + "3G"@ + b ==> model
                    == NavicoModel::Gen3
                &&& !occurs_in(m, "HALO"@) && !occurs_in(m, "4G"@) && !occurs_in(m, "3G"@) && m == a
                    + "BR24"@ + b ==> model == NavicoModel::BR24
                &&& !occurs_in(m, "HALO"@) && !occurs_in(m, "4G"@) && !occurs_in(m, "3G"@)
                    && !occurs_in(m, "BR24"@) ==> model == NavicoModel::Gen4
            }
        },
{
    law_occurrence(a, "HALO"@, a, b);
    law_occurrence(a, "4G"@, a, b);
    law_occurrence(a, "3G"@, a, b);
    law_occurrence(a, "BR24"@, a, b);
}

/// A Raymarine radar is driven as a Quantum where its model names that, wherever
/// it does so, with doppler where it is a Quantum 2; else, or where the model is
/// not known, as an RD. The ports are those that were found, and the address is
/// the one that was found, without its port.
pub proof fn law_raymarine_controllers(
    d: DiscoveryView,
    a: Seq<char>,
    b: Seq<char>,
    ip: Seq<char>,
    rest: Seq<char>,
)
    requires
        d.brand == Brand::Raymarine,
        !ip.contains(':'),
        d.address == ip || d.address == ip + seq![':'] + rest,
    ensures
        controller_for(d) matches Controller::Raymarine {
            address,
            command_port,
            data_port,
            variant,
            has_doppler,
        } && {
            &&& address == ip
            &&& command_port == d.command_port
            &&& data_port == d.data_port
            &&& d.model == Some(a + "Quantum 2"@ + b) ==> variant == RaymarineVariant::Quantum
                && has_doppler
            &&& d.model is None ==> variant == RaymarineVariant::RD && !has_doppler
            &&& d.model matches Some(m) ==> {
                &&& !occurs_in(m, "Quantum 2"@) ==> !has_doppler
                &&& !occurs_in(m, "Quantum 2"@) && m == a + "Quantum"@ + b ==> variant
                    == RaymarineVariant::Quantum
                &&& !occurs_in(m, "Quantum 2"@) && !occurs_in(m, "Quantum"@) ==> variant
                    == RaymarineVariant::RD
            }
        },
{
    law_occurrence(a, "Quantum 2"@, a, b);
    law_occurrence(a, "Quantum"@, a, b);
    law_before_first(ip, ':', rest);
}

/// Furuno and Garmin radars are reached at the address that was found, without
/// its port. A radar gets a controller of its own brand.
pub proof fn law_addressed_controllers(d: DiscoveryView, ip: Seq<char>, rest: Seq<char>)
    requires
        !ip.contains(':'),
        d.address == ip || d.address == ip + seq![':'] + rest,
    ensures
        radar_ip(d) == ip,
        d.brand == Brand::Furuno ==> controller_for(d) == (Controller::Furuno { address: ip }),
        d.brand == Brand::Garmin ==> controller_for(d) == (Controller::Garmin { address: ip }),
        d.brand == Brand::Furuno <==> controller_for(d) is Furuno,
        d.brand == Brand::Navico <==> controller_for(d) is Navico,
        d.brand == Brand::Raymarine <==> controller_for(d) is Raymarine,
        d.brand == Brand::Garmin <==> controller_for(d) is Garmin,
{
    law_before_first(ip, ':', rest);
}

} // verus!
