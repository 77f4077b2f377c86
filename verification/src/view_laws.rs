//! The models of values say what the values hold.

use crate::commands::{Command, Controller};
use crate::config::{PluginConfig, RadarInstallationConfig, StoredConfig, StoredInstallation};
use crate::controls::ControlError;
use crate::features::{CapabilityPlan, PlanView};
use crate::json::{value_contents, Json, JsonView};
use crate::locator::{optional_text, RadarDiscovery};
use crate::radar_provider::Emission;
use crate::radar_state::{LegendEntry, RadarState};
use crate::signalk_ffi::{Call, HostCall, Measure};
use crate::spoke_receiver::{FrameReport, ParsedSpoke, SpokeBatch};
use crate::state_v5::{optional_json, LiveReport, RadarStateV5};
use vstd::prelude::*;

verus! {

/// The model of a command is the same command with the same values.
pub proof fn law_command_views(c: Command<String>)
    ensures
        match (c, c@) {
            (Command::Announce, Command::Announce) => true,
            (Command::ListenFuruno, Command::ListenFuruno) => true,
            (Command::SaveConfig, Command::SaveConfig) => true,
            (
                Command::AddRadar { radar_id, controller },
                Command::AddRadar { radar_id: id, controller: model },
            ) => id == radar_id@ && model == controller@,
            (
                Command::SetModelInfo { radar_id, model },
                Command::SetModelInfo { radar_id: id, model: name },
            ) => id == radar_id@ && name == model@,
            (
                Command::SetPower { radar_id, transmit },
                Command::SetPower { radar_id: id, transmit: on },
            ) => id == radar_id@ && on == transmit,
            (
                Command::SetRange { radar_id, range },
                Command::SetRange { radar_id: id, range: metres },
            ) => id == radar_id@ && metres == range,
            (
                Command::SetGain { radar_id, value, auto },
                Command::SetGain { radar_id: id, value: level, auto: itself },
            ) => id == radar_id@ && level == value && itself == auto,
            (
                Command::SetSea { radar_id, value, auto },
                Command::SetSea { radar_id: id, value: level, auto: itself },
            ) => id == radar_id@ && level == value && itself == auto,
            (
                Command::SetRain { radar_id, value, auto },
                Command::SetRain { radar_id: id, value: level, auto: itself },
            ) => id == radar_id@ && level == value && itself == auto,
            (
                Command::Furuno { radar_id, setting },
                Command::Furuno { radar_id: id, setting: same },
            ) => id == radar_id@ && same == setting,
            _ => false,
        },
{
}

/// The model of a controller is the same controller with the same values.
pub proof fn law_controller_views(c: Controller<String>)
    ensures
        match (c, c@) {
            (Controller::Furuno { address }, Controller::Furuno { address: a }) => a == address@,
            (Controller::Garmin { address }, Controller::Garmin { address: a }) => a == address@,
            (
                Controller::Navico {
                    command_address,
                    command_port,
                    report_address,
                    report_port,
                    model,
                },
                Controller::Navico {
                    command_address: a,
                    command_port: p,
                    report_address: b,
                    report_port: q,
                    model: m,
                },
            ) => a == command_address@ && p == command_port && b == report_address@ && q
                == report_port && m == model,
            (
                Controller::Raymarine { address, command_port, data_port, variant, has_doppler },
                Controller::Raymarine {
                    address: a,
                    command_port: p,
                    data_port: q,
                    variant: v,
                    has_doppler: h,
                },
            ) => a == address@ && p == command_port && q == data_port && v == variant && h
                == has_doppler,
            _ => false,
        },
{
}

/// The model of a host call is the same call with the same arguments.
pub proof fn law_call_views(c: Call)
    ensures
        match (c, c@) {
            (HostCall::Debug { msg }, HostCall::Debug { msg: m }) => m == msg@,
            (HostCall::SetStatus { msg }, HostCall::SetStatus { msg: m }) => m == msg@,
            (HostCall::SetError { msg }, HostCall::SetError { msg: m }) => m == msg@,
            (HostCall::HandleMessage { msg }, HostCall::HandleMessage { msg: m }) => m == msg@,
            (
                HostCall::PublishNotification { path, value },
                HostCall::PublishNotification { path: p, value: v },
            ) => p == path@ && v == value@,
            (
                HostCall::RegisterRadarProvider { name },
                HostCall::RegisterRadarProvider { name: n },
            ) => n == name@,
            (
                HostCall::RadarEmitSpokes { radar_id, data },
                HostCall::RadarEmitSpokes { radar_id: id, data: d },
            ) => id == radar_id@ && d == data@,
            (HostCall::UdpCreate { socket_type }, HostCall::UdpCreate { socket_type: t }) => t
                == socket_type,
            (HostCall::UdpBind { socket, port }, HostCall::UdpBind { socket: s, port: p }) => s
                == socket && p == port,
            (
                HostCall::UdpJoinMulticast { socket, group, interface },
                HostCall::UdpJoinMulticast { socket: s, group: g, interface: i },
            ) => s == socket && g == group@ && i == interface@,
            (HostCall::UdpRecv { socket, max_len }, HostCall::UdpRecv { socket: s, max_len: n }) =>
                s == socket && n == max_len,
            (
                HostCall::UdpSend { socket, addr, port, data },
                HostCall::UdpSend { socket: s, addr: a, port: p, data: d },
            ) => s == socket && a == addr@ && p == port && d == data@,
            (HostCall::UdpClose { socket }, HostCall::UdpClose { socket: s }) => s == socket,
            (HostCall::UdpPending { socket }, HostCall::UdpPending { socket: s }) => s == socket,
            (
                HostCall::UdpSetBroadcast { socket, enabled },
                HostCall::UdpSetBroadcast { socket: s, enabled: e },
            ) => s == socket && e == enabled,
            (HostCall::ReadConfig { max_len }, HostCall::ReadConfig { max_len: n }) => n
                == max_len,
            (HostCall::SaveConfig { config }, HostCall::SaveConfig { config: c }) => c == config@,
            (HostCall::TcpCreate, HostCall::TcpCreate) => true,
            (
                HostCall::TcpConnect { socket, addr, port },
                HostCall::TcpConnect { socket: s, addr: a, port: p },
            ) => s == socket && a == addr@ && p == port,
            (HostCall::TcpConnected { socket }, HostCall::TcpConnected { socket: s }) => s
                == socket,
            (
                HostCall::TcpSetLineBuffering { socket, line_buffering },
                HostCall::TcpSetLineBuffering { socket: s, line_buffering: b },
            ) => s == socket && b == line_buffering,
            (HostCall::TcpSend { socket, data }, HostCall::TcpSend { socket: s, data: d }) => s
                == socket && d == data@,
            (
                HostCall::TcpRecvLine { socket, max_len },
                HostCall::TcpRecvLine { socket: s, max_len: n },
            ) => s == socket && n == max_len,
            (
                HostCall::TcpRecvRaw { socket, max_len },
                HostCall::TcpRecvRaw { socket: s, max_len: n },
            ) => s == socket && n == max_len,
            (HostCall::TcpPending { socket }, HostCall::TcpPending { socket: s }) => s == socket,
            (HostCall::TcpClose { socket }, HostCall::TcpClose { socket: s }) => s == socket,
            _ => false,
        },
{
}

/// The model of a refusal is the same refusal with the same text.
pub proof fn law_error_views(e: ControlError<String>)
    ensures
        match (e, e@) {
            (ControlError::RadarNotFound, ControlError::RadarNotFound) => true,
            (ControlError::ControllerNotAvailable, ControlError::ControllerNotAvailable) => true,
            (ControlError::InvalidValue(s), ControlError::InvalidValue(t)) => t == s@,
            (ControlError::ControlNotFound(s), ControlError::ControlNotFound(t)) => t == s@,
            _ => false,
        },
{
}

/// The models of what is received and handed out hold what the values hold.
pub proof fn law_reception_views(
    spoke: ParsedSpoke,
    frame: FrameReport,
    batch: SpokeBatch,
    k: int,
)
    ensures
        spoke@.angle == spoke.angle && spoke@.heading == spoke.heading && spoke@.data == spoke.data@,
        frame@.len == frame.len && frame@.spoke_frame == frame.spoke_frame,
        frame@.range == frame.range && frame@.prev_spoke == frame.prev_spoke@,
        frame@.spokes is Some <==> frame.spokes is Some,
        frame.spokes matches Some(s) ==> frame@.spokes->0.len() == s@.len() && (0 <= k < s@.len()
            ==> frame@.spokes->0[k] == s@[k]@),
        batch@.radar_id == batch.radar_id@ && batch@.numeric_id == batch.numeric_id,
        batch@.range == batch.range && batch@.spokes.len() == batch.spokes@.len(),
        0 <= k < batch.spokes@.len() ==> batch@.spokes[k] == batch.spokes@[k]@,
{
}

/// The model of a discovery holds what the discovery holds.
pub proof fn law_discovery_views(d: RadarDiscovery)
    ensures
        d@.brand == d.brand && d@.brand_name == d.brand_name@ && d@.name == d.name@,
        d@.address == d.address@,
        d.model is None <==> d@.model is None,
        d.model matches Some(m) ==> d@.model == Some(m@),
        d.serial_number is None <==> d@.serial_number is None,
        d.serial_number matches Some(s) ==> d@.serial_number == Some(s@),
        d@.spokes_per_revolution == d.spokes_per_revolution,
        d@.max_spoke_len == d.max_spoke_len,
        d@.command_port == d.command_port && d@.data_port == d.data_port,
{
}

/// The models of what clients are told hold what the values hold.
pub proof fn law_state_views(
    state: RadarState,
    emission: Emission,
    v5: RadarStateV5,
    live: LiveReport,
    entry: LegendEntry,
)
    ensures
        state@.id == state.id@ && state@.name == state.name@ && state@.brand == state.brand@,
        state.model is None <==> state@.model is None,
        state.model matches Some(m) ==> state@.model == Some(m@),
        state@.status == state.status@,
        state@.spokes_per_revolution == state.spokes_per_revolution,
        state@.max_spoke_len == state.max_spoke_len,
        state@.stream_url is None <==> state.stream_url is None,
        state@.control_url is None <==> state.control_url is None,
        state@.controls == state.controls@ && state@.legend == state.legend@,
        emission@.path == emission.path@ && emission@.state == emission.state@,
        v5@.id == v5.id@ && v5@.timestamp == v5.timestamp@ && v5@.status == v5.status@,
        v5@.controls == v5.controls@ && v5@.disabled_controls == v5.disabled_controls@,
        live.controls is None <==> live@.controls is None,
        live.controls matches Some(c) ==> live@.controls == Some(c@),
        live@.firmware_version == optional_text(live.firmware_version),
        live@.operating_hours == optional_json(live.operating_hours),
        entry@ == entry.color@,
{
}

/// The model of a plan holds what the plan holds.
pub proof fn law_plan_views(plan: CapabilityPlan)
    ensures
        match plan {
            CapabilityPlan::FromModel {
                radar_id,
                features,
                spokes_per_revolution,
                max_spoke_length,
            } => plan@ matches PlanView::FromModel {
                radar_id: id,
                features: f,
                spokes_per_revolution: n,
                max_spoke_length: m,
            } && id == radar_id@ && f == features@ && n == spokes_per_revolution && m
                == max_spoke_length,
            CapabilityPlan::FromDiscovery { discovery, radar_id, features } =>
                plan@ matches PlanView::FromDiscovery {
                discovery: d,
                radar_id: id,
                features: f,
            } && d == discovery@ && id == radar_id@ && f == features@,
        },
{
}

/// The models of what is configured and measured hold what the values hold.
pub proof fn law_config_views(
    installed: RadarInstallationConfig,
    config: PluginConfig,
    stored: StoredInstallation,
    stored_config: StoredConfig,
    measure: Measure,
)
    ensures
        installed@ == installed,
        config@ == config.radars@,
        stored@.bearing_alignment == optional_json(stored.bearing_alignment),
        stored@.antenna_height == optional_json(stored.antenna_height),
        stored_config@ == stored_config.radars@,
        measure@.exact == value_contents(measure.exact),
        measure@.rounded == measure.rounded@,
{
}

/// The model of a JSON value is the tree of its values.
pub proof fn law_json_views(j: Json, k: int)
    ensures
        match j {
            Json::Null => j@ is Null,
            Json::Bool(b) => j@ == JsonView::Bool(b),
            Json::Number(n) => j@ == JsonView::Number(n),
            Json::Text(s) => j@ == JsonView::Text(s@),
            Json::Array(items) => {
                &&& j@ matches JsonView::Array(v) && v.len() == items@.len()
                &&& 0 <= k < items@.len() ==> j@->Array_0[k] == items@[k]@
            },
            Json::Object(entries) => {
                &&& j@ matches JsonView::Object(v) && v.len() == entries@.len()
                &&& 0 <= k < entries@.len() ==> j@->Object_0[k] == (
                    entries@[k].0@,
                    entries@[k].1@,
                )
            },
        },
        optional_json(Some(j)) == Some(j@),
        optional_json(None) is None,
{
}

} // verus!
