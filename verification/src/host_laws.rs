//! What is asked of the host, and what its replies mean, over all the functions
//! that ask it.
//!
//! Each law speaks of any outcome that a function may have.

use crate::double::Double;
use crate::features::{
    acquire_reply, check_dual_range, check_position, dual_range_reply, position_error,
};
use crate::signalk_ffi::{
    address_port, before_zero, cleaned_json, count_reply, datagram_reply, debug, delta_text,
    emit_delta, emit_json, emit_radar_spokes, emit_radar_spokes_reply, filled, handle_message,
    publish_notification, publish_notification_reply, read_config, read_config_call, received_reply,
    register_radar_provider, register_radar_provider_reply, save_config, save_config_reply, set_error,
    set_status, sk_debug_log, sk_info, sk_warn, status_reply, Call, CallView, TcpSocket, UdpSocket,
};
use crate::text::{decimal_text, utf8_lossy};
use crate::wasm_io::{IoError, TcpSocketHandle, UdpSocketHandle, WasmIoProvider};
use vstd::prelude::*;
use vstd::utf8::*;

verus! {

// ---------------------------------------------------------------------------
// Replies
// ---------------------------------------------------------------------------

/// A negative reply is an error code wherever it comes back; any other is
/// success, and where something is counted, the count.
pub proof fn law_replies(
    reply: i32,
    status: Result<(), i32>,
    count: Result<usize, i32>,
    received: Option<usize>,
    io_status: Result<(), IoError>,
    io_count: Result<usize, IoError>,
)
    requires
        call_ensures(status_reply, (reply,), status),
        call_ensures(count_reply, (reply,), count),
        call_ensures(received_reply, (reply,), received),
        call_ensures(WasmIoProvider::status_result, (reply,), io_status),
        call_ensures(WasmIoProvider::count_result, (reply,), io_count),
    ensures
        reply < 0 ==> {
            &&& status == Err::<(), i32>(reply)
            &&& count == Err::<usize, i32>(reply)
            &&& io_status == Err::<(), IoError>(IoError::Code(reply))
            &&& io_count == Err::<usize, IoError>(IoError::Code(reply))
        },
        reply >= 0 ==> {
            &&& status is Ok
            &&& count matches Ok(n) && n == reply
            &&& io_status is Ok
            &&& io_count matches Ok(n) && n == reply
        },
        reply > 0 <==> received is Some,
        received matches Some(n) ==> n == reply,
{
}

/// A new socket has the id that the host replied, unless that is an error code;
/// sockets of both kinds, and handles, are told alike.
pub proof fn law_new_sockets(
    reply: i32,
    udp: Result<UdpSocket, i32>,
    tcp: Result<TcpSocket, i32>,
    udp_handle: Result<UdpSocketHandle, IoError>,
    tcp_handle: Result<TcpSocketHandle, IoError>,
)
    requires
        call_ensures(UdpSocket::new, (reply,), udp),
        call_ensures(TcpSocket::new, (reply,), tcp),
        call_ensures(WasmIoProvider::udp_create_result, (reply,), udp_handle),
        call_ensures(WasmIoProvider::tcp_create_result, (reply,), tcp_handle),
    ensures
        reply >= 0 ==> {
            &&& udp matches Ok(s) && s@ == reply
            &&& tcp matches Ok(s) && s@ == reply
            &&& udp_handle matches Ok(h) && h.0 == reply
            &&& tcp_handle matches Ok(h) && h.0 == reply
        },
        reply < 0 ==> {
            &&& udp matches Err(code) && code == reply
            &&& tcp matches Err(code) && code == reply
            &&& udp_handle == Err::<UdpSocketHandle, IoError>(IoError::Code(reply))
            &&& tcp_handle == Err::<TcpSocketHandle, IoError>(IoError::Code(reply))
        },
{
}

/// A connection stands where the reply is 1, and a socket exists where it is not
/// negative, for whoever asks.
pub proof fn law_connections(
    reply: i32,
    connected: bool,
    valid: bool,
    io_connected: bool,
    io_valid: bool,
)
    requires
        call_ensures(TcpSocket::is_connected, (reply,), connected),
        call_ensures(TcpSocket::is_valid, (reply,), valid),
        call_ensures(WasmIoProvider::tcp_is_connected, (reply,), io_connected),
        call_ensures(WasmIoProvider::tcp_is_valid, (reply,), io_valid),
    ensures
        connected <==> reply == 1,
        io_connected <==> reply == 1,
        valid <==> reply >= 0,
        io_valid <==> reply >= 0,
{
}

/// What the replies to the plugin's own calls mean: a provider is registered
/// unless the reply is 0, spokes arrived where it is 1, a notification is
/// published where it is 0, and a configuration is stored unless it is negative.
pub proof fn law_plugin_replies(
    reply: i32,
    registered: bool,
    delivered: bool,
    published: bool,
    saved: bool,
)
    requires
        call_ensures(register_radar_provider_reply, (reply,), registered),
        call_ensures(emit_radar_spokes_reply, (reply,), delivered),
        call_ensures(publish_notification_reply, (reply,), published),
        call_ensures(save_config_reply, (reply,), saved),
    ensures
        registered <==> reply != 0,
        delivered <==> reply == 1,
        published <==> reply == 0,
        saved <==> reply >= 0,
{
}

/// A datagram has the length that was replied and comes from the address in the
/// buffer, up to its first zero byte, and from the port that was given.
pub proof fn law_datagrams(
    reply: i32,
    buf: &[u8],
    port: u16,
    datagram: Option<(usize, String, u16)>,
)
    requires
        call_ensures(datagram_reply, (reply, buf, port), datagram),
    ensures
        datagram is Some <==> reply > 0,
        datagram matches Some((len, addr, from)) ==> {
            &&& len == reply
            &&& from == port
            &&& addr@ == utf8_lossy(before_zero(buf@))
            &&& valid_utf8(before_zero(buf@)) ==> addr@ == decode_utf8(before_zero(buf@))
        },
{
}

/// A line is the bytes that were received, as text.
pub proof fn law_lines(reply: i32, buf: &[u8], line: Option<String>)
    requires
        call_ensures(TcpSocket::recv_line_string, (reply, buf), line),
    ensures
        line is Some <==> reply > 0,
        line matches Some(text) ==> {
            &&& text@ == utf8_lossy(buf@.take(reply as int))
            &&& valid_utf8(buf@.take(reply as int)) ==> text@ == decode_utf8(
                buf@.take(reply as int),
            )
        },
{
}

/// A configuration is the bytes that were filled, as text, where they are text.
/// The host is asked for as many as the buffer of 32768 bytes holds.
pub proof fn law_stored_text(reply: i32, buf: Vec<u8>, config: Option<String>, call: Call)
    requires
        call_ensures(read_config, (reply, buf), config),
        call_ensures(read_config_call, (), call),
    ensures
        config is Some <==> reply > 0 && valid_utf8(filled(buf@, reply as int)),
        config matches Some(text) ==> text@ == decode_utf8(filled(buf@, reply as int)),
        call@ == (CallView::ReadConfig { max_len: 32768 }),
{
}

// ---------------------------------------------------------------------------
// Sockets
// ---------------------------------------------------------------------------

/// What is asked of a UDP socket is asked of that socket and says what was said,
/// and it is the same call through the socket and through its handle.
pub proof fn law_udp_calls(
    s: &UdpSocket,
    io: &WasmIoProvider,
    h: &UdpSocketHandle,
    port: u16,
    on: bool,
    group: &str,
    interface: &str,
    data: &[u8],
    addr: &str,
    max_len: usize,
    calls: Seq<Call>,
)
    requires
        h.0 == s@,
        calls.len() == 15,
        call_ensures(UdpSocket::bind_port, (s, port), calls[0]),
        call_ensures(WasmIoProvider::udp_bind, (io, h, port), calls[1]),
        call_ensures(UdpSocket::set_broadcast, (s, on), calls[2]),
        call_ensures(WasmIoProvider::udp_set_broadcast, (io, h, on), calls[3]),
        call_ensures(UdpSocket::join_multicast_on_interface, (s, group, interface), calls[4]),
        call_ensures(WasmIoProvider::udp_join_multicast, (io, h, group, interface), calls[5]),
        call_ensures(UdpSocket::join_multicast, (s, group), calls[6]),
        call_ensures(UdpSocket::send_to, (s, data, addr, port), calls[7]),
        call_ensures(WasmIoProvider::udp_send_to, (io, h, data, addr, port), calls[8]),
        call_ensures(UdpSocket::pending, (s,), calls[9]),
        call_ensures(WasmIoProvider::udp_pending, (io, h), calls[10]),
        call_ensures(UdpSocket::recv_from, (s, max_len), calls[11]),
        call_ensures(WasmIoProvider::udp_recv_from, (io, h, max_len), calls[12]),
        call_ensures(UdpSocket::create, (), calls[13]),
        call_ensures(WasmIoProvider::udp_create, (io,), calls[14]),
    ensures
        calls[0]@ == (CallView::UdpBind { socket: s@, port }) && calls[1]@ == calls[0]@,
        on ==> calls[2]@ == (CallView::UdpSetBroadcast { socket: s@, enabled: 1 }),
        !on ==> calls[2]@ == (CallView::UdpSetBroadcast { socket: s@, enabled: 0 }),
        calls[3]@ == calls[2]@,
        calls[4]@ == (CallView::UdpJoinMulticast {
            socket: s@,
            group: group@,
            interface: interface@,
        }) && calls[5]@ == calls[4]@,
        calls[6]@ == (CallView::UdpJoinMulticast {
            socket: s@,
            group: group@,
            interface: Seq::empty(),
        }),
        calls[7]@ == (CallView::UdpSend { socket: s@, addr: addr@, port, data: data@ })
            && calls[8]@ == calls[7]@,
        calls[9]@ == (CallView::UdpPending { socket: s@ }) && calls[10]@ == calls[9]@,
        calls[11]@ == (CallView::UdpRecv { socket: s@, max_len }) && calls[12]@ == calls[11]@,
        calls[13]@ == (CallView::UdpCreate { socket_type: 0 }) && calls[14]@ == calls[13]@,
{
    reveal_strlit("");
    assert(""@ =~= Seq::<char>::empty());
}

/// A socket that is to be bound to an address is bound to the port of that
/// address; where the host made none, its error code is told. One that could not
/// be bound is closed.
pub proof fn law_bound_sockets(
    addr: &str,
    created: i32,
    started: Result<(UdpSocket, Call), i32>,
    reply: i32,
    finished: (Result<UdpSocket, i32>, Option<Call>),
)
    requires
        call_ensures(UdpSocket::bind, (addr, created), started),
        started matches Ok((socket, _)) ==> call_ensures(
            UdpSocket::bind_finish,
            (socket, reply),
            finished,
        ),
    ensures
        created < 0 ==> (started matches Err(code) && code == created),
        created >= 0 ==> {
            &&& started matches Ok((socket, call)) && socket@ == created && call@
                == (CallView::UdpBind { socket: created, port: address_port(addr@) })
            &&& reply >= 0 ==> (finished.0 matches Ok(s) && s@ == created && finished.1 is None)
            &&& reply < 0 ==> {
                &&& finished.0 matches Err(code) && code == reply
                &&& finished.1 matches Some(close) && close@ == (CallView::UdpClose {
                    socket: created,
                })
            }
        },
{
}

/// An open socket is closed by one call, and a closed one by none; afterwards it
/// is closed.
pub proof fn law_closing(
    udp: &mut UdpSocket,
    tcp: &mut TcpSocket,
    udp_call: Option<Call>,
    tcp_call: Option<Call>,
)
    requires
        call_ensures(UdpSocket::close, (udp,), udp_call),
        call_ensures(TcpSocket::close, (tcp,), tcp_call),
    ensures
        old(udp)@ >= 0 ==> (udp_call matches Some(c) && c@ == (CallView::UdpClose {
            socket: old(udp)@,
        })),
        old(udp)@ < 0 ==> udp_call is None && final(udp)@ == old(udp)@,
        final(udp)@ < 0,
        old(tcp)@ >= 0 ==> (tcp_call matches Some(c) && c@ == (CallView::TcpClose {
            socket: old(tcp)@,
        })),
        old(tcp)@ < 0 ==> tcp_call is None && final(tcp)@ == old(tcp)@,
        final(tcp)@ < 0,
{
}

/// A handle is closed by the call that closes its socket.
pub proof fn law_closing_handles(
    io: &WasmIoProvider,
    udp: UdpSocketHandle,
    tcp: TcpSocketHandle,
    udp_call: Call,
    tcp_call: Call,
)
    requires
        call_ensures(WasmIoProvider::udp_close, (io, udp), udp_call),
        call_ensures(WasmIoProvider::tcp_close, (io, tcp), tcp_call),
    ensures
        udp_call@ == (CallView::UdpClose { socket: udp.0 }),
        tcp_call@ == (CallView::TcpClose { socket: tcp.0 }),
{
}

/// What is asked of a TCP socket is asked of that socket and says what was said,
/// and it is the same call through the socket and through its handle. A line is
/// received into 1024 bytes.
pub proof fn law_tcp_calls(
    s: &TcpSocket,
    io: &WasmIoProvider,
    h: &TcpSocketHandle,
    addr: &str,
    port: u16,
    on: bool,
    max_len: usize,
    calls: Seq<Call>,
)
    requires
        h.0 == s@,
        calls.len() == 15,
        call_ensures(TcpSocket::connect, (s, addr, port), calls[0]),
        call_ensures(WasmIoProvider::tcp_connect, (io, h, addr, port), calls[1]),
        call_ensures(TcpSocket::connection_state, (s,), calls[2]),
        call_ensures(WasmIoProvider::tcp_connection_state, (io, h), calls[3]),
        call_ensures(TcpSocket::set_line_buffering, (s, on), calls[4]),
        call_ensures(WasmIoProvider::tcp_set_line_buffering, (io, h, on), calls[5]),
        call_ensures(TcpSocket::recv_line, (s, max_len), calls[6]),
        call_ensures(WasmIoProvider::tcp_recv_line, (io, h, max_len), calls[7]),
        call_ensures(TcpSocket::recv_raw, (s, max_len), calls[8]),
        call_ensures(WasmIoProvider::tcp_recv_raw, (io, h, max_len), calls[9]),
        call_ensures(TcpSocket::pending, (s,), calls[10]),
        call_ensures(WasmIoProvider::tcp_pending, (io, h), calls[11]),
        call_ensures(TcpSocket::create, (), calls[12]),
        call_ensures(WasmIoProvider::tcp_create, (io,), calls[13]),
        call_ensures(TcpSocket::recv_line_call, (s,), calls[14]),
    ensures
        calls[0]@ == (CallView::TcpConnect { socket: s@, addr: addr@, port }) && calls[1]@
            == calls[0]@,
        calls[2]@ == (CallView::TcpConnected { socket: s@ }) && calls[3]@ == calls[2]@,
        on ==> calls[4]@ == (CallView::TcpSetLineBuffering { socket: s@, line_buffering: 1 }),
        !on ==> calls[4]@ == (CallView::TcpSetLineBuffering { socket: s@, line_buffering: 0 }),
        calls[5]@ == calls[4]@,
        calls[6]@ == (CallView::TcpRecvLine { socket: s@, max_len }) && calls[7]@ == calls[6]@,
        calls[8]@ == (CallView::TcpRecvRaw { socket: s@, max_len }) && calls[9]@ == calls[8]@,
        calls[10]@ == (CallView::TcpPending { socket: s@ }) && calls[11]@ == calls[10]@,
        calls[12]@ == CallView::TcpCreate && calls[13]@ == calls[12]@,
        calls[14]@ == (CallView::TcpRecvLine { socket: s@, max_len: 1024 }),
{
}

/// Bytes are sent over a connection as they are, and a line with a carriage
/// return and a line feed behind it; over no connection nothing is sent.
pub proof fn law_sending(
    s: &TcpSocket,
    io: &WasmIoProvider,
    h: &TcpSocketHandle,
    connected: i32,
    data: &[u8],
    line: &str,
    sent: Result<Call, i32>,
    sent_line: Result<Call, i32>,
    io_sent: Result<Call, IoError>,
)
    requires
        h.0 == s@,
        call_ensures(TcpSocket::send, (s, connected, data), sent),
        call_ensures(TcpSocket::send_line, (s, connected, line), sent_line),
        call_ensures(WasmIoProvider::tcp_send, (io, h, connected, data), io_sent),
    ensures
        connected == 1 ==> {
            &&& sent matches Ok(c) && c@ == (CallView::TcpSend { socket: s@, data: data@ })
            &&& io_sent matches Ok(c) && c@ == (CallView::TcpSend { socket: s@, data: data@ })
            &&& sent_line matches Ok(c) && c@ == (CallView::TcpSend {
                socket: s@,
                data: encode_utf8(line@ + seq!['\r', '\n']),
            })
        },
        connected != 1 ==> {
            &&& sent matches Err(code) && code == -1
            &&& sent_line matches Err(code) && code == -1
            &&& io_sent matches Err(e) && e == IoError::NotConnected
        },
{
    reveal_strlit("\r\n");
    assert("\r\n"@ =~= seq!['\r', '\n']);
}

/// The clock tells the time that it was last set to, and begins at 0.
pub proof fn law_clock(
    io: &mut WasmIoProvider,
    time: u64,
    set: &WasmIoProvider,
    told: u64,
    fresh: WasmIoProvider,
)
    requires
        call_ensures(WasmIoProvider::set_time, (io, time), ()),
        *set == *final(io),
        call_ensures(WasmIoProvider::current_time_ms, (set,), told),
        call_ensures(WasmIoProvider::new, (), fresh),
    ensures
        told == time,
        fresh@ == 0,
{
}

// ---------------------------------------------------------------------------
// Messages
// ---------------------------------------------------------------------------

/// Messages are handed to the host as they are: what is logged as a debug
/// message, a status as the status, an error and a warning as the error, a delta
/// as a delta, a notification under its path, a configuration to be stored, a
/// provider under its name, and spokes to the clients of their radar.
pub proof fn law_messages(
    msg: &str,
    other: &str,
    data: &[u8],
    io: &WasmIoProvider,
    calls: Seq<Call>,
)
    requires
        calls.len() == 13,
        call_ensures(debug, (msg,), calls[0]),
        call_ensures(sk_info, (msg,), calls[1]),
        call_ensures(sk_debug_log, (msg,), calls[2]),
        call_ensures(WasmIoProvider::debug, (io, msg), calls[3]),
        call_ensures(WasmIoProvider::info, (io, msg), calls[4]),
        call_ensures(set_status, (msg,), calls[5]),
        call_ensures(set_error, (msg,), calls[6]),
        call_ensures(sk_warn, (msg,), calls[7]),
        call_ensures(handle_message, (msg,), calls[8]),
        call_ensures(publish_notification, (msg, other), calls[9]),
        call_ensures(save_config, (msg,), calls[10]),
        call_ensures(register_radar_provider, (msg,), calls[11]),
        call_ensures(emit_radar_spokes, (msg, data), calls[12]),
    ensures
        forall|i: int|
            0 <= i < 5 ==> (#[trigger] calls[i])@ == (CallView::Debug { msg: msg@ }),
        calls[5]@ == (CallView::SetStatus { msg: msg@ }),
        calls[6]@ == (CallView::SetError { msg: msg@ }) && calls[7]@ == calls[6]@,
        calls[8]@ == (CallView::HandleMessage { msg: msg@ }),
        calls[9]@ == (CallView::PublishNotification { path: msg@, value: other@ }),
        calls[10]@ == (CallView::SaveConfig { config: msg@ }),
        calls[11]@ == (CallView::RegisterRadarProvider { name: msg@ }),
        calls[12]@ == (CallView::RadarEmitSpokes { radar_id: msg@, data: data@ }),
{
}

/// A value is emitted under a path as a delta, and one that was serialised with
/// its stray control characters cleaned away; one that could not be serialised is
/// reported with its path and why.
pub proof fn law_emitted_values(
    path: &str,
    value: &str,
    json: Result<&str, &str>,
    delta: Call,
    emitted: Call,
)
    requires
        call_ensures(emit_delta, (path, value), delta),
        call_ensures(emit_json, (path, json), emitted),
    ensures
        delta@ == (CallView::HandleMessage { msg: delta_text(path@, value@) }),
        json matches Ok(text) ==> emitted@ == (CallView::HandleMessage {
            msg: delta_text(path@, cleaned_json(text@)),
        }),
        json matches Err(why) ==> emitted@ == (CallView::SetError {
            msg: "Failed to serialize JSON for path "@ + path@ + ": "@ + why@,
        }),
{
}

// ---------------------------------------------------------------------------
// The engine's answers
// ---------------------------------------------------------------------------

/// The engine's answers are told as they are: the id of a target that it
/// followed, and whether it took a second range, which is named where it did not.
pub proof fn law_engine_answers(
    id: Option<u32>,
    acquired: Result<u32, String>,
    accepted: bool,
    range: u32,
    taken: Result<(), String>,
    supported: bool,
    checked: Result<(), String>,
    bearing: &Double,
    distance: &Double,
    error: Option<String>,
)
    requires
        call_ensures(acquire_reply, (id,), acquired),
        call_ensures(dual_range_reply, (accepted, range), taken),
        call_ensures(check_dual_range, (supported,), checked),
        call_ensures(check_position, (bearing, distance), error),
    ensures
        id is Some ==> (acquired matches Ok(told) && Some(told) == id),
        id is None ==> (acquired matches Err(why) && why@
            == "max targets reached or radar not found"@),
        accepted <==> taken is Ok,
        taken matches Err(why) ==> why@ == "Secondary range "@ + decimal_text(range as nat)
            + " exceeds maximum"@,
        supported <==> checked is Ok,
        checked matches Err(why) ==> why@ == "Radar does not support dual-range"@,
        error is Some <==> position_error(*bearing, *distance) is Some,
        error matches Some(why) ==> position_error(*bearing, *distance) == Some(why@),
{
}

} // verus!
