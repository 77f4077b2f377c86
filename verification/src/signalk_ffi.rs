//! The host interface of a SignalK plugin.
//!
//! A plugin reaches sockets, logging and delta emission through functions of
//! its host. What a function of this module hands to the host is a
//! [`HostCall`], a value that whoever links the host performs; the host's
//! answer comes back as a plain integer, and the functions that take a `reply`
//! say what it means.
//!
//! Log lines that come only now and then are decided in the library and handed
//! out as [`debug`] calls. Whoever performs a call may log more.

use crate::double::Double;
use crate::json::{
    holds, value_contents, value_copy, value_from_fields, value_from_items, value_from_text,
    value_from_u32, value_to_string, value_zero, written_json, JsonNumber, JsonView,
};
use crate::string_map::{less_from, text_less};
use crate::text::{
    after_last, chars_of, decimal, decimal_text, is_decimal_digit, law_after_last,
    law_decimal_is_unique, law_port_round_trip, law_replaced, lemma_decimal_round_trip,
    lemma_first_at, lemma_first_nowhere, parse_port, port_value, replace_char, replaced, str_eq,
    string_from_utf8, string_from_utf8_lossy, text_after_last, utf8_lossy,
};
use vstd::prelude::*;
use vstd::slice::slice_subrange;
use vstd::string::*;
use vstd::utf8::*;

verus! {

/// How many bytes of configuration the host is asked for.
pub const CONFIG_BUFFER_LEN: usize = 32768;

/// How many bytes a received line may have.
pub const LINE_BUFFER_LEN: usize = 1024;

/// One call of a host function, with its arguments. `S` is text and `B` is
/// binary data.
#[derive(Debug)]
pub enum HostCall<S, B> {
    /// Writes a debug message.
    Debug { msg: S },
    /// Sets the plugin's status line.
    SetStatus { msg: S },
    /// Sets the plugin's error line.
    SetError { msg: S },
    /// Takes in a SignalK delta.
    HandleMessage { msg: S },
    /// Publishes a notification under a path.
    PublishNotification { path: S, value: S },
    /// Registers a radar provider.
    RegisterRadarProvider { name: S },
    /// Streams spoke data to the clients of a radar.
    RadarEmitSpokes { radar_id: S, data: B },
    /// Makes a UDP socket.
    UdpCreate { socket_type: i32 },
    /// Binds a UDP socket to a port.
    UdpBind { socket: i32, port: u16 },
    /// Joins a multicast group on an interface.
    UdpJoinMulticast { socket: i32, group: S, interface: S },
    /// Receives a datagram of at most `max_len` bytes.
    UdpRecv { socket: i32, max_len: usize },
    /// Sends a datagram.
    UdpSend { socket: i32, addr: S, port: u16, data: B },
    /// Closes a UDP socket.
    UdpClose { socket: i32 },
    /// Asks how many datagrams wait.
    UdpPending { socket: i32 },
    /// Switches broadcasting on (1) or off (0).
    UdpSetBroadcast { socket: i32, enabled: i32 },
    /// Reads the plugin's configuration, at most `max_len` bytes.
    ReadConfig { max_len: usize },
    /// Stores the plugin's configuration.
    SaveConfig { config: S },
    /// Makes a TCP socket.
    TcpCreate,
    /// Starts to connect.
    TcpConnect { socket: i32, addr: S, port: u16 },
    /// Asks for the state of a connection.
    TcpConnected { socket: i32 },
    /// Switches line buffering on (1) or off (0).
    TcpSetLineBuffering { socket: i32, line_buffering: i32 },
    /// Sends bytes.
    TcpSend { socket: i32, data: B },
    /// Receives one line of at most `max_len` bytes.
    TcpRecvLine { socket: i32, max_len: usize },
    /// Receives at most `max_len` bytes.
    TcpRecvRaw { socket: i32, max_len: usize },
    /// Asks how many items wait.
    TcpPending { socket: i32 },
    /// Closes a TCP socket.
    TcpClose { socket: i32 },
}

/// A host call with owned arguments.
pub type Call = HostCall<String, Vec<u8>>;

/// The model of a host call.
pub type CallView = HostCall<Seq<char>, Seq<u8>>;

impl View for HostCall<String, Vec<u8>> {
    type V = CallView;

    open spec fn view(&self) -> CallView {
        match *self {
            HostCall::Debug { msg } => HostCall::Debug { msg: msg@ },
            HostCall::SetStatus { msg } => HostCall::SetStatus { msg: msg@ },
            HostCall::SetError { msg } => HostCall::SetError { msg: msg@ },
            HostCall::HandleMessage { msg } => HostCall::HandleMessage { msg: msg@ },
            HostCall::PublishNotification { path, value } => HostCall::PublishNotification {
                path: path@,
                value: value@,
            },
            HostCall::RegisterRadarProvider { name } => HostCall::RegisterRadarProvider {
                name: name@,
            },
            HostCall::RadarEmitSpokes { radar_id, data } => HostCall::RadarEmitSpokes {
                radar_id: radar_id@,
                data: data@,
            },
            HostCall::UdpCreate { socket_type } => HostCall::UdpCreate { socket_type },
            HostCall::UdpBind { socket, port } => HostCall::UdpBind { socket, port },
            HostCall::UdpJoinMulticast { socket, group, interface } => HostCall::UdpJoinMulticast {
                socket,
                group: group@,
                interface: interface@,
            },
            HostCall::UdpRecv { socket, max_len } => HostCall::UdpRecv { socket, max_len },
            HostCall::UdpSend { socket, addr, port, data } => HostCall::UdpSend {
                socket,
                addr: addr@,
                port,
                data: data@,
            },
            HostCall::UdpClose { socket } => HostCall::UdpClose { socket },
            HostCall::UdpPending { socket } => HostCall::UdpPending { socket },
            HostCall::UdpSetBroadcast { socket, enabled } => HostCall::UdpSetBroadcast {
                socket,
                enabled,
            },
            HostCall::ReadConfig { max_len } => HostCall::ReadConfig { max_len },
            HostCall::SaveConfig { config } => HostCall::SaveConfig { config: config@ },
            HostCall::TcpCreate => HostCall::TcpCreate,
            HostCall::TcpConnect { socket, addr, port } => HostCall::TcpConnect {
                socket,
                addr: addr@,
                port,
            },
            HostCall::TcpConnected { socket } => HostCall::TcpConnected { socket },
            HostCall::TcpSetLineBuffering { socket, line_buffering } =>
                HostCall::TcpSetLineBuffering { socket, line_buffering },
            HostCall::TcpSend { socket, data } => HostCall::TcpSend { socket, data: data@ },
            HostCall::TcpRecvLine { socket, max_len } => HostCall::TcpRecvLine { socket, max_len },
            HostCall::TcpRecvRaw { socket, max_len } => HostCall::TcpRecvRaw { socket, max_len },
            HostCall::TcpPending { socket } => HostCall::TcpPending { socket },
            HostCall::TcpClose { socket } => HostCall::TcpClose { socket },
        }
    }
}

/// The models of a run of calls.
pub open spec fn calls_view(calls: Seq<Call>) -> Seq<CallView> {
    calls.map_values(|c: Call| c@)
}

// ---------------------------------------------------------------------------
// Replies
// ---------------------------------------------------------------------------

/// A reply that only reports a status: negative numbers are error codes.
pub fn status_reply(reply: i32) -> (result: Result<(), i32>)
    ensures
        result == if reply < 0 {
            Err::<(), i32>(reply)
        } else {
            Ok(())
        },
{
    if reply < 0 {
        Err(reply)
    } else {
        Ok(())
    }
}

/// A reply that counts what was sent: negative numbers are error codes.
pub fn count_reply(reply: i32) -> (result: Result<usize, i32>)
    ensures
        result == if reply < 0 {
            Err::<usize, i32>(reply)
        } else {
            Ok(reply as usize)
        },
{
    if reply < 0 {
        Err(reply)
    } else {
        Ok(reply as usize)
    }
}

/// A reply that counts what was received: nothing for zero or an error code.
pub fn received_reply(reply: i32) -> (len: Option<usize>)
    ensures
        len == if reply <= 0 {
            None::<usize>
        } else {
            Some(reply as usize)
        },
{
    if reply <= 0 {
        None
    } else {
        Some(reply as usize)
    }
}

/// The bytes before the first zero byte, all of them where there is none.
pub open spec fn before_zero(bytes: Seq<u8>) -> Seq<u8> {
    match bytes.index_of_first(0u8) {
        Some(i) => bytes.take(i),
        None => bytes,
    }
}

/// The position of the first zero byte, or the length where there is none.
fn zero_position(bytes: &[u8]) -> (len: usize)
    ensures
        len <= bytes@.len(),
        bytes@.take(len as int) == before_zero(bytes@),
{
    let n: usize = bytes.len();
    let mut i: usize = 0;
    while i < n
        invariant
            i <= n,
            n == bytes@.len(),
            forall|k: int| 0 <= k < i ==> bytes@[k] != 0,
        decreases n - i,
    {
        if bytes[i] == 0 {
            proof {
                lemma_first_at(bytes@, 0u8, i as int);
            }
            return i;
        }
        i += 1;
    }
    proof {
        lemma_first_nowhere(bytes@, 0u8);
        assert(bytes@.take(n as int) =~= bytes@);
    }
    n
}

/// What the host reports of a received datagram: its length, the address of
/// its sender, which ends at the first zero byte of `addr_buf`, and its port.
/// Nothing was received where the reply is zero or an error code.
pub fn datagram_reply(reply: i32, addr_buf: &[u8], port: u16) -> (datagram: Option<
    (usize, String, u16),
>)
    ensures
        match datagram {
            Some((len, addr, from)) => {
                &&& reply > 0
                &&& len == reply
                &&& addr@ == utf8_lossy(before_zero(addr_buf@))
                &&& valid_utf8(before_zero(addr_buf@)) ==> addr@ == decode_utf8(
                    before_zero(addr_buf@),
                )
                &&& from == port
            },
            None => reply <= 0,
        },
{
    if reply <= 0 {
        return None;
    }
    let len: usize = zero_position(addr_buf);
    assert(addr_buf@.subrange(0, len as int) =~= addr_buf@.take(len as int));
    let addr = string_from_utf8_lossy(slice_subrange(addr_buf, 0, len));
    Some((reply as usize, addr, port))
}

// ---------------------------------------------------------------------------
// Logging and status
// ---------------------------------------------------------------------------

/// Logs a debug message.
pub fn debug(msg: &str) -> (call: Call)
    ensures
        call@ == (CallView::Debug { msg: msg@ }),
{
    HostCall::Debug { msg: msg.to_owned() }
}

/// Sets the plugin's status message.
pub fn set_status(msg: &str) -> (call: Call)
    ensures
        call@ == (CallView::SetStatus { msg: msg@ }),
{
    HostCall::SetStatus { msg: msg.to_owned() }
}

/// Sets the plugin's error message.
pub fn set_error(msg: &str) -> (call: Call)
    ensures
        call@ == (CallView::SetError { msg: msg@ }),
{
    HostCall::SetError { msg: msg.to_owned() }
}

/// Logs an informational message, as a debug message.
pub fn sk_info(msg: &str) -> (call: Call)
    ensures
        call@ == (CallView::Debug { msg: msg@ }),
{
    debug(msg)
}

/// Logs a debug message.
pub fn sk_debug_log(msg: &str) -> (call: Call)
    ensures
        call@ == (CallView::Debug { msg: msg@ }),
{
    debug(msg)
}

/// Reports a warning, as the plugin's error message.
pub fn sk_warn(msg: &str) -> (call: Call)
    ensures
        call@ == (CallView::SetError { msg: msg@ }),
{
    set_error(msg)
}

// ---------------------------------------------------------------------------
// UDP sockets
// ---------------------------------------------------------------------------

/// A UDP socket of the host. A closed socket has the id -1.
#[derive(Debug)]
pub struct UdpSocket {
    id: i32,
}

impl View for UdpSocket {
    type V = i32;

    closed spec fn view(&self) -> i32 {
        self.id
    }
}

impl UdpSocket {
    /// Asks the host for an IPv4 socket.
    pub fn create() -> (call: Call)
        ensures
            call@ == (CallView::UdpCreate { socket_type: 0 }),
    {
        HostCall::UdpCreate { socket_type: 0 }
    }

    /// The socket that the host made, from its reply to [`UdpSocket::create`].
    pub fn new(reply: i32) -> (socket: Result<UdpSocket, i32>)
        ensures
            match socket {
                Ok(s) => reply >= 0 && s@ == reply,
                Err(code) => reply < 0 && code == reply,
            },
    {
        if reply < 0 {
            Err(reply)
        } else {
            Ok(UdpSocket { id: reply })
        }
    }

    /// Takes the reply to [`UdpSocket::create`] and binds the new socket to
    /// the port of an `ip:port` address. A port that cannot be read is 0, any
    /// port that is free. [`UdpSocket::bind_finish`] takes the reply.
    pub fn bind(addr: &str, created: i32) -> (started: Result<(UdpSocket, Call), i32>)
        ensures
            match started {
                Ok((socket, call)) => {
                    &&& created >= 0
                    &&& socket@ == created
                    &&& call@ == (CallView::UdpBind {
                        socket: created,
                        port: address_port(addr@),
                    })
                },
                Err(code) => created < 0 && code == created,
            },
    {
        match UdpSocket::new(created) {
            Err(code) => Err(code),
            Ok(socket) => {
                let tail = text_after_last(addr, ':');
                let port: u16 = match parse_port(tail.as_str()) {
                    Some(p) => p,
                    None => 0,
                };
                let call = socket.bind_port(port);
                Ok((socket, call))
            },
        }
    }

    /// Takes the reply to the call of [`UdpSocket::bind`]. A socket that could
    /// not be bound is given up, with the call that closes it.
    pub fn bind_finish(self, reply: i32) -> (finished: (Result<UdpSocket, i32>, Option<Call>))
        ensures
            reply >= 0 ==> (finished.0 matches Ok(s) && s@ == self@ && finished.1 is None),
            reply < 0 ==> {
                &&& finished.0 == Err::<UdpSocket, i32>(reply)
                &&& finished.1 is Some <==> self@ >= 0
                &&& finished.1 matches Some(call) ==> call@ == (CallView::UdpClose { socket: self@ })
            },
    {
        match status_reply(reply) {
            Ok(_) => (Ok(self), None),
            Err(code) => {
                let mut socket = self;
                let close = socket.close();
                (Err(code), close)
            },
        }
    }

    /// Binds the socket to a port; 0 is any port that is free.
    pub fn bind_port(&self, port: u16) -> (call: Call)
        ensures
            call@ == (CallView::UdpBind { socket: self@, port }),
    {
        HostCall::UdpBind { socket: self.id, port }
    }

    /// Switches broadcasting on or off.
    pub fn set_broadcast(&self, enabled: bool) -> (call: Call)
        ensures
            call@ == (CallView::UdpSetBroadcast {
                socket: self@,
                enabled: if enabled {
                    1
                } else {
                    0
                },
            }),
    {
        HostCall::UdpSetBroadcast {
            socket: self.id,
            enabled: if enabled {
                1
            } else {
                0
            },
        }
    }

    /// Joins a multicast group on the default interface.
    pub fn join_multicast(&self, group: &str) -> (call: Call)
        ensures
            call@ == (CallView::UdpJoinMulticast {
                socket: self@,
                group: group@,
                interface: ""@,
            }),
    {
        self.join_multicast_on_interface(group, "")
    }

    /// Joins a multicast group on an interface.
    pub fn join_multicast_on_interface(&self, group: &str, interface: &str) -> (call: Call)
        ensures
            call@ == (CallView::UdpJoinMulticast {
                socket: self@,
                group: group@,
                interface: interface@,
            }),
    {
        HostCall::UdpJoinMulticast {
            socket: self.id,
            group: group.to_owned(),
            interface: interface.to_owned(),
        }
    }

    /// Sends data to an address. [`count_reply`] reads the reply.
    pub fn send_to(&self, data: &[u8], addr: &str, port: u16) -> (call: Call)
        ensures
            call@ == (CallView::UdpSend {
                socket: self@,
                addr: addr@,
                port,
                data: data@,
            }),
    {
        HostCall::UdpSend {
            socket: self.id,
            addr: addr.to_owned(),
            port,
            data: vstd::slice::slice_to_vec(data),
        }
    }

    /// Asks how many datagrams wait.
    pub fn pending(&self) -> (call: Call)
        ensures
            call@ == (CallView::UdpPending { socket: self@ }),
    {
        HostCall::UdpPending { socket: self.id }
    }

    /// Receives a datagram of at most `max_len` bytes. [`datagram_reply`]
    /// reads the reply.
    pub fn recv_from(&self, max_len: usize) -> (call: Call)
        ensures
            call@ == (CallView::UdpRecv { socket: self@, max_len }),
    {
        HostCall::UdpRecv { socket: self.id, max_len }
    }

    /// Closes the socket. There is nothing to call for a closed one.
    pub fn close(&mut self) -> (call: Option<Call>)
        ensures
            call is Some <==> old(self)@ >= 0,
            call matches Some(c) ==> c@ == (CallView::UdpClose {
                socket: old(self)@,
            }),
            old(self)@ >= 0 ==> final(self)@ == -1,
            old(self)@ < 0 ==> final(self)@ == old(self)@,
    {
        if self.id >= 0 {
            let call = HostCall::UdpClose { socket: self.id };
            self.id = -1;
            Some(call)
        } else {
            None
        }
    }
}

/// The port of an `ip:port` address, 0 where none can be read.
pub open spec fn address_port(addr: Seq<char>) -> u16 {
    match port_value(after_last(addr, ':')) {
        Some(port) => port,
        None => 0,
    }
}

// ---------------------------------------------------------------------------
// TCP sockets
// ---------------------------------------------------------------------------

/// A TCP socket of the host. A closed socket has the id -1.
///
/// A socket is line-buffered unless told otherwise: it receives complete lines
/// that end in `\r\n` or `\n`. In raw mode it receives bytes as they come.
#[derive(Debug)]
pub struct TcpSocket {
    id: i32,
}

impl View for TcpSocket {
    type V = i32;

    closed spec fn view(&self) -> i32 {
        self.id
    }
}

impl TcpSocket {
    /// Asks the host for a socket.
    pub fn create() -> (call: Call)
        ensures
            call@ == CallView::TcpCreate,
    {
        HostCall::TcpCreate
    }

    /// The socket that the host made, from its reply to [`TcpSocket::create`].
    pub fn new(reply: i32) -> (socket: Result<TcpSocket, i32>)
        ensures
            match socket {
                Ok(s) => reply >= 0 && s@ == reply,
                Err(code) => reply < 0 && code == reply,
            },
    {
        if reply < 0 {
            Err(reply)
        } else {
            Ok(TcpSocket { id: reply })
        }
    }

    /// Starts to connect to a remote host. [`status_reply`] reads the reply.
    pub fn connect(&self, addr: &str, port: u16) -> (call: Call)
        ensures
            call@ == (CallView::TcpConnect {
                socket: self@,
                addr: addr@,
                port,
            }),
    {
        HostCall::TcpConnect { socket: self.id, addr: addr.to_owned(), port }
    }

    /// Asks for the state of the connection, for [`TcpSocket::is_connected`],
    /// [`TcpSocket::is_valid`] and [`TcpSocket::send`].
    pub fn connection_state(&self) -> (call: Call)
        ensures
            call@ == (CallView::TcpConnected { socket: self@ }),
    {
        HostCall::TcpConnected { socket: self.id }
    }

    /// Whether the socket is connected, by the reply to
    /// [`TcpSocket::connection_state`].
    pub fn is_connected(reply: i32) -> (connected: bool)
        ensures
            connected == (reply == 1),
    {
        reply == 1
    }

    /// Whether the socket exists (neither closed nor failed), by the reply to
    /// [`TcpSocket::connection_state`].
    pub fn is_valid(reply: i32) -> (valid: bool)
        ensures
            valid == (reply >= 0),
    {
        reply >= 0
    }

    /// Switches line buffering on or off.
    pub fn set_line_buffering(&self, enabled: bool) -> (call: Call)
        ensures
            call@ == (CallView::TcpSetLineBuffering {
                socket: self@,
                line_buffering: if enabled {
                    1
                } else {
                    0
                },
            }),
    {
        HostCall::TcpSetLineBuffering {
            socket: self.id,
            line_buffering: if enabled {
                1
            } else {
                0
            },
        }
    }

    /// Sends data. `connected` is the reply to
    /// [`TcpSocket::connection_state`]: over no connection nothing is sent and
    /// the error is -1. [`count_reply`] reads the reply.
    pub fn send(&self, connected: i32, data: &[u8]) -> (call: Result<Call, i32>)
        ensures
            match call {
                Ok(c) => connected == 1 && c@ == (CallView::TcpSend {
                    socket: self@,
                    data: data@,
                }),
                Err(code) => connected != 1 && code == -1,
            },
    {
        if !TcpSocket::is_connected(connected) {
            return Err(-1);
        }
        Ok(HostCall::TcpSend { socket: self.id, data: vstd::slice::slice_to_vec(data) })
    }

    /// Sends a line with the terminator `\r\n`, as [`TcpSocket::send`] does.
    pub fn send_line(&self, connected: i32, line: &str) -> (call: Result<Call, i32>)
        ensures
            match call {
                Ok(c) => connected == 1 && c@ == (CallView::TcpSend {
                    socket: self@,
                    data: encode_utf8(line@ + "\r\n"@),
                }),
                Err(code) => connected != 1 && code == -1,
            },
    {
        let data = line.to_owned().concat("\r\n");
        self.send(connected, data.as_str().as_bytes())
    }

    /// Receives one line of at most `max_len` bytes. [`received_reply`] reads
    /// the reply.
    pub fn recv_line(&self, max_len: usize) -> (call: Call)
        ensures
            call@ == (CallView::TcpRecvLine { socket: self@, max_len }),
    {
        HostCall::TcpRecvLine { socket: self.id, max_len }
    }

    /// Receives one line into a buffer of [`LINE_BUFFER_LEN`] bytes, for
    /// [`TcpSocket::recv_line_string`].
    pub fn recv_line_call(&self) -> (call: Call)
        ensures
            call@ == (CallView::TcpRecvLine {
                socket: self@,
                max_len: LINE_BUFFER_LEN,
            }),
    {
        self.recv_line(LINE_BUFFER_LEN)
    }

    /// The line that was received into `buf`, as text. Nothing was received
    /// where the reply is zero or an error code.
    pub fn recv_line_string(reply: i32, buf: &[u8]) -> (line: Option<String>)
        requires
            reply <= buf@.len(),
        ensures
            match line {
                Some(text) => {
                    &&& reply > 0
                    &&& text@ == utf8_lossy(buf@.take(reply as int))
                    &&& valid_utf8(buf@.take(reply as int)) ==> text@ == decode_utf8(
                        buf@.take(reply as int),
                    )
                },
                None => reply <= 0,
            },
    {
        match received_reply(reply) {
            None => None,
            Some(len) => {
                assert(buf@.subrange(0, len as int) =~= buf@.take(reply as int));
                Some(string_from_utf8_lossy(slice_subrange(buf, 0, len)))
            },
        }
    }

    /// Receives at most `max_len` bytes in raw mode. [`received_reply`] reads
    /// the reply.
    pub fn recv_raw(&self, max_len: usize) -> (call: Call)
        ensures
            call@ == (CallView::TcpRecvRaw { socket: self@, max_len }),
    {
        HostCall::TcpRecvRaw { socket: self.id, max_len }
    }

    /// Asks how many items wait.
    pub fn pending(&self) -> (call: Call)
        ensures
            call@ == (CallView::TcpPending { socket: self@ }),
    {
        HostCall::TcpPending { socket: self.id }
    }

    /// Closes the socket. There is nothing to call for a closed one.
    pub fn close(&mut self) -> (call: Option<Call>)
        ensures
            call is Some <==> old(self)@ >= 0,
            call matches Some(c) ==> c@ == (CallView::TcpClose {
                socket: old(self)@,
            }),
            old(self)@ >= 0 ==> final(self)@ == -1,
            old(self)@ < 0 ==> final(self)@ == old(self)@,
    {
        if self.id >= 0 {
            let call = HostCall::TcpClose { socket: self.id };
            self.id = -1;
            Some(call)
        } else {
            None
        }
    }
}

// ---------------------------------------------------------------------------
// Deltas
// ---------------------------------------------------------------------------

/// Hands a complete SignalK delta to the host.
pub fn handle_message(msg: &str) -> (call: Call)
    ensures
        call@ == (CallView::HandleMessage { msg: msg@ }),
{
    HostCall::HandleMessage { msg: msg.to_owned() }
}

/// Registers a radar provider.
pub fn register_radar_provider(name: &str) -> (call: Call)
    ensures
        call@ == (CallView::RegisterRadarProvider { name: name@ }),
{
    HostCall::RegisterRadarProvider { name: name.to_owned() }
}

/// Whether the provider was registered, by the host's reply.
pub fn register_radar_provider_reply(reply: i32) -> (registered: bool)
    ensures
        registered == (reply != 0),
{
    reply != 0
}

/// Streams spoke data, a binary radar message, to the clients of a radar.
pub fn emit_radar_spokes(radar_id: &str, spoke_data: &[u8]) -> (call: Call)
    ensures
        call@ == (CallView::RadarEmitSpokes {
            radar_id: radar_id@,
            data: spoke_data@,
        }),
{
    HostCall::RadarEmitSpokes {
        radar_id: radar_id.to_owned(),
        data: vstd::slice::slice_to_vec(spoke_data),
    }
}

/// Whether at least one client received the spokes, by the host's reply.
pub fn emit_radar_spokes_reply(reply: i32) -> (delivered: bool)
    ensures
        delivered == (reply == 1),
{
    reply == 1
}

/// The delta message that sets `path` to the JSON text `value`.
pub open spec fn delta_text(path: Seq<char>, value: Seq<char>) -> Seq<char> {
    "{\"updates\":[{\"values\":[{\"path\":\""@ + path + "\",\"value\":"@ + value + "}]}]}"@
}

/// Emits a delta that sets `path` to the JSON text `value`.
pub fn emit_delta(path: &str, value: &str) -> (call: Call)
    ensures
        call@ == (CallView::HandleMessage { msg: delta_text(path@, value@) }),
{
    let mut delta = "{\"updates\":[{\"values\":[{\"path\":\"".to_owned();
    delta.append(path);
    delta.append("\",\"value\":");
    delta.append(value);
    delta.append("}]}]}");
    handle_message(delta.as_str())
}

/// The control characters of Unicode.
pub open spec fn control_char(c: char) -> bool {
    c < ' ' || '\u{7f}' <= c <= '\u{9f}'
}

/// A control character that may not stand in emitted JSON: any but the line
/// feed, the carriage return and the tab.
pub open spec fn stray_control(c: char) -> bool {
    control_char(c) && c != '\n' && c != '\r' && c != '\t'
}

/// `json` with a space in place of every stray control character.
pub open spec fn cleaned_json(json: Seq<char>) -> Seq<char> {
    json.map_values(|c: char| if stray_control(c) { ' ' } else { c })
}

/// Puts a space in place of every control character that could break JSON.
pub fn clean_json(json: &str) -> (clean: String)
    ensures
        clean@ == cleaned_json(json@),
{
    let chars = chars_of(json);
    let mut clean = String::new();
    let n: usize = chars.len();
    let mut i: usize = 0;
    while i < n
        invariant
            i <= n,
            n == chars@.len(),
            chars@ == json@,
            clean@ =~= cleaned_json(json@).take(i as int),
        decreases n - i,
    {
        let c = chars[i];
        let control = c < ' ' || ('\u{7f}' <= c && c <= '\u{9f}');
        clean.push(
            if control && c != '\n' && c != '\r' && c != '\t' {
                ' '
            } else {
                c
            },
        );
        i += 1;
    }
    assert(cleaned_json(json@).take(n as int) =~= cleaned_json(json@));
    clean
}

/// Emits a serialised value under a path. A value that could not be
/// serialised is reported as the plugin's error instead; `Err` holds why.
pub fn emit_json(path: &str, json: Result<&str, &str>) -> (call: Call)
    ensures
        call@ == match json {
            Ok(text) => CallView::HandleMessage {
                msg: delta_text(path@, cleaned_json(text@)),
            },
            Err(why) => CallView::SetError {
                msg: "Failed to serialize JSON for path "@ + path@ + ": "@ + why@,
            },
        },
{
    match json {
        Ok(text) => {
            let clean = clean_json(text);
            emit_delta(path, clean.as_str())
        },
        Err(why) => {
            let mut msg = "Failed to serialize JSON for path ".to_owned();
            msg.append(path);
            msg.append(": ");
            msg.append(why);
            set_error(msg.as_str())
        },
    }
}

// ---------------------------------------------------------------------------
// Configuration
// ---------------------------------------------------------------------------

/// Asks the host for the plugin's configuration, for [`read_config`].
pub fn read_config_call() -> (call: Call)
    ensures
        call@ == (CallView::ReadConfig { max_len: CONFIG_BUFFER_LEN }),
{
    HostCall::ReadConfig { max_len: CONFIG_BUFFER_LEN }
}

/// The part of a buffer that a reply says was filled.
pub open spec fn filled(buf: Seq<u8>, len: int) -> Seq<u8> {
    if len <= buf.len() {
        buf.take(len)
    } else {
        buf
    }
}

/// The configuration that the host put into `buf`, as JSON text. There is none
/// where the reply is zero or an error code, or where the bytes are no UTF-8.
pub fn read_config(reply: i32, buf: Vec<u8>) -> (config: Option<String>)
    ensures
        match config {
            Some(text) => {
                &&& reply > 0
                &&& valid_utf8(filled(buf@, reply as int))
                &&& text@ == decode_utf8(filled(buf@, reply as int))
            },
            None => reply <= 0 || !valid_utf8(filled(buf@, reply as int)),
        },
{
    match received_reply(reply) {
        None => None,
        Some(len) => {
            let mut bytes = buf;
            bytes.truncate(len);
            assert(bytes@ =~= filled(buf@, reply as int));
            string_from_utf8(bytes)
        },
    }
}

/// Stores the plugin's configuration.
pub fn save_config(config_json: &str) -> (call: Call)
    ensures
        call@ == (CallView::SaveConfig { config: config_json@ }),
{
    HostCall::SaveConfig { config: config_json.to_owned() }
}

/// Whether the configuration was stored, by the host's reply.
pub fn save_config_reply(reply: i32) -> (saved: bool)
    ensures
        saved == (reply >= 0),
{
    reply >= 0
}

// ---------------------------------------------------------------------------
// Notifications
// ---------------------------------------------------------------------------

/// Publishes a notification, a JSON text with a state, methods and a message.
pub fn publish_notification(path: &str, value_json: &str) -> (call: Call)
    ensures
        call@ == (CallView::PublishNotification {
            path: path@,
            value: value_json@,
        }),
{
    HostCall::PublishNotification { path: path.to_owned(), value: value_json.to_owned() }
}

/// Whether the notification was published, by the host's reply.
pub fn publish_notification_reply(reply: i32) -> (published: bool)
    ensures
        published == (reply == 0),
{
    reply == 0
}

/// The path of the collision notification for a target. Dots in the radar's
/// id would part the path, so hyphens stand for them.
pub open spec fn collision_path(radar_id: Seq<char>, target_id: u32) -> Seq<char> {
    "notifications.navigation.closestApproach.radar:"@ + replaced(radar_id, '.', '-')
        + ":target:"@ + decimal_text(target_id as nat)
}

/// The message of a collision notification.
pub open spec fn collision_message(
    state: Seq<char>,
    cpa_text: Seq<char>,
    tcpa_text: Seq<char>,
) -> Seq<char> {
    if state == "normal"@ {
        "Target no longer dangerous"@
    } else {
        "Collision warning: CPA "@ + cpa_text + "m in "@ + tcpa_text + "s"@
    }
}

/// A measured distance, in space or time: the number as a JSON value, and the
/// number written out without decimals for a reader.
#[derive(Debug)]
pub struct Measure {
    pub exact: serde_json::Value,
    pub rounded: String,
}

/// The model of a measure.
pub struct MeasureView {
    pub exact: JsonView,
    pub rounded: Seq<char>,
}

impl View for Measure {
    type V = MeasureView;

    open spec fn view(&self) -> MeasureView {
        MeasureView { exact: value_contents(self.exact), rounded: self.rounded@ }
    }
}

/// A measure of nothing.
pub open spec fn zero_measure() -> MeasureView {
    MeasureView { exact: JsonView::Number(JsonNumber::Float(Double { bits: 0 })), rounded: "0"@ }
}

/// A measure of nothing.
pub fn no_measure() -> (zero: Measure)
    ensures
        zero@ == zero_measure(),
{
    Measure { exact: value_zero(), rounded: "0".to_owned() }
}

/// What a collision notification tells.
pub open spec fn collision_value(
    target_id: u32,
    state: Seq<char>,
    cpa: MeasureView,
    tcpa: MeasureView,
) -> JsonView {
    JsonView::Object(
        seq![
            (
                "data"@,
                JsonView::Object(
                    seq![
                        ("cpa"@, cpa.exact),
                        ("targetId"@, JsonView::Number(JsonNumber::PosInt(target_id as u64))),
                        ("tcpa"@, tcpa.exact),
                    ],
                ),
            ),
            ("message"@, JsonView::Text(collision_message(state, cpa.rounded, tcpa.rounded))),
            (
                "method"@,
                JsonView::Array(seq![JsonView::Text("visual"@), JsonView::Text("sound"@)]),
            ),
            ("state"@, JsonView::Text(state)),
        ],
    )
}

/// The call that publishes a collision notification.
pub open spec fn collision_call(
    radar_id: Seq<char>,
    target_id: u32,
    state: Seq<char>,
    cpa: MeasureView,
    tcpa: MeasureView,
) -> CallView {
    CallView::PublishNotification {
        path: collision_path(radar_id, target_id),
        value: written_json(collision_value(target_id, state, cpa, tcpa)),
    }
}

proof fn lemma_collision_keys()
    ensures
        text_less("cpa"@, "targetId"@),
        text_less("cpa"@, "tcpa"@),
        text_less("targetId"@, "tcpa"@),
        text_less("data"@, "message"@),
        text_less("data"@, "method"@),
        text_less("data"@, "state"@),
        text_less("message"@, "method"@),
        text_less("message"@, "state"@),
        text_less("method"@, "state"@),
{
    reveal_strlit("cpa");
    reveal_strlit("targetId");
    reveal_strlit("tcpa");
    reveal_strlit("data");
    reveal_strlit("message");
    reveal_strlit("method");
    reveal_strlit("state");
    assert(less_from("cpa"@, "targetId"@, 0));
    assert(less_from("cpa"@, "tcpa"@, 0));
    assert(less_from("targetId"@, "tcpa"@, 1));
    assert(less_from("data"@, "message"@, 0));
    assert(less_from("data"@, "method"@, 0));
    assert(less_from("data"@, "state"@, 0));
    assert(less_from("message"@, "method"@, 2));
    assert(less_from("message"@, "state"@, 0));
    assert(less_from("method"@, "state"@, 0));
}

/// What a collision notification tells, as a JSON value.
fn collision_json(target_id: u32, state: &str, cpa: &Measure, tcpa: &Measure) -> (value:
    serde_json::Value)
    ensures
        value_contents(value) == collision_value(target_id, state@, cpa@, tcpa@),
{
    let message = if str_eq(state, "normal") {
        "Target no longer dangerous".to_owned()
    } else {
        let mut m = "Collision warning: CPA ".to_owned();
        m.append(cpa.rounded.as_str());
        m.append("m in ");
        m.append(tcpa.rounded.as_str());
        m.append("s");
        m
    };
    proof {
        lemma_collision_keys();
    }
    let ghost wanted = collision_value(target_id, state@, cpa@, tcpa@)->Object_0;
    let measured = vec![
        ("cpa".to_owned(), value_copy(&cpa.exact)),
        ("targetId".to_owned(), value_from_u32(target_id)),
        ("tcpa".to_owned(), value_copy(&tcpa.exact)),
    ];
    let data = value_from_fields(measured);
    assert(value_contents(data)->Object_0 =~= wanted[0].1->Object_0);
    let method = value_from_items(vec![value_from_text("visual"), value_from_text("sound")]);
    assert(value_contents(method)->Array_0 =~= wanted[2].1->Array_0);
    let fields = vec![
        ("data".to_owned(), data),
        ("message".to_owned(), value_from_text(message.as_str())),
        ("method".to_owned(), method),
        ("state".to_owned(), value_from_text(state)),
    ];
    let value = value_from_fields(fields);
    assert(value_contents(value)->Object_0 =~= wanted);
    value
}

/// Publishes a warning of a collision with a target, or, in the state
/// `normal`, takes the warning back. `cpa` is the distance at the closest
/// approach in metres, `tcpa` the time to it in seconds.
/// [`publish_notification_reply`] reads the reply.
pub fn publish_collision_warning(
    radar_id: &str,
    target_id: u32,
    state: &str,
    cpa: &Measure,
    tcpa: &Measure,
) -> (call: Call)
    ensures
        call@ == collision_call(radar_id@, target_id, state@, cpa@, tcpa@),
{
    let mut path = "notifications.navigation.closestApproach.radar:".to_owned();
    path.append(replace_char(radar_id, '.', '-').as_str());
    path.append(":target:");
    path.append(decimal(target_id as u64).as_str());
    let value = collision_json(target_id, state, cpa, tcpa);
    let text = match value_to_string(&value) {
        Some(text) => text,
        None => "".to_owned(),
    };
    publish_notification(path.as_str(), text.as_str())
}

// ---------------------------------------------------------------------------
// Laws
// ---------------------------------------------------------------------------

/// Cleaned JSON has the length of what was cleaned and holds no control
/// character but line feeds, carriage returns and tabs; what held none already
/// is left as it is.
pub proof fn law_cleaned_json(json: Seq<char>)
    ensures
        cleaned_json(json).len() == json.len(),
        forall|i: int| 0 <= i < json.len() ==> !stray_control(#[trigger] cleaned_json(json)[i]),
        (forall|i: int| 0 <= i < json.len() ==> !stray_control(#[trigger] json[i]))
            ==> cleaned_json(json) == json,
{
    if forall|i: int| 0 <= i < json.len() ==> !stray_control(#[trigger] json[i]) {
        assert(cleaned_json(json) =~= json);
    }
}

/// Cleaning twice is cleaning once.
pub proof fn law_cleaning_is_idempotent(json: Seq<char>)
    ensures
        cleaned_json(cleaned_json(json)) == cleaned_json(json),
{
    law_cleaned_json(json);
    law_cleaned_json(cleaned_json(json));
}

/// What becomes of each character of JSON: a space where it is a control
/// character other than a line feed, a carriage return or a tab, and itself where
/// it is not.
pub proof fn law_cleaned_characters(json: Seq<char>, i: int)
    requires
        0 <= i < json.len(),
    ensures
        ({
            let c = json[i];
            let control = c as int <= 0x1f || 0x7f <= c as int <= 0x9f;
            let kept = c as int == 0x0a || c as int == 0x0d || c as int == 0x09;
            &&& control && !kept ==> cleaned_json(json)[i] == ' '
            &&& !control || kept ==> cleaned_json(json)[i] == c
        }),
{
}

/// A delta wraps the path and the value as they are, with nothing else between
/// them than JSON needs.
pub proof fn law_delta(path: Seq<char>, value: Seq<char>)
    ensures
        ({
            let head = "{\"updates\":[{\"values\":[{\"path\":\""@;
            let middle = "\",\"value\":"@;
            let tail = "}]}]}"@;
            let text = delta_text(path, value);
            &&& text.len() == head.len() + path.len() + middle.len() + value.len() + tail.len()
            &&& text.take(head.len() as int) == head
            &&& text.skip(head.len() as int).take(path.len() as int) == path
            &&& text.skip((head.len() + path.len()) as int).take(middle.len() as int) == middle
            &&& text.skip((head.len() + path.len() + middle.len()) as int).take(value.len() as int)
                == value
            &&& text.skip(
                (head.len() + path.len() + middle.len() + value.len()) as int,
            ) == tail
        }),
{
    let head = "{\"updates\":[{\"values\":[{\"path\":\""@;
    let middle = "\",\"value\":"@;
    let tail = "}]}]}"@;
    let text = delta_text(path, value);
    assert(text.take(head.len() as int) =~= head);
    assert(text.skip(head.len() as int).take(path.len() as int) =~= path);
    assert(text.skip((head.len() + path.len()) as int).take(middle.len() as int) =~= middle);
    assert(text.skip((head.len() + path.len() + middle.len()) as int).take(value.len() as int)
        =~= value);
    assert(text.skip((head.len() + path.len() + middle.len() + value.len()) as int) =~= tail);
}

/// The port of an address is the number behind its last colon, wherever the
/// address begins; where what stands there is no port, it is 0.
pub proof fn law_address_port(host: Seq<char>, port: u16, tail: Seq<char>)
    requires
        !tail.contains(':'),
    ensures
        address_port(host + seq![':'] + decimal_text(port as nat)) == port,
        port_value(tail) is None ==> address_port(host + seq![':'] + tail) == 0,
        port_value(tail) is None ==> address_port(tail) == 0,
{
    let digits = decimal_text(port as nat);
    lemma_decimal_round_trip(port as nat);
    law_port_round_trip(port);
    if digits.contains(':') {
        let k = choose|k: int| 0 <= k < digits.len() && digits[k] == ':';
        assert(is_decimal_digit(digits[k]));
    }
    law_after_last(host, ':', digits);
    law_after_last(host, ':', tail);
}

/// A text in a buffer ends at the first zero byte, or with the buffer where there
/// is none.
pub proof fn law_before_zero(head: Seq<u8>, rest: Seq<u8>)
    requires
        !head.contains(0u8),
    ensures
        before_zero(head + seq![0u8] + rest) == head,
        before_zero(head) == head,
{
    let bytes = head + seq![0u8] + rest;
    let n = head.len() as int;
    assert forall|k: int| 0 <= k < n implies bytes[k] != 0u8 by {
        assert(head.contains(head[k]));
    }
    assert(bytes[n] == 0u8);
    lemma_first_at(bytes, 0u8, n);
    assert(bytes.take(n) =~= head);
    assert forall|k: int| 0 <= k < n implies head[k] != 0u8 by {
        assert(head.contains(head[k]));
    }
    lemma_first_nowhere(head, 0u8);
}

/// The part of a buffer that was filled is what was put in front of the rest; no
/// reply makes it more than the buffer.
pub proof fn law_filled(head: Seq<u8>, rest: Seq<u8>, beyond: int)
    requires
        beyond >= (head + rest).len(),
    ensures
        filled(head + rest, head.len() as int) == head,
        filled(head + rest, beyond) == head + rest,
{
    assert((head + rest).take(head.len() as int) =~= head);
    assert((head + rest).take((head + rest).len() as int) =~= head + rest);
}

/// The path of a collision notification names the radar and the target: it
/// begins like all such paths, an id without dots stands in it as it is, the
/// target's number ends it, and the radar's part has no dot. Two targets of a
/// radar have different paths.
pub proof fn law_collision_paths(radar_id: Seq<char>, target: u32, other: u32)
    ensures
        collision_path(radar_id, target) == collision_path(radar_id, other) ==> target == other,
        !radar_id.contains('.') ==> collision_path(radar_id, target)
            == "notifications.navigation.closestApproach.radar:"@ + radar_id + ":target:"@
            + decimal_text(target as nat),
        ({
            let head = "notifications.navigation.closestApproach.radar:"@;
            let path = collision_path(radar_id, target);
            let radar = path.subrange(head.len() as int, (head.len() + radar_id.len()) as int);
            &&& path.take(head.len() as int) == head
            &&& !radar.contains('.')
            &&& forall|i: int|
                0 <= i < radar_id.len() && radar_id[i] == '.' ==> #[trigger] radar[i] == '-'
            &&& forall|i: int|
                0 <= i < radar_id.len() && radar_id[i] != '.' ==> #[trigger] radar[i]
                    == radar_id[i]
            &&& path.skip((head.len() + radar_id.len()) as int) == ":target:"@ + decimal_text(
                target as nat,
            )
        }),
{
    let head = "notifications.navigation.closestApproach.radar:"@;
    let radar = replaced(radar_id, '.', '-');
    law_replaced(radar_id, '.', '-');
    let path = collision_path(radar_id, target);
    let n = (head.len() + radar_id.len()) as int;
    let word = ":target:"@;
    assert(path.take(head.len() as int) =~= head);
    assert(path.subrange(head.len() as int, n) =~= radar);
    assert(path.skip(n) =~= word + decimal_text(target as nat));
    let path2 = collision_path(radar_id, other);
    assert(path2.skip(n) =~= word + decimal_text(other as nat));
    if path == path2 {
        assert(path.skip(n).skip(word.len() as int) =~= decimal_text(target as nat));
        assert(path2.skip(n).skip(word.len() as int) =~= decimal_text(other as nat));
        law_decimal_is_unique(target as nat, other as nat);
    }
    if !radar_id.contains('.') {
        assert forall|i: int| 0 <= i < radar_id.len() implies radar[i] == radar_id[i] by {
            assert(radar_id.contains(radar_id[i]));
        }
        assert(radar =~= radar_id);
    }
}

/// What a collision notification tells: its state, the target's number, the
/// distance and the time that were measured, and a message for a reader, who is
/// to see and to hear it. In the state `normal` the message takes the warning
/// back, and in any other it names the distance and the time.
pub proof fn law_collision_values(
    target_id: u32,
    state: Seq<char>,
    cpa: MeasureView,
    tcpa: MeasureView,
)
    ensures
        ({
            let value = collision_value(target_id, state, cpa, tcpa);
            &&& holds(value, "state"@, JsonView::Text(state))
            &&& holds(
                value,
                "method"@,
                JsonView::Array(seq![JsonView::Text("visual"@), JsonView::Text("sound"@)]),
            )
            &&& state == "normal"@ ==> holds(
                value,
                "message"@,
                JsonView::Text("Target no longer dangerous"@),
            )
            &&& state != "normal"@ ==> holds(
                value,
                "message"@,
                JsonView::Text(
                    "Collision warning: CPA "@ + cpa.rounded + "m in "@ + tcpa.rounded + "s"@,
                ),
            )
            &&& exists|data: JsonView| #[trigger]
                holds(value, "data"@, data) && holds(
                    data,
                    "targetId"@,
                    JsonView::Number(JsonNumber::PosInt(target_id as u64)),
                ) && holds(data, "cpa"@, cpa.exact) && holds(data, "tcpa"@, tcpa.exact)
        }),
{
    let value = collision_value(target_id, state, cpa, tcpa);
    let v = value->Object_0;
    let data = v[0].1;
    reveal_strlit("data");
    reveal_strlit("message");
    reveal_strlit("method");
    reveal_strlit("state");
    reveal_strlit("cpa");
    reveal_strlit("tcpa");
    reveal_strlit("targetId");
    assert("data"@.len() == 4 && "message"@.len() == 7 && "method"@.len() == 6 && "state"@.len()
        == 5);
    assert("cpa"@.len() == 3 && "tcpa"@.len() == 4 && "targetId"@.len() == 8);
    assert(v[0] == ("data"@, data));
    assert(v[1] == ("message"@, v[1].1));
    assert(v[2] == ("method"@, v[2].1));
    assert(v[3] == ("state"@, JsonView::Text(state)));
    let d = data->Object_0;
    assert(d[0] == ("cpa"@, cpa.exact));
    assert(d[1] == ("targetId"@, d[1].1));
    assert(d[2] == ("tcpa"@, tcpa.exact));
    assert(holds(value, "data"@, data));
}

/// A collision notification is published under the path of its radar and target,
/// as the JSON text of what it tells; a measure of nothing is zero.
pub proof fn law_collision_calls(
    radar_id: Seq<char>,
    target_id: u32,
    state: Seq<char>,
    cpa: MeasureView,
    tcpa: MeasureView,
)
    ensures
        collision_call(radar_id, target_id, state, cpa, tcpa) matches CallView::PublishNotification {
            path,
            value,
        } && path == collision_path(radar_id, target_id) && value == written_json(
            collision_value(target_id, state, cpa, tcpa),
        ),
        zero_measure().exact.double() matches Some(d) && d.zero() && !d.negative(),
        zero_measure().rounded == decimal_text(0),
{
    reveal_strlit("0");
    reveal_with_fuel(decimal_text, 2);
    assert(zero_measure().rounded =~= decimal_text(0));
}

} // verus!
