//! Socket operations and the clock, over the host interface.
//!
//! Each operation is a host call; the functions that take a `reply` turn the
//! host's answer into a handle, a count or an [`IoError`].

use crate::signalk_ffi::{self, Call, CallView, HostCall};
use vstd::prelude::*;

verus! {

/// A UDP socket, known by the host's id for it.
#[derive(Clone, Copy, PartialEq, Eq, Structural, Debug)]
pub struct UdpSocketHandle(pub i32);

/// A TCP socket, known by the host's id for it.
#[derive(Clone, Copy, PartialEq, Eq, Structural, Debug)]
pub struct TcpSocketHandle(pub i32);

/// Why a socket operation failed.
#[derive(Clone, Copy, PartialEq, Eq, Structural, Debug)]
pub enum IoError {
    /// The host gave this error code.
    Code(i32),
    /// The socket has no connection.
    NotConnected,
}

/// The operations of a radar's socket provider, and the current time.
#[derive(Debug)]
pub struct WasmIoProvider {
    /// The current time in milliseconds, as it was last set.
    current_time_ms: u64,
}

impl View for WasmIoProvider {
    type V = u64;

    closed spec fn view(&self) -> u64 {
        self.current_time_ms
    }
}

impl Default for WasmIoProvider {
    fn default() -> (io: WasmIoProvider)
        ensures
            io@ == 0,
    {
        WasmIoProvider::new()
    }
}

impl WasmIoProvider {
    /// A provider whose clock stands at 0.
    pub fn new() -> (io: WasmIoProvider)
        ensures
            io@ == 0,
    {
        WasmIoProvider { current_time_ms: 0 }
    }

    /// Sets the current time.
    pub fn set_time(&mut self, time_ms: u64)
        ensures
            final(self)@ == time_ms,
    {
        self.current_time_ms = time_ms;
    }

    /// The current time in milliseconds.
    pub fn current_time_ms(&self) -> (time_ms: u64)
        ensures
            time_ms == self@,
    {
        self.current_time_ms
    }

    /// The outcome of an operation that only reports a status.
    pub fn status_result(reply: i32) -> (result: Result<(), IoError>)
        ensures
            result == if reply < 0 {
                Err::<(), IoError>(IoError::Code(reply))
            } else {
                Ok(())
            },
    {
        match signalk_ffi::status_reply(reply) {
            Ok(_) => Ok(()),
            Err(code) => Err(IoError::Code(code)),
        }
    }

    /// The outcome of an operation that counts what was sent.
    pub fn count_result(reply: i32) -> (result: Result<usize, IoError>)
        ensures
            result == if reply < 0 {
                Err::<usize, IoError>(IoError::Code(reply))
            } else {
                Ok(reply as usize)
            },
    {
        match signalk_ffi::count_reply(reply) {
            Ok(n) => Ok(n),
            Err(code) => Err(IoError::Code(code)),
        }
    }

    /// Asks for an IPv4 UDP socket.
    pub fn udp_create(&self) -> (call: Call)
        ensures
            call@ == (CallView::UdpCreate { socket_type: 0 }),
    {
        HostCall::UdpCreate { socket_type: 0 }
    }

    /// The UDP socket that was made.
    pub fn udp_create_result(reply: i32) -> (socket: Result<UdpSocketHandle, IoError>)
        ensures
            socket == if reply < 0 {
                Err::<UdpSocketHandle, IoError>(IoError::Code(reply))
            } else {
                Ok(UdpSocketHandle(reply))
            },
    {
        if reply < 0 {
            Err(IoError::Code(reply))
        } else {
            Ok(UdpSocketHandle(reply))
        }
    }

    /// Binds a socket to a port.
    pub fn udp_bind(&self, socket: &UdpSocketHandle, port: u16) -> (call: Call)
        ensures
            call@ == (CallView::UdpBind { socket: socket.0, port }),
    {
        HostCall::UdpBind { socket: socket.0, port }
    }

    /// Switches broadcasting on or off.
    pub fn udp_set_broadcast(&self, socket: &UdpSocketHandle, enabled: bool) -> (call: Call)
        ensures
            call@ == (CallView::UdpSetBroadcast {
                socket: socket.0,
                enabled: if enabled {
                    1
                } else {
                    0
                },
            }),
    {
        HostCall::UdpSetBroadcast {
            socket: socket.0,
            enabled: if enabled {
                1
            } else {
                0
            },
        }
    }

    /// Joins a multicast group on an interface.
    pub fn udp_join_multicast(&self, socket: &UdpSocketHandle, group: &str, interface: &str) -> (call:
        Call)
        ensures
            call@ == (CallView::UdpJoinMulticast {
                socket: socket.0,
                group: group@,
                interface: interface@,
            }),
    {
        HostCall::UdpJoinMulticast {
            socket: socket.0,
            group: group.to_owned(),
            interface: interface.to_owned(),
        }
    }

    /// Sends a datagram.
    pub fn udp_send_to(&self, socket: &UdpSocketHandle, data: &[u8], addr: &str, port: u16) -> (call:
        Call)
        ensures
            call@ == (CallView::UdpSend { socket: socket.0, addr: addr@, port, data: data@ }),
    {
        HostCall::UdpSend {
            socket: socket.0,
            addr: addr.to_owned(),
            port,
            data: vstd::slice::slice_to_vec(data),
        }
    }

    /// Receives a datagram of at most `max_len` bytes.
    /// [`signalk_ffi::datagram_reply`] reads the reply.
    pub fn udp_recv_from(&self, socket: &UdpSocketHandle, max_len: usize) -> (call: Call)
        ensures
            call@ == (CallView::UdpRecv { socket: socket.0, max_len }),
    {
        HostCall::UdpRecv { socket: socket.0, max_len }
    }

    /// Asks how many datagrams wait.
    pub fn udp_pending(&self, socket: &UdpSocketHandle) -> (call: Call)
        ensures
            call@ == (CallView::UdpPending { socket: socket.0 }),
    {
        HostCall::UdpPending { socket: socket.0 }
    }

    /// Closes a socket.
    pub fn udp_close(&self, socket: UdpSocketHandle) -> (call: Call)
        ensures
            call@ == (CallView::UdpClose { socket: socket.0 }),
    {
        HostCall::UdpClose { socket: socket.0 }
    }

    /// Asks for a TCP socket.
    pub fn tcp_create(&self) -> (call: Call)
        ensures
            call@ == CallView::TcpCreate,
    {
        HostCall::TcpCreate
    }

    /// The TCP socket that was made.
    pub fn tcp_create_result(reply: i32) -> (socket: Result<TcpSocketHandle, IoError>)
        ensures
            socket == if reply < 0 {
                Err::<TcpSocketHandle, IoError>(IoError::Code(reply))
            } else {
                Ok(TcpSocketHandle(reply))
            },
    {
        if reply < 0 {
            Err(IoError::Code(reply))
        } else {
            Ok(TcpSocketHandle(reply))
        }
    }

    /// Starts to connect.
    pub fn tcp_connect(&self, socket: &TcpSocketHandle, addr: &str, port: u16) -> (call: Call)
        ensures
            call@ == (CallView::TcpConnect { socket: socket.0, addr: addr@, port }),
    {
        HostCall::TcpConnect { socket: socket.0, addr: addr.to_owned(), port }
    }

    /// Asks for the state of a connection.
    pub fn tcp_connection_state(&self, socket: &TcpSocketHandle) -> (call: Call)
        ensures
            call@ == (CallView::TcpConnected { socket: socket.0 }),
    {
        HostCall::TcpConnected { socket: socket.0 }
    }

    /// Whether a socket is connected, by the reply to
    /// [`WasmIoProvider::tcp_connection_state`].
    pub fn tcp_is_connected(reply: i32) -> (connected: bool)
        ensures
            connected == (reply == 1),
    {
        reply == 1
    }

    /// Whether a socket exists, by the reply to
    /// [`WasmIoProvider::tcp_connection_state`].
    pub fn tcp_is_valid(reply: i32) -> (valid: bool)
        ensures
            valid == (reply >= 0),
    {
        reply >= 0
    }

    /// Switches line buffering on or off.
    pub fn tcp_set_line_buffering(&self, socket: &TcpSocketHandle, enabled: bool) -> (call: Call)
        ensures
            call@ == (CallView::TcpSetLineBuffering {
                socket: socket.0,
                line_buffering: if enabled {
                    1
                } else {
                    0
                },
            }),
    {
        HostCall::TcpSetLineBuffering {
            socket: socket.0,
            line_buffering: if enabled {
                1
            } else {
                0
            },
        }
    }

    /// Sends bytes. `connected` is the reply to
    /// [`WasmIoProvider::tcp_connection_state`]; over no connection nothing is
    /// sent.
    pub fn tcp_send(&self, socket: &TcpSocketHandle, connected: i32, data: &[u8]) -> (call: Result<
        Call,
        IoError,
    >)
        ensures
            match call {
                Ok(c) => connected == 1 && c@ == (CallView::TcpSend {
                    socket: socket.0,
                    data: data@,
                }),
                Err(e) => connected != 1 && e == IoError::NotConnected,
            },
    {
        if !WasmIoProvider::tcp_is_connected(connected) {
            return Err(IoError::NotConnected);
        }
        Ok(HostCall::TcpSend { socket: socket.0, data: vstd::slice::slice_to_vec(data) })
    }

    /// Receives one line of at most `max_len` bytes.
    /// [`signalk_ffi::received_reply`] reads the reply.
    pub fn tcp_recv_line(&self, socket: &TcpSocketHandle, max_len: usize) -> (call: Call)
        ensures
            call@ == (CallView::TcpRecvLine { socket: socket.0, max_len }),
    {
        HostCall::TcpRecvLine { socket: socket.0, max_len }
    }

    /// Receives at most `max_len` bytes. [`signalk_ffi::received_reply`] reads
    /// the reply.
    pub fn tcp_recv_raw(&self, socket: &TcpSocketHandle, max_len: usize) -> (call: Call)
        ensures
            call@ == (CallView::TcpRecvRaw { socket: socket.0, max_len }),
    {
        HostCall::TcpRecvRaw { socket: socket.0, max_len }
    }

    /// Asks how many items wait.
    pub fn tcp_pending(&self, socket: &TcpSocketHandle) -> (call: Call)
        ensures
            call@ == (CallView::TcpPending { socket: socket.0 }),
    {
        HostCall::TcpPending { socket: socket.0 }
    }

    /// Closes a socket.
    pub fn tcp_close(&self, socket: TcpSocketHandle) -> (call: Call)
        ensures
            call@ == (CallView::TcpClose { socket: socket.0 }),
    {
        HostCall::TcpClose { socket: socket.0 }
    }

    /// Logs a debug message.
    pub fn debug(&self, msg: &str) -> (call: Call)
        ensures
            call@ == (CallView::Debug { msg: msg@ }),
    {
        signalk_ffi::debug(msg)
    }

    /// Logs an informational message, as a debug message.
    pub fn info(&self, msg: &str) -> (call: Call)
        ensures
            call@ == (CallView::Debug { msg: msg@ }),
    {
        signalk_ffi::debug(msg)
    }
}

} // verus!
