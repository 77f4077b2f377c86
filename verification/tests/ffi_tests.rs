use signalk_radar::signalk_ffi::{
    clean_json, count_reply, datagram_reply, debug, emit_delta, emit_json, emit_radar_spokes,
    emit_radar_spokes_reply, handle_message, no_measure, publish_collision_warning,
    publish_notification, publish_notification_reply, read_config, read_config_call,
    received_reply, register_radar_provider, register_radar_provider_reply, save_config,
    save_config_reply, set_error, set_status, sk_debug_log, sk_info, sk_warn, status_reply,
    HostCall, TcpSocket, UdpSocket,
};
use signalk_radar::wasm_io::{IoError, TcpSocketHandle, UdpSocketHandle, WasmIoProvider};

#[test]
fn replies_are_read() {
    assert_eq!(status_reply(0), Ok(()));
    assert_eq!(status_reply(-3), Err(-3));
    assert_eq!(count_reply(12), Ok(12));
    assert_eq!(count_reply(-1), Err(-1));
    assert_eq!(received_reply(0), None);
    assert_eq!(received_reply(-1), None);
    assert_eq!(received_reply(9), Some(9));
    assert!(save_config_reply(0) && !save_config_reply(-1));
    assert!(publish_notification_reply(0) && !publish_notification_reply(1));
    assert!(emit_radar_spokes_reply(1) && !emit_radar_spokes_reply(2));
    assert!(register_radar_provider_reply(-1) && !register_radar_provider_reply(0));
}

#[test]
fn messages_are_handed_to_the_host() {
    assert!(matches!(debug("a"), HostCall::Debug { msg } if msg == "a"));
    assert!(matches!(sk_debug_log("b"), HostCall::Debug { .. }));
    assert!(matches!(set_status("c"), HostCall::SetStatus { msg } if msg == "c"));
    assert!(matches!(set_error("d"), HostCall::SetError { msg } if msg == "d"));
    assert!(matches!(handle_message("e"), HostCall::HandleMessage { msg } if msg == "e"));
    assert!(matches!(
        register_radar_provider("f"),
        HostCall::RegisterRadarProvider { name } if name == "f"
    ));
    assert!(matches!(
        publish_notification("p", "v"),
        HostCall::PublishNotification { path, value } if path == "p" && value == "v"
    ));
    assert!(matches!(
        emit_radar_spokes("r", &[1, 2]),
        HostCall::RadarEmitSpokes { radar_id, data } if radar_id == "r" && data == vec![1, 2]
    ));
    assert!(matches!(save_config("{}"), HostCall::SaveConfig { config } if config == "{}"));
    assert!(matches!(read_config_call(), HostCall::ReadConfig { max_len: 32768 }));
    println!("{:?} {:?}", sk_info("i"), sk_warn("w"));
}

#[test]
fn deltas_have_a_path_and_a_value() {
    match emit_delta("radars.x", "{\"a\":1}") {
        HostCall::HandleMessage { msg } => assert_eq!(
            msg,
            "{\"updates\":[{\"values\":[{\"path\":\"radars.x\",\"value\":{\"a\":1}}]}]}"
        ),
        other => panic!("{:?}", other),
    }
}

#[test]
fn emitted_json_holds_no_stray_control_characters() {
    let dirty: String = (0u32..0x180).filter_map(char::from_u32).collect();
    let expected: String = dirty
        .chars()
        .map(|c| if c.is_control() && c != '\n' && c != '\r' && c != '\t' { ' ' } else { c })
        .collect();
    assert_eq!(clean_json(&dirty), expected);
    assert_eq!(clean_json(&expected), expected);
    match emit_json("p", Ok("\"a\u{1}b\"")) {
        HostCall::HandleMessage { msg } => assert!(msg.contains("\"value\":\"a b\"}")),
        other => panic!("{:?}", other),
    }
    match emit_json("p", Err("why")) {
        HostCall::SetError { msg } => {
            assert_eq!(msg, "Failed to serialize JSON for path p: why");
        }
        other => panic!("{:?}", other),
    }
}

#[test]
fn configuration_is_read_as_text() {
    let mut buf = b"{\"radars\":{}}".to_vec();
    buf.extend([0, 0, 255]);
    assert_eq!(read_config(13, buf.clone()).as_deref(), Some("{\"radars\":{}}"));
    assert_eq!(read_config(0, buf.clone()), None);
    assert_eq!(read_config(-1, buf.clone()), None);
    assert_eq!(read_config(16, buf.clone()), None);
    assert_eq!(read_config(1000, b"ok".to_vec()).as_deref(), Some("ok"));
}

#[test]
fn a_udp_socket_is_bound_by_address() {
    assert!(matches!(UdpSocket::create(), HostCall::UdpCreate { socket_type: 0 }));
    assert_eq!(UdpSocket::new(-4).unwrap_err(), -4);
    let (socket, call) = UdpSocket::bind("0.0.0.0:10024", 5).unwrap();
    assert!(matches!(call, HostCall::UdpBind { socket: 5, port: 10024 }));
    let (bound, close) = socket.bind_finish(0);
    assert!(bound.is_ok() && close.is_none());
    assert_eq!(UdpSocket::bind("0.0.0.0:1", -2).unwrap_err(), -2);
    let (socket, call) = UdpSocket::bind("nowhere", 6).unwrap();
    assert!(matches!(call, HostCall::UdpBind { socket: 6, port: 0 }));
    let (bound, close) = socket.bind_finish(-9);
    assert_eq!(bound.unwrap_err(), -9);
    assert!(matches!(close, Some(HostCall::UdpClose { socket: 6 })));
}

#[test]
fn a_udp_socket_is_used_and_closed_once() {
    let mut socket = UdpSocket::new(3).unwrap();
    assert!(matches!(socket.bind_port(7), HostCall::UdpBind { socket: 3, port: 7 }));
    assert!(matches!(
        socket.set_broadcast(true),
        HostCall::UdpSetBroadcast { socket: 3, enabled: 1 }
    ));
    assert!(matches!(
        socket.set_broadcast(false),
        HostCall::UdpSetBroadcast { socket: 3, enabled: 0 }
    ));
    assert!(matches!(
        socket.join_multicast("239.255.0.2"),
        HostCall::UdpJoinMulticast { socket: 3, group, interface }
            if group == "239.255.0.2" && interface == ""
    ));
    assert!(matches!(
        socket.join_multicast_on_interface("g", "i"),
        HostCall::UdpJoinMulticast { interface, .. } if interface == "i"
    ));
    assert!(matches!(
        socket.send_to(&[1], "a", 2),
        HostCall::UdpSend { socket: 3, addr, port: 2, data } if addr == "a" && data == vec![1]
    ));
    assert!(matches!(socket.pending(), HostCall::UdpPending { socket: 3 }));
    assert!(matches!(socket.recv_from(9), HostCall::UdpRecv { socket: 3, max_len: 9 }));
    assert!(matches!(socket.close(), Some(HostCall::UdpClose { socket: 3 })));
    assert!(socket.close().is_none());
}

#[test]
fn a_datagram_tells_where_it_came_from() {
    let mut addr = b"10.0.0.7".to_vec();
    addr.extend([0u8; 8]);
    let (len, from, port) = datagram_reply(20, &addr, 99).unwrap();
    assert_eq!((len, from.as_str(), port), (20, "10.0.0.7", 99));
    assert!(datagram_reply(0, &addr, 99).is_none());
    let (_, from, _) = datagram_reply(1, b"abc", 1).unwrap();
    assert_eq!(from, "abc");
    let (_, from, _) = datagram_reply(1, &[0xff, 0x41, 0], 1).unwrap();
    assert_eq!(from, String::from_utf8_lossy(&[0xff, 0x41]));
}

#[test]
fn a_tcp_socket_sends_over_a_connection_only() {
    let mut socket = TcpSocket::new(4).unwrap();
    assert_eq!(TcpSocket::new(-1).unwrap_err(), -1);
    assert!(matches!(TcpSocket::create(), HostCall::TcpCreate));
    assert!(matches!(
        socket.connect("a", 5),
        HostCall::TcpConnect { socket: 4, addr, port: 5 } if addr == "a"
    ));
    assert!(matches!(socket.connection_state(), HostCall::TcpConnected { socket: 4 }));
    assert!(TcpSocket::is_connected(1) && !TcpSocket::is_connected(0));
    assert!(TcpSocket::is_valid(0) && !TcpSocket::is_valid(-1));
    assert!(matches!(
        socket.set_line_buffering(true),
        HostCall::TcpSetLineBuffering { socket: 4, line_buffering: 1 }
    ));
    assert_eq!(socket.send(0, &[1]).unwrap_err(), -1);
    assert!(matches!(
        socket.send(1, &[1]),
        Ok(HostCall::TcpSend { socket: 4, data }) if data == vec![1]
    ));
    assert!(matches!(
        socket.send_line(1, "$R\u{e9}"),
        Ok(HostCall::TcpSend { socket: 4, data }) if data == "$R\u{e9}\r\n".as_bytes()
    ));
    assert_eq!(socket.send_line(-1, "x").unwrap_err(), -1);
    assert!(matches!(socket.recv_line(8), HostCall::TcpRecvLine { socket: 4, max_len: 8 }));
    assert!(matches!(socket.recv_line_call(), HostCall::TcpRecvLine { max_len: 1024, .. }));
    assert!(matches!(socket.recv_raw(8), HostCall::TcpRecvRaw { socket: 4, max_len: 8 }));
    assert!(matches!(socket.pending(), HostCall::TcpPending { socket: 4 }));
    assert!(matches!(socket.close(), Some(HostCall::TcpClose { socket: 4 })));
    assert!(socket.close().is_none());
}

#[test]
fn a_received_line_is_text() {
    assert_eq!(TcpSocket::recv_line_string(3, b"abcdef").as_deref(), Some("abc"));
    assert_eq!(TcpSocket::recv_line_string(0, b"abc"), None);
    assert_eq!(TcpSocket::recv_line_string(-2, b"abc"), None);
    assert_eq!(
        TcpSocket::recv_line_string(2, &[0xc3, 0x28]).unwrap(),
        String::from_utf8_lossy(&[0xc3, 0x28])
    );
}

#[test]
fn a_warning_is_taken_back_in_the_state_normal() {
    let zero = no_measure();
    match publish_collision_warning("a.b.c", 17, "normal", &zero, &zero) {
        HostCall::PublishNotification { path, value } => {
            assert_eq!(
                path,
                "notifications.navigation.closestApproach.radar:a-b-c:target:17"
            );
            assert!(value.contains("\"message\":\"Target no longer dangerous\""));
            assert!(value.contains("\"cpa\":0.0"));
        }
        other => panic!("{:?}", other),
    }
}

#[test]
fn the_socket_provider_keeps_time() {
    let mut io = WasmIoProvider::default();
    assert_eq!(io.current_time_ms(), 0);
    io.set_time(1500);
    assert_eq!(io.current_time_ms(), 1500);
}

#[test]
fn the_socket_provider_hands_calls_on() {
    let io = WasmIoProvider::new();
    let udp = UdpSocketHandle(2);
    let tcp = TcpSocketHandle(3);
    assert!(matches!(io.udp_create(), HostCall::UdpCreate { socket_type: 0 }));
    assert_eq!(WasmIoProvider::udp_create_result(2), Ok(udp));
    assert_eq!(WasmIoProvider::udp_create_result(-2), Err(IoError::Code(-2)));
    assert!(matches!(io.udp_bind(&udp, 6), HostCall::UdpBind { socket: 2, port: 6 }));
    assert!(matches!(io.udp_close(udp), HostCall::UdpClose { socket: 2 }));
    assert!(matches!(io.udp_recv_from(&udp, 1), HostCall::UdpRecv { socket: 2, max_len: 1 }));
    assert_eq!(WasmIoProvider::tcp_create_result(3), Ok(tcp));
    assert_eq!(WasmIoProvider::tcp_create_result(-1), Err(IoError::Code(-1)));
    assert_eq!(io.tcp_send(&tcp, 0, &[1]).unwrap_err(), IoError::NotConnected);
    assert!(matches!(
        io.tcp_send(&tcp, 1, &[1]),
        Ok(HostCall::TcpSend { socket: 3, data }) if data == vec![1]
    ));
    assert_eq!(WasmIoProvider::status_result(-7), Err(IoError::Code(-7)));
    assert_eq!(WasmIoProvider::count_result(7), Ok(7));
    assert!(matches!(io.debug("m"), HostCall::Debug { msg } if msg == "m"));
}
