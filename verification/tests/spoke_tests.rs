use signalk_radar::signalk_ffi::{Call, HostCall};
use signalk_radar::spoke_receiver::{
    numeric_id, FrameReport, ListenStep, Packet, ParsedSpoke, SpokeBatch, SpokeReceiver,
    DEFAULT_RANGE, FURUNO_OUTPUT_SPOKES, FURUNO_SPOKE_REDUCTION,
};

fn spoke(angle: u16, data: &[u8]) -> ParsedSpoke {
    ParsedSpoke { angle, heading: Some(angle + 1), data: data.to_vec() }
}

fn frame(spokes: Vec<ParsedSpoke>) -> FrameReport {
    FrameReport {
        len: 300,
        spoke_frame: true,
        range: None,
        spokes: Some(spokes),
        prev_spoke: vec![9],
    }
}

fn run(from: u16, count: u16) -> Vec<ParsedSpoke> {
    (from..from + count).map(|a| spoke(a, &[(a % 251) as u8])).collect()
}

fn receiver() -> SpokeReceiver {
    let mut receiver = SpokeReceiver::new();
    receiver.add_furuno_radar("Furuno-RD003212", "172.31.3.212");
    receiver
}

#[test]
fn merged_spokes_keep_the_strongest_echo() {
    let one = SpokeReceiver::combine_spokes(&[
        spoke(32, &[1, 9, 3]),
        spoke(33, &[5, 2]),
        spoke(34, &[0, 0, 0, 7]),
    ]);
    assert_eq!(one.angle, 2);
    assert_eq!(one.heading, Some(33));
    assert_eq!(one.data, vec![5, 9, 3, 7]);
}

#[test]
fn no_spokes_merge_into_an_empty_one() {
    let one = SpokeReceiver::combine_spokes(&[]);
    assert_eq!(one.angle, 0);
    assert_eq!(one.heading, None);
    assert!(one.data.is_empty());
}

#[test]
fn the_last_angle_of_a_turn_comes_out_as_the_last_of_a_coarser_turn() {
    let one = SpokeReceiver::combine_spokes(&[spoke(8191, &[])]);
    assert_eq!(one.angle, FURUNO_OUTPUT_SPOKES - 1);
}

#[test]
fn spokes_wait_until_a_group_is_full() {
    let mut receiver = receiver();
    assert!(receiver.process_furuno_frame(0, frame(run(0, 15))).0.is_none());
    let batch = receiver.process_furuno_frame(0, frame(run(15, 2))).0.unwrap();
    assert_eq!(batch.radar_id, "Furuno-RD003212");
    assert_eq!(batch.numeric_id, 0x46757275);
    assert_eq!(batch.range, DEFAULT_RANGE);
    assert_eq!(batch.spokes.len(), 1);
    assert_eq!(batch.spokes[0].data, vec![15]);
    let batch = receiver.process_furuno_frame(0, frame(run(17, 15))).0.unwrap();
    assert_eq!(batch.spokes.len(), 1);
    assert_eq!(batch.spokes[0].angle, 1);
    assert_eq!(batch.spokes[0].data, vec![31]);
}

#[test]
fn frame_boundaries_do_not_matter() {
    let mut whole = receiver();
    let all = whole.process_furuno_frame(0, frame(run(0, 100))).0.unwrap();
    let mut cut = receiver();
    let mut pieces = Vec::new();
    for (from, count) in [(0, 7), (7, 33), (40, 1), (41, 59)] {
        if let Some(batch) = cut.process_furuno_frame(0, frame(run(from, count))).0 {
            pieces.extend(batch.spokes);
        }
    }
    assert_eq!(format!("{:?}", pieces), format!("{:?}", all.spokes));
    assert_eq!(pieces.len(), 6);
}

#[test]
fn a_revolution_is_reduced_to_the_output_spokes() {
    let mut receiver = receiver();
    let batches: Vec<SpokeBatch> = (0..64)
        .filter_map(|i| receiver.process_furuno_frame(0, frame(run(i * 128, 128))).0)
        .collect();
    let count: usize = batches.iter().map(|b| b.spokes.len()).sum();
    assert_eq!(count, FURUNO_OUTPUT_SPOKES as usize);
    assert_eq!(8192 / FURUNO_SPOKE_REDUCTION, count);
    let delivered: Vec<bool> = batches.iter().map(|_| true).collect();
    assert_eq!(SpokeReceiver::count_delivered(&batches, &delivered), 512);
    let mut some = delivered;
    some[0] = false;
    assert_eq!(SpokeReceiver::count_delivered(&batches, &some), 504);
    assert!(receiver.process_furuno_frame(0, frame(run(0, 15))).0.is_none());
}

#[test]
fn a_header_tells_the_range_unless_it_is_zero() {
    let mut receiver = receiver();
    let told = FrameReport { range: Some(3704), ..frame(run(0, 16)) };
    assert_eq!(receiver.process_furuno_frame(0, told).0.unwrap().range, 3704);
    let zero = FrameReport { range: Some(0), ..frame(run(16, 16)) };
    assert_eq!(receiver.process_furuno_frame(0, zero).0.unwrap().range, 3704);
}

#[test]
fn frames_without_spokes_are_passed_over() {
    let mut receiver = receiver();
    let other = FrameReport {
        len: 16,
        spoke_frame: false,
        range: Some(99),
        spokes: Some(run(0, 16)),
        prev_spoke: vec![1],
    };
    assert!(receiver.process_furuno_frame(0, other).0.is_none());
    assert!(receiver.prev_spoke(0).is_empty());
    let broken = FrameReport { spokes: None, ..frame(vec![]) };
    assert!(receiver.process_furuno_frame(0, broken).0.is_none());
    assert_eq!(receiver.prev_spoke(0), &vec![9]);
    assert!(receiver.process_furuno_frame(0, frame(vec![])).0.is_none());
    let batch = receiver.process_furuno_frame(0, frame(run(0, 16))).0.unwrap();
    assert_eq!(batch.range, DEFAULT_RANGE);
}

#[test]
fn datagrams_are_routed_by_their_address() {
    let mut receiver = receiver();
    receiver.add_furuno_radar("Furuno-B", "172.31.3.213");
    assert_eq!(receiver.route("172.31.3.213"), Some(1));
    assert_eq!(receiver.route("172.31.3.214"), None);
    let packets = vec![
        Packet { data: vec![1], addr: "172.31.3.213".to_string() },
        Packet { data: vec![2], addr: "10.0.0.1".to_string() },
        Packet { data: vec![3], addr: "172.31.3.212".to_string() },
    ];
    let (frames, lines) = receiver.poll(packets);
    assert_eq!(frames, vec![(vec![1], 1), (vec![3], 0)]);
    assert!(lines.is_empty());
}

#[test]
fn a_radar_is_tracked_once() {
    let mut receiver = receiver();
    assert_eq!(receiver.radar_count(), 1);
    assert!(receiver.add_furuno_radar("Furuno-RD003212", "10.0.0.9").is_none());
    assert_eq!(receiver.radar_count(), 1);
    assert_eq!(receiver.route("10.0.0.9"), None);
}

#[test]
fn numeric_ids_are_the_first_four_bytes() {
    assert_eq!(numeric_id(""), 0);
    assert_eq!(numeric_id("A"), 0x41);
    assert_eq!(numeric_id("Furuno"), 0x46757275);
    assert_eq!(numeric_id("\u{ff}\u{ff}\u{ff}"), 0xc3bfc3bf);
}

#[test]
fn the_socket_is_opened_step_by_step() {
    let mut receiver = SpokeReceiver::default();
    let (step, call) = receiver.start_furuno().unwrap();
    assert!(matches!(call, HostCall::UdpCreate { socket_type: 0 }));
    let (step, call) = receiver.listen_reply(step, 7, 10024, "239.255.0.2");
    assert_eq!(step, Some(ListenStep::Bind { socket: 7 }));
    assert!(matches!(call, Some(HostCall::UdpBind { socket: 7, port: 10024 })));
    let (step, call) = receiver.listen_reply(step.unwrap(), 0, 10024, "239.255.0.2");
    assert_eq!(step, Some(ListenStep::Join { socket: 7 }));
    match call {
        Some(HostCall::UdpJoinMulticast { socket, group, interface }) => {
            assert_eq!((socket, group.as_str(), interface.as_str()), (7, "239.255.0.2", ""));
        }
        other => panic!("{:?}", other),
    }
    assert_eq!(receiver.furuno_socket(), None);
    let (step, call) = receiver.listen_reply(step.unwrap(), 0, 10024, "239.255.0.2");
    assert!(step.is_none() && call.is_none());
    assert_eq!(receiver.furuno_socket(), Some(7));
    assert!(receiver.start_furuno().is_none());
    assert!(receiver.add_furuno_radar("Furuno-A", "10.0.0.1").is_none());
    assert!(matches!(receiver.shutdown(), Some(HostCall::UdpClose { socket: 7 })));
    assert!(receiver.shutdown().is_none());
    assert_eq!(receiver.radar_count(), 0);
}

#[test]
fn a_socket_that_cannot_be_used_is_closed() {
    let mut receiver = SpokeReceiver::new();
    let (step, call) = receiver.listen_reply(ListenStep::Create, -1, 1, "g");
    assert!(step.is_none() && call.is_none());
    let (step, call) = receiver.listen_reply(ListenStep::Bind { socket: 3 }, -5, 1, "g");
    assert!(step.is_none());
    assert!(matches!(call, Some(HostCall::UdpClose { socket: 3 })));
    let (step, call) = receiver.listen_reply(ListenStep::Join { socket: 3 }, -5, 1, "g");
    assert!(step.is_none());
    assert!(matches!(call, Some(HostCall::UdpClose { socket: 3 })));
    assert_eq!(receiver.furuno_socket(), None);
    assert!(receiver.start_furuno().is_some());
}

#[test]
fn frames_keep_radars() {
    let mut receiver = receiver();
    receiver.add_furuno_radar("Furuno-B", "172.31.3.213");
    let batches: Vec<SpokeBatch> = [(1, 0, 20), (0, 0, 15), (1, 20, 12)]
        .into_iter()
        .filter_map(|(idx, from, count)| {
            receiver.process_furuno_frame(idx, frame(run(from, count))).0
        })
        .collect();
    let ids: Vec<&str> = batches.iter().map(|b| b.radar_id.as_str()).collect();
    assert_eq!(ids, vec!["Furuno-B", "Furuno-B"]);
    assert_eq!(receiver.radar_count(), 2);
    assert_eq!(receiver.route("172.31.3.212"), Some(0));
    assert_eq!(receiver.route("172.31.3.213"), Some(1));
    assert!(receiver.process_furuno_frame(1, frame(run(0, 15))).0.is_none());
}

fn text(call: &Call) -> String {
    match call {
        HostCall::Debug { msg } => msg.clone(),
        other => panic!("{:?}", other),
    }
}

fn stray(addr: &str) -> Packet {
    Packet { data: vec![0; 7], addr: addr.to_string() }
}

#[test]
fn unknown_senders_are_logged_now_and_then() {
    let mut receiver = receiver();
    receiver.add_furuno_radar("Furuno-B", "10.0.0.2");
    let mut said = Vec::new();
    for count in 1..=320u64 {
        let (_, lines) = receiver.poll(vec![stray("10.0.0.9"), stray("10.0.0.8")]);
        for line in &lines {
            said.push((count, text(line)));
        }
    }
    let line = "Spoke packet from unknown IP 10.0.0.9 (len=7), tracking: \
                [\"172.31.3.212\", \"10.0.0.2\"]";
    assert_eq!(
        said,
        vec![
            (101, line.to_string()),
            (202, line.to_string()),
            (303, line.to_string())
        ]
    );
}

#[test]
fn polls_are_summed_up_now_and_then() {
    let mut receiver = receiver();
    let mut said = Vec::new();
    for count in 1..=1000u64 {
        let known = Packet { data: vec![1], addr: "172.31.3.212".to_string() };
        let packets = if count == 500 { vec![known] } else { vec![] };
        let (_, lines) = receiver.poll(packets);
        said.extend(lines.iter().map(text));
    }
    assert_eq!(
        said,
        vec![
            "SpokeReceiver poll #500: socket=false, tracking 1 radars, frames=1, unknown=0",
            "SpokeReceiver poll #1000: socket=false, tracking 1 radars, frames=0, unknown=0",
        ]
    );
}

#[test]
fn frames_without_spokes_are_logged_now_and_then() {
    let mut receiver = receiver();
    let mut said = Vec::new();
    for _ in 0..200 {
        let other = FrameReport { len: 16, spoke_frame: false, ..frame(vec![]) };
        if let (_, Some(line)) = receiver.process_furuno_frame(0, other) {
            said.push(text(&line));
        }
    }
    assert_eq!(
        said,
        vec!["Frame #100 not a spoke frame (len=16)", "Frame #200 not a spoke frame (len=16)"]
    );
}

#[test]
fn batches_are_logged_now_and_then() {
    let mut receiver = receiver();
    let mut said = Vec::new();
    let mut failed = Vec::new();
    for count in 1..=500u64 {
        let (batch, line) = receiver.process_furuno_frame(0, frame(run(0, 32)));
        assert!(line.is_none());
        let batch = batch.unwrap();
        if let Some(line) = receiver.batch_encoded(&batch, 77) {
            said.push(text(&line));
        }
        let delivered = count % 2 == 0;
        if let Some(line) = receiver.batch_emitted(&batch, delivered) {
            failed.push(text(&line));
        }
    }
    assert_eq!(
        said,
        vec![
            "Frame #500: 2 combined spokes (from 32), range=1500m, protobuf=77 bytes, \
             emit success/fail=249/250"
        ]
    );
    let expected: Vec<String> = [1, 2, 3, 4, 5, 100, 200]
        .iter()
        .map(|n| format!("emit_radar_spokes failed for Furuno-RD003212 (fail #{})", n))
        .collect();
    assert_eq!(failed, expected);
}
