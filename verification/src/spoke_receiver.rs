//! Spoke reception: from the datagrams of the radars to the spokes that are
//! streamed to clients.
//!
//! A Furuno radar sends 8192 spokes in a revolution, more than a client can
//! take. Groups of [`FURUNO_SPOKE_REDUCTION`] spokes are merged into one.
//! Decoding a frame is the work of the radar protocol; what the decoder made
//! of a frame comes in as a [`FrameReport`].

use crate::signalk_ffi::{calls_view, debug, Call, CallView, HostCall};
use crate::text::{
    debug_list, debug_list_text, decimal, decimal_text, lemma_first_at, lemma_first_nowhere, str_eq,
    truth, truth_text,
};
use vstd::prelude::*;
use vstd::string::*;
use vstd::utf8::*;

verus! {

/// How many received spokes make one that is streamed.
pub const FURUNO_SPOKE_REDUCTION: usize = 16;

/// The spokes that are streamed for a revolution of 8192 received ones.
pub const FURUNO_OUTPUT_SPOKES: u16 = 512;

/// The range that is assumed before a radar has told its own, in metres.
pub const DEFAULT_RANGE: u32 = 1500;

/// The size of the buffer for one datagram.
pub const RECEIVE_BUFFER_LEN: usize = 9000;

/// A decoded spoke: its angle, the heading that came with it, and the strength
/// of the echo at each distance.
#[derive(Debug)]
pub struct ParsedSpoke {
    pub angle: u16,
    pub heading: Option<u16>,
    pub data: Vec<u8>,
}

/// The model of a spoke.
pub struct SpokeView {
    pub angle: u16,
    pub heading: Option<u16>,
    pub data: Seq<u8>,
}

impl View for ParsedSpoke {
    type V = SpokeView;

    open spec fn view(&self) -> SpokeView {
        SpokeView { angle: self.angle, heading: self.heading, data: self.data@ }
    }
}

/// The models of a run of spokes.
pub open spec fn spokes_view(spokes: Seq<ParsedSpoke>) -> Seq<SpokeView> {
    spokes.map_values(|s: ParsedSpoke| s@)
}

/// The length of the longest spoke.
pub open spec fn longest(spokes: Seq<SpokeView>) -> nat
    decreases spokes.len(),
{
    if spokes.len() == 0 {
        0
    } else {
        let before = longest(spokes.drop_last());
        if spokes.last().data.len() > before {
            spokes.last().data.len()
        } else {
            before
        }
    }
}

/// The strongest echo that any of the spokes has at distance `i`.
pub open spec fn strongest(spokes: Seq<SpokeView>, i: int) -> u8
    decreases spokes.len(),
{
    if spokes.len() == 0 {
        0
    } else {
        let before = strongest(spokes.drop_last(), i);
        let last = spokes.last().data;
        if i < last.len() && last[i] > before {
            last[i]
        } else {
            before
        }
    }
}

/// The one spoke that stands for `spokes`: at each distance the strongest echo
/// of them, under the heading of the first and its angle on the coarser scale.
pub open spec fn combined(spokes: Seq<SpokeView>) -> SpokeView {
    if spokes.len() == 0 {
        SpokeView { angle: 0, heading: None, data: Seq::empty() }
    } else {
        SpokeView {
            angle: spokes[0].angle / FURUNO_SPOKE_REDUCTION as u16,
            heading: spokes[0].heading,
            data: Seq::new(longest(spokes), |i: int| strongest(spokes, i)),
        }
    }
}

/// The state of reception for one radar.
#[derive(Debug)]
pub struct RadarSpokeState {
    /// The radar's id, such as `Furuno-RD003212`.
    pub radar_id: String,
    /// The numeric id for streamed messages.
    pub numeric_id: u32,
    /// The address that the radar sends from.
    pub source_ip: String,
    /// The previous spoke, against which the next one is decoded.
    pub prev_spoke: Vec<u8>,
    /// The current range in metres.
    pub current_range: u32,
    /// Spokes that wait to be merged.
    spoke_accumulator: Vec<ParsedSpoke>,
}

/// The model of a radar's reception.
pub struct SpokeStateView {
    pub radar_id: Seq<char>,
    pub numeric_id: u32,
    pub source_ip: Seq<char>,
    pub prev_spoke: Seq<u8>,
    pub current_range: u32,
    pub waiting: Seq<SpokeView>,
}

impl View for RadarSpokeState {
    type V = SpokeStateView;

    closed spec fn view(&self) -> SpokeStateView {
        SpokeStateView {
            radar_id: self.radar_id@,
            numeric_id: self.numeric_id,
            source_ip: self.source_ip@,
            prev_spoke: self.prev_spoke@,
            current_range: self.current_range,
            waiting: spokes_view(self.spoke_accumulator@),
        }
    }
}

/// What the decoder made of a frame. Of a frame without spokes only its length
/// is read further.
#[derive(Debug)]
pub struct FrameReport {
    /// How many bytes the frame has.
    pub len: usize,
    /// The frame carries spokes.
    pub spoke_frame: bool,
    /// The range that its header tells, in metres, where the header is sound.
    pub range: Option<u32>,
    /// The spokes in it, unless it could not be decoded.
    pub spokes: Option<Vec<ParsedSpoke>>,
    /// The previous spoke, as the decoder has left it.
    pub prev_spoke: Vec<u8>,
}

/// The model of a frame report.
pub struct FrameView {
    pub len: usize,
    pub spoke_frame: bool,
    pub range: Option<u32>,
    pub spokes: Option<Seq<SpokeView>>,
    pub prev_spoke: Seq<u8>,
}

impl View for FrameReport {
    type V = FrameView;

    open spec fn view(&self) -> FrameView {
        FrameView {
            len: self.len,
            spoke_frame: self.spoke_frame,
            range: self.range,
            spokes: match self.spokes {
                Some(s) => Some(spokes_view(s@)),
                None => None,
            },
            prev_spoke: self.prev_spoke@,
        }
    }
}

/// Spokes that are ready to be encoded and streamed.
#[derive(Debug)]
pub struct SpokeBatch {
    pub radar_id: String,
    pub numeric_id: u32,
    pub range: u32,
    pub spokes: Vec<ParsedSpoke>,
}

/// The model of a batch.
pub struct BatchView {
    pub radar_id: Seq<char>,
    pub numeric_id: u32,
    pub range: u32,
    pub spokes: Seq<SpokeView>,
}

impl View for SpokeBatch {
    type V = BatchView;

    open spec fn view(&self) -> BatchView {
        BatchView {
            radar_id: self.radar_id@,
            numeric_id: self.numeric_id,
            range: self.range,
            spokes: spokes_view(self.spokes@),
        }
    }
}

/// How many full groups a run of spokes holds.
pub open spec fn group_count(spokes: Seq<SpokeView>) -> nat {
    spokes.len() / FURUNO_SPOKE_REDUCTION as nat
}

/// The spokes that stand for the full groups of a run, one for each.
pub open spec fn merged(spokes: Seq<SpokeView>) -> Seq<SpokeView> {
    Seq::new(
        group_count(spokes),
        |k: int|
            combined(
                spokes.subrange(
                    k * FURUNO_SPOKE_REDUCTION,
                    (k + 1) * FURUNO_SPOKE_REDUCTION,
                ),
            ),
    )
}

/// The spokes behind the last full group.
pub open spec fn left_over(spokes: Seq<SpokeView>) -> Seq<SpokeView> {
    spokes.skip(group_count(spokes) * FURUNO_SPOKE_REDUCTION)
}

/// The range after a frame: the one that its header tells, unless that is 0.
pub open spec fn range_after(range: u32, told: Option<u32>) -> u32 {
    match told {
        Some(r) => if r > 0 {
            r
        } else {
            range
        },
        None => range,
    }
}

/// What a frame does to a radar's reception, and the batch that it completes.
pub open spec fn after_frame(radar: SpokeStateView, frame: FrameView) -> (
    SpokeStateView,
    Option<BatchView>,
) {
    if !frame.spoke_frame {
        (radar, None)
    } else {
        let range = range_after(radar.current_range, frame.range);
        let decoded = SpokeStateView {
            prev_spoke: frame.prev_spoke,
            current_range: range,
            ..radar
        };
        match frame.spokes {
            None => (decoded, None),
            Some(spokes) => if spokes.len() == 0 {
                (decoded, None)
            } else {
                let all = radar.waiting + spokes;
                let next = SpokeStateView { waiting: left_over(all), ..decoded };
                if group_count(all) == 0 {
                    (next, None)
                } else {
                    (
                        next,
                        Some(
                            BatchView {
                                radar_id: radar.radar_id,
                                numeric_id: radar.numeric_id,
                                range,
                                spokes: merged(all),
                            },
                        ),
                    )
                }
            },
        }
    }
}

/// The numeric id of a radar: the first four bytes of its id as a number, most
/// significant first.
pub open spec fn leading_number(bytes: Seq<u8>, count: nat) -> int
    decreases count,
{
    if count == 0 {
        0
    } else {
        let before = leading_number(bytes, (count - 1) as nat);
        if count <= bytes.len() {
            before * 256 + bytes[count - 1]
        } else {
            before
        }
    }
}

/// The numeric id of a radar, from its id.
pub open spec fn numeric_id_of(radar_id: Seq<char>) -> int {
    leading_number(encode_utf8(radar_id), 4)
}

/// The numeric id of a radar: the first four bytes of its id.
pub fn numeric_id(radar_id: &str) -> (id: u32)
    ensures
        id == numeric_id_of(radar_id@),
{
    let bytes = radar_id.as_bytes();
    let mut id: u64 = 0;
    let mut i: usize = 0;
    while i < 4
        invariant
            i <= 4,
            bytes@ == encode_utf8(radar_id@),
            id == leading_number(bytes@, i as nat),
            i == 0 ==> id == 0,
            i == 1 ==> id <= 0xff,
            i == 2 ==> id <= 0xffff,
            i == 3 ==> id <= 0xff_ffff,
            id <= 0xffff_ffff,
        decreases 4 - i,
    {
        if i < bytes.len() {
            id = id * 256 + bytes[i] as u64;
        }
        i += 1;
    }
    id as u32
}

/// Which reply opening the spoke socket waits for.
#[derive(Clone, Copy, PartialEq, Eq, Structural, Debug)]
pub enum ListenStep {
    /// The socket is being made.
    Create,
    /// The socket is being bound.
    Bind { socket: i32 },
    /// The socket is joining the multicast group.
    Join { socket: i32 },
}

/// What is counted so that the log tells of reception now and then.
#[derive(Clone, Copy, PartialEq, Eq, Structural, Debug)]
pub struct SpokeLog {
    /// How often datagrams were looked for.
    pub poll_count: u64,
    /// At which of these times an unknown sender was last logged.
    pub last_log: u64,
    /// How many frames came from tracked radars.
    pub frame_count: u64,
    /// How many batches reached a client.
    pub emit_success: u64,
    /// How many batches reached none.
    pub emit_fail: u64,
}

/// Nothing counted yet.
pub open spec fn empty_log() -> SpokeLog {
    SpokeLog { poll_count: 0, last_log: 0, frame_count: 0, emit_success: 0, emit_fail: 0 }
}

/// The polls that pass before an unknown sender is logged again.
pub const UNKNOWN_LOG_INTERVAL: u64 = 100;

/// The polls between two lines that sum up a poll.
pub const POLL_LOG_INTERVAL: u64 = 500;

/// The frames between two looks whether one without spokes is logged.
pub const STRAY_LOG_INTERVAL: u64 = 100;

/// The frames between two looks whether a batch is logged.
pub const BATCH_LOG_INTERVAL: u64 = 500;

/// So many failures are all logged.
pub const FIRST_FAILURES: u64 = 5;

/// The failures between two that are logged, after the first ones.
pub const FAILURE_LOG_INTERVAL: u64 = 100;

/// The line about a datagram from an unknown sender.
pub open spec fn unknown_line(packet: Packet, tracking: Seq<Seq<char>>) -> CallView {
    CallView::Debug {
        msg: "Spoke packet from unknown IP "@ + packet.addr@ + " (len="@ + decimal_text(
            packet.data@.len(),
        ) + "), tracking: "@ + debug_list_text(tracking),
    }
}

/// The line that sums up a poll.
pub open spec fn poll_line(
    count: nat,
    listening: bool,
    radars: nat,
    frames: nat,
    unknown: nat,
) -> CallView {
    CallView::Debug {
        msg: "SpokeReceiver poll #"@ + decimal_text(count) + ": socket="@ + truth_text(listening)
            + ", tracking "@ + decimal_text(radars) + " radars, frames="@ + decimal_text(frames)
            + ", unknown="@ + decimal_text(unknown),
    }
}

/// The line about a frame without spokes.
pub open spec fn stray_line(count: nat, len: nat) -> CallView {
    CallView::Debug {
        msg: "Frame #"@ + decimal_text(count) + " not a spoke frame (len="@ + decimal_text(len)
            + ")"@,
    }
}

/// The line about a batch of `spokes` spokes that was encoded in `bytes` bytes.
pub open spec fn batch_line(log: SpokeLog, spokes: nat, range: u32, bytes: nat) -> CallView {
    CallView::Debug {
        msg: "Frame #"@ + decimal_text(log.frame_count as nat) + ": "@ + decimal_text(spokes)
            + " combined spokes (from "@ + decimal_text(spokes * FURUNO_SPOKE_REDUCTION as nat)
            + "), range="@ + decimal_text(range as nat) + "m, protobuf="@ + decimal_text(bytes)
            + " bytes, emit success/fail="@ + decimal_text(log.emit_success as nat) + "/"@
            + decimal_text(log.emit_fail as nat),
    }
}

/// The line about a batch that reached no client.
pub open spec fn failure_line(radar_id: Seq<char>, count: nat) -> CallView {
    CallView::Debug {
        msg: "emit_radar_spokes failed for "@ + radar_id + " (fail #"@ + decimal_text(count)
            + ")"@,
    }
}

/// The datagrams that come from no tracked radar.
pub open spec fn strays(radars: Seq<SpokeStateView>, packets: Seq<Packet>) -> Seq<Packet>
    decreases packets.len(),
{
    if packets.len() == 0 {
        Seq::empty()
    } else {
        let before = strays(radars, packets.drop_last());
        let last = packets.last();
        match source_ips(radars).index_of_first(last.addr@) {
            Some(_) => before,
            None => before.push(last),
        }
    }
}

/// Reception of spokes for all radars.
#[derive(Debug)]
pub struct SpokeReceiver {
    /// The socket that Furuno spokes come in on.
    furuno_socket: Option<i32>,
    /// The Furuno radars that are tracked.
    furuno_radars: Vec<RadarSpokeState>,
    /// What was counted for the log.
    log: SpokeLog,
}

/// The model of reception.
pub struct ReceiverView {
    pub socket: Option<i32>,
    pub radars: Seq<SpokeStateView>,
    pub log: SpokeLog,
}

impl View for SpokeReceiver {
    type V = ReceiverView;

    closed spec fn view(&self) -> ReceiverView {
        ReceiverView {
            socket: self.furuno_socket,
            radars: self.furuno_radars@.map_values(|r: RadarSpokeState| r@),
            log: self.log,
        }
    }
}

/// The ids of the tracked radars.
pub open spec fn radar_ids(radars: Seq<SpokeStateView>) -> Seq<Seq<char>> {
    radars.map_values(|r: SpokeStateView| r.radar_id)
}

/// The addresses that the tracked radars send from.
pub open spec fn source_ips(radars: Seq<SpokeStateView>) -> Seq<Seq<char>> {
    radars.map_values(|r: SpokeStateView| r.source_ip)
}

impl ReceiverView {
    /// Reception is in order: no radar is tracked twice, and of none a full
    /// group of spokes waits.
    pub open spec fn wf(self) -> bool {
        &&& self.log.last_log <= self.log.poll_count
        &&& radar_ids(self.radars).no_duplicates()
        &&& forall|i: int|
            0 <= i < self.radars.len() ==> (#[trigger] self.radars[i]).waiting.len()
                < FURUNO_SPOKE_REDUCTION
    }

    /// Whether an unknown sender is logged in the next poll.
    pub open spec fn unknown_is_due(self) -> bool {
        self.log.poll_count + 1 - self.log.last_log > UNKNOWN_LOG_INTERVAL
    }

    /// After a poll that found these datagrams.
    pub open spec fn after_poll(self, packets: Seq<Packet>) -> ReceiverView {
        let count = (self.log.poll_count + 1) as u64;
        ReceiverView {
            log: SpokeLog {
                poll_count: count,
                last_log: if strays(self.radars, packets).len() > 0 && self.unknown_is_due() {
                    count
                } else {
                    self.log.last_log
                },
                ..self.log
            },
            ..self
        }
    }

    /// What is logged of a poll that found these datagrams: the first from an
    /// unknown sender, unless one was logged not long ago, and every
    /// [`POLL_LOG_INTERVAL`] polls a summary.
    pub open spec fn poll_lines(self, packets: Seq<Packet>) -> Seq<CallView> {
        let count = self.log.poll_count + 1;
        let unknown = strays(self.radars, packets);
        let first = if unknown.len() > 0 && self.unknown_is_due() {
            seq![unknown_line(unknown[0], source_ips(self.radars))]
        } else {
            Seq::empty()
        };
        if count % POLL_LOG_INTERVAL as int == 0 {
            first.push(
                poll_line(
                    count as nat,
                    self.socket is Some,
                    self.radars.len(),
                    routed(self.radars, packets).len(),
                    unknown.len(),
                ),
            )
        } else {
            first
        }
    }

    /// After a frame of the radar at `idx`.
    pub open spec fn after_frame_of(self, idx: int, frame: FrameView) -> ReceiverView {
        ReceiverView {
            radars: self.radars.update(idx, after_frame(self.radars[idx], frame).0),
            log: SpokeLog { frame_count: (self.log.frame_count + 1) as u64, ..self.log },
            ..self
        }
    }

    /// After a run of frames, one after the other.
    pub open spec fn after_frames_of(self, frames: Seq<(int, FrameView)>) -> ReceiverView
        decreases frames.len(),
    {
        if frames.len() == 0 {
            self
        } else {
            let (idx, frame) = frames.last();
            self.after_frames_of(frames.drop_last()).after_frame_of(idx, frame)
        }
    }

    /// What is logged of a frame: every [`STRAY_LOG_INTERVAL`] frames, one
    /// without spokes.
    pub open spec fn frame_line(self, frame: FrameView) -> Option<CallView> {
        let count = self.log.frame_count + 1;
        if !frame.spoke_frame && count % STRAY_LOG_INTERVAL as int == 0 {
            Some(stray_line(count as nat, frame.len as nat))
        } else {
            None
        }
    }

    /// After a batch was streamed.
    pub open spec fn after_emission(self, delivered: bool) -> ReceiverView {
        ReceiverView {
            log: if delivered {
                SpokeLog {
                    emit_success: if self.log.emit_success == u64::MAX {
                        0
                    } else {
                        (self.log.emit_success + 1) as u64
                    },
                    ..self.log
                }
            } else {
                SpokeLog { emit_fail: (self.log.emit_fail + 1) as u64, ..self.log }
            },
            ..self
        }
    }

    /// What is logged of a batch that was streamed: the first failures, and
    /// every [`FAILURE_LOG_INTERVAL`]th.
    pub open spec fn emission_line(self, radar_id: Seq<char>, delivered: bool) -> Option<CallView> {
        let count = self.log.emit_fail + 1;
        if !delivered && (count <= FIRST_FAILURES || count % FAILURE_LOG_INTERVAL as int == 0) {
            Some(failure_line(radar_id, count as nat))
        } else {
            None
        }
    }

    /// After a reply on the way to the open spoke socket: a socket that has
    /// joined is in use.
    pub open spec fn after_listen(self, step: ListenStep, reply: i32) -> ReceiverView {
        match step {
            ListenStep::Join { socket } => if reply >= 0 {
                ReceiverView { socket: Some(socket), ..self }
            } else {
                self
            },
            _ => self,
        }
    }
}

/// The step that follows a reply on the way to the open spoke socket: after the
/// socket is made it is bound, and then it joins the multicast group.
pub open spec fn listen_next(step: ListenStep, reply: i32) -> Option<ListenStep> {
    match step {
        ListenStep::Create => if reply >= 0 {
            Some(ListenStep::Bind { socket: reply })
        } else {
            None
        },
        ListenStep::Bind { socket } => if reply >= 0 {
            Some(ListenStep::Join { socket })
        } else {
            None
        },
        ListenStep::Join { socket: _ } => None,
    }
}

/// The call that follows a reply on the way to the open spoke socket. A socket
/// that cannot be bound or cannot join is closed.
pub open spec fn listen_call(step: ListenStep, reply: i32, port: u16, group: Seq<char>) -> Option<
    CallView,
> {
    match step {
        ListenStep::Create => if reply >= 0 {
            Some(CallView::UdpBind { socket: reply, port })
        } else {
            None
        },
        ListenStep::Bind { socket } => if reply >= 0 {
            Some(CallView::UdpJoinMulticast { socket, group, interface: ""@ })
        } else {
            Some(CallView::UdpClose { socket })
        },
        ListenStep::Join { socket } => if reply >= 0 {
            None
        } else {
            Some(CallView::UdpClose { socket })
        },
    }
}

/// A radar whose tracking has just begun.
pub open spec fn fresh_radar(radar_id: Seq<char>, source_ip: Seq<char>) -> SpokeStateView {
    SpokeStateView {
        radar_id,
        numeric_id: numeric_id_of(radar_id) as u32,
        source_ip,
        prev_spoke: Seq::empty(),
        current_range: DEFAULT_RANGE,
        waiting: Seq::empty(),
    }
}

/// A datagram and the address that it came from.
#[derive(Debug)]
pub struct Packet {
    pub data: Vec<u8>,
    pub addr: String,
}

/// The datagrams of tracked radars, each with the position of its radar.
pub open spec fn routed(radars: Seq<SpokeStateView>, packets: Seq<Packet>) -> Seq<(Seq<u8>, int)>
    decreases packets.len(),
{
    if packets.len() == 0 {
        Seq::empty()
    } else {
        let before = routed(radars, packets.drop_last());
        let last = packets.last();
        match source_ips(radars).index_of_first(last.addr@) {
            Some(i) => before.push((last.data@, i)),
            None => before,
        }
    }
}

/// What a run of frames does to reception: the radars afterwards, and the
/// batches that were completed, in order.
pub open spec fn after_frames(
    radars: Seq<SpokeStateView>,
    frames: Seq<(int, FrameView)>,
) -> (Seq<SpokeStateView>, Seq<BatchView>)
    decreases frames.len(),
{
    if frames.len() == 0 {
        (radars, Seq::empty())
    } else {
        let (before, batches) = after_frames(radars, frames.drop_last());
        let (idx, frame) = frames.last();
        let (radar, batch) = after_frame(before[idx], frame);
        (
            before.update(idx, radar),
            match batch {
                Some(b) => batches.push(b),
                None => batches,
            },
        )
    }
}

/// The models of a run of batches.
pub open spec fn batches_view(batches: Seq<SpokeBatch>) -> Seq<BatchView> {
    batches.map_values(|b: SpokeBatch| b@)
}

/// How many spokes reached a client: those of the batches that were delivered.
pub open spec fn delivered_spokes(batches: Seq<BatchView>, delivered: Seq<bool>) -> int
    decreases batches.len(),
{
    if batches.len() == 0 {
        0
    } else {
        delivered_spokes(batches.drop_last(), delivered.drop_last()) + if delivered.last() {
            batches.last().spokes.len() as int
        } else {
            0
        }
    }
}

impl Default for SpokeReceiver {
    fn default() -> (receiver: SpokeReceiver)
        ensures
            receiver@.wf(),
            receiver@.socket is None,
            receiver@.radars.len() == 0,
            receiver@.log == empty_log(),
    {
        SpokeReceiver::new()
    }
}

impl SpokeReceiver {
    #[verifier::type_invariant]
    spec fn in_order(self) -> bool {
        self@.wf()
    }

    /// Reception of nothing yet.
    pub fn new() -> (receiver: SpokeReceiver)
        ensures
            receiver@.wf(),
            receiver@.socket is None,
            receiver@.radars.len() == 0,
            receiver@.log == empty_log(),
    {
        let log = SpokeLog {
            poll_count: 0,
            last_log: 0,
            frame_count: 0,
            emit_success: 0,
            emit_fail: 0,
        };
        SpokeReceiver { furuno_socket: None, furuno_radars: Vec::new(), log }
    }

    /// The socket that spokes come in on.
    pub fn furuno_socket(&self) -> (socket: Option<i32>)
        ensures
            socket == self@.socket,
    {
        self.furuno_socket
    }

    /// What was counted for the log.
    pub fn log(&self) -> (log: SpokeLog)
        ensures
            log == self@.log,
    {
        self.log
    }

    /// How many radars are tracked.
    pub fn radar_count(&self) -> (n: usize)
        ensures
            n == self@.radars.len(),
    {
        self.furuno_radars.len()
    }

    /// The previous spoke of a radar, for the decoder.
    pub fn prev_spoke(&self, radar_idx: usize) -> (prev: &Vec<u8>)
        requires
            radar_idx < self@.radars.len(),
        ensures
            prev@ == self@.radars[radar_idx as int].prev_spoke,
    {
        &self.furuno_radars[radar_idx].prev_spoke
    }

    /// Starts to listen for Furuno spokes, unless the socket is open already.
    /// [`SpokeReceiver::listen_reply`] takes the reply.
    pub fn start_furuno(&self) -> (start: Option<(ListenStep, Call)>)
        ensures
            match start {
                Some((step, call)) => {
                    &&& self@.socket is None
                    &&& step == ListenStep::Create
                    &&& call@ == (CallView::UdpCreate { socket_type: 0 })
                },
                None => self@.socket is Some,
            },
    {
        if self.furuno_socket.is_some() {
            return None;
        }
        Some((ListenStep::Create, HostCall::UdpCreate { socket_type: 0 }))
    }

    /// Goes on opening the spoke socket with the reply that `step` waited for:
    /// the socket is bound to `port`, then joins `group` on the default
    /// interface, and is then in use. One that cannot be bound or cannot join
    /// is closed.
    pub fn listen_reply(&mut self, step: ListenStep, reply: i32, port: u16, group: &str) -> (next: (
        Option<ListenStep>,
        Option<Call>,
    ))
        ensures
            final(self)@.wf(),
            final(self)@ == old(self)@.after_listen(step, reply),
            next.0 == listen_next(step, reply),
            match next.1 {
                Some(c) => listen_call(step, reply, port, group@) == Some(c@),
                None => listen_call(step, reply, port, group@) is None,
            },
    {
        proof {
            use_type_invariant(&*self);
        }
        match step {
            ListenStep::Create => if reply >= 0 {
                (
                    Some(ListenStep::Bind { socket: reply }),
                    Some(HostCall::UdpBind { socket: reply, port }),
                )
            } else {
                (None, None)
            },
            ListenStep::Bind { socket } => if reply >= 0 {
                (
                    Some(ListenStep::Join { socket }),
                    Some(
                        HostCall::UdpJoinMulticast {
                            socket,
                            group: group.to_owned(),
                            interface: "".to_owned(),
                        },
                    ),
                )
            } else {
                (None, Some(HostCall::UdpClose { socket }))
            },
            ListenStep::Join { socket } => if reply >= 0 {
                self.furuno_socket = Some(socket);
                (None, None)
            } else {
                (None, Some(HostCall::UdpClose { socket }))
            },
        }
    }

    /// Tracks a Furuno radar, unless it is tracked already, and starts to
    /// listen where nothing listens yet.
    pub fn add_furuno_radar(&mut self, radar_id: &str, source_ip: &str) -> (start: Option<
        (ListenStep, Call),
    >)
        ensures
            final(self)@.wf(),
            final(self)@.socket == old(self)@.socket,
            final(self)@.log == old(self)@.log,
            final(self)@.radars == if radar_ids(old(self)@.radars).contains(radar_id@) {
                old(self)@.radars
            } else {
                old(self)@.radars.push(fresh_radar(radar_id@, source_ip@))
            },
            match start {
                Some((step, call)) => {
                    &&& !radar_ids(old(self)@.radars).contains(radar_id@)
                    &&& old(self)@.socket is None
                    &&& step == ListenStep::Create
                    &&& call@ == (CallView::UdpCreate { socket_type: 0 })
                },
                None => radar_ids(old(self)@.radars).contains(radar_id@)
                    || old(self)@.socket is Some,
            },
    {
        proof {
            use_type_invariant(&*self);
        }
        let n: usize = self.furuno_radars.len();
        let mut i: usize = 0;
        while i < n
            invariant
                i <= n,
                n == self@.radars.len(),
                self@.wf(),
                *self == *old(self),
                forall|k: int| 0 <= k < i ==> radar_ids(self@.radars)[k] != radar_id@,
            decreases n - i,
        {
            assert(radar_ids(self@.radars)[i as int] == self.furuno_radars@[i as int].radar_id@);
            if str_eq(self.furuno_radars[i].radar_id.as_str(), radar_id) {
                return None;
            }
            i += 1;
        }
        assert(!radar_ids(self@.radars).contains(radar_id@));
        let radar = RadarSpokeState {
            radar_id: radar_id.to_owned(),
            numeric_id: numeric_id(radar_id),
            source_ip: source_ip.to_owned(),
            prev_spoke: Vec::new(),
            current_range: DEFAULT_RANGE,
            spoke_accumulator: Vec::new(),
        };
        assert(radar@.waiting =~= Seq::<SpokeView>::empty());
        assert(radar@ == fresh_radar(radar_id@, source_ip@));
        let mut radars: Vec<RadarSpokeState> = Vec::new();
        std::mem::swap(&mut radars, &mut self.furuno_radars);
        radars.push(radar);
        proof {
            law_tracked_once(old(self)@.radars, radar_id@, source_ip@);
            assert(radars@.map_values(|r: RadarSpokeState| r@) =~= old(self)@.radars.push(
                fresh_radar(radar_id@, source_ip@),
            ));
        }
        self.furuno_radars = radars;
        self.start_furuno()
    }

    /// The position of the radar that sends from `addr`.
    pub fn route(&self, addr: &str) -> (idx: Option<usize>)
        ensures
            match idx {
                Some(i) => i < self@.radars.len() && source_ips(self@.radars).index_of_first(addr@)
                    == Some(i as int),
                None => source_ips(self@.radars).index_of_first(addr@) is None,
            },
    {
        let n: usize = self.furuno_radars.len();
        let ghost ips = source_ips(self@.radars);
        let mut i: usize = 0;
        while i < n
            invariant
                i <= n,
                n == self@.radars.len(),
                ips == source_ips(self@.radars),
                forall|k: int| 0 <= k < i ==> ips[k] != addr@,
            decreases n - i,
        {
            assert(ips[i as int] == self.furuno_radars@[i as int].source_ip@);
            if str_eq(self.furuno_radars[i].source_ip.as_str(), addr) {
                proof {
                    lemma_first_at(ips, addr@, i as int);
                }
                return Some(i);
            }
            i += 1;
        }
        proof {
            lemma_first_nowhere(ips, addr@);
        }
        None
    }

    /// Takes in the datagrams that were found: those of tracked radars are
    /// handed out, each with the position of its radar, and the others are
    /// dropped. The second result is what is logged.
    pub fn poll(&mut self, packets: Vec<Packet>) -> (found: (Vec<(Vec<u8>, usize)>, Vec<Call>))
        requires
            packets@.len() <= u32::MAX,
            old(self)@.log.poll_count < u64::MAX,
        ensures
            final(self)@.wf(),
            final(self)@ == old(self)@.after_poll(packets@),
            found.0@.map_values(|f: (Vec<u8>, usize)| (f.0@, f.1 as int)) == routed(
                old(self)@.radars,
                packets@,
            ),
            forall|i: int|
                0 <= i < found.0@.len() ==> (#[trigger] found.0@[i]).1 < old(self)@.radars.len(),
            calls_view(found.1@) == old(self)@.poll_lines(packets@),
    {
        proof {
            use_type_invariant(&*self);
        }
        let ghost start = self@;
        let ghost shown = |f: (Vec<u8>, usize)| (f.0@, f.1 as int);
        let count: u64 = self.log.poll_count + 1;
        let due: bool = count - self.log.last_log > UNKNOWN_LOG_INTERVAL;
        let mut frames: Vec<(Vec<u8>, usize)> = Vec::new();
        let mut lines: Vec<Call> = Vec::new();
        let mut unknown: u32 = 0;
        let mut i: usize = 0;
        assert(frames@.map_values(shown) =~= routed(start.radars, packets@.take(0)));
        assert(calls_view(lines@) =~= Seq::<CallView>::empty());
        while i < packets.len()
            invariant
                i <= packets@.len() <= u32::MAX,
                *self == *old(self),
                start == self@,
                shown == |f: (Vec<u8>, usize)| (f.0@, f.1 as int),
                due == start.unknown_is_due(),
                frames@.map_values(shown) == routed(start.radars, packets@.take(i as int)),
                forall|k: int|
                    0 <= k < frames@.len() ==> (#[trigger] frames@[k]).1 < start.radars.len(),
                unknown == strays(start.radars, packets@.take(i as int)).len(),
                unknown <= i,
                calls_view(lines@) == if unknown > 0 && due {
                    seq![
                        unknown_line(
                            strays(start.radars, packets@.take(i as int))[0],
                            source_ips(start.radars),
                        ),
                    ]
                } else {
                    Seq::empty()
                },
            decreases packets@.len() - i,
        {
            let ghost before = frames@;
            let ghost said = lines@;
            proof {
                assert(packets@.take(i + 1).drop_last() =~= packets@.take(i as int));
                assert(packets@.take(i + 1).last() == packets@[i as int]);
            }
            match self.route(packets[i].addr.as_str()) {
                Some(idx) => {
                    let data = vstd::slice::slice_to_vec(packets[i].data.as_slice());
                    frames.push((data, idx));
                    assert(frames@.map_values(shown) =~= before.map_values(shown).push(
                        (packets@[i as int].data@, idx as int),
                    ));
                },
                None => {
                    if unknown == 0 && due {
                        let line = self.unknown_call(&packets[i]);
                        lines.push(line);
                        assert(calls_view(lines@) =~= seq![line@]);
                    }
                    unknown = unknown + 1;
                },
            }
            i += 1;
        }
        assert(packets@.take(packets@.len() as int) =~= packets@);
        if count % POLL_LOG_INTERVAL == 0 {
            let ghost said = lines@;
            let line = self.poll_call(count, frames.len(), unknown);
            lines.push(line);
            assert(calls_view(lines@) =~= calls_view(said).push(line@));
            assert(frames@.map_values(shown).len() == frames@.len());
        }
        let mut log = self.log;
        log.poll_count = count;
        if unknown > 0 && due {
            log.last_log = count;
        }
        self.log = log;
        (frames, lines)
    }

    fn unknown_call(&self, packet: &Packet) -> (line: Call)
        ensures
            line@ == unknown_line(*packet, source_ips(self@.radars)),
    {
        let mut tracking: Vec<&str> = Vec::new();
        let n: usize = self.furuno_radars.len();
        let mut i: usize = 0;
        while i < n
            invariant
                i <= n,
                n == self.furuno_radars@.len(),
                tracking@.len() == i,
                forall|k: int|
                    0 <= k < i ==> (#[trigger] tracking@[k])@ == self.furuno_radars@[k].source_ip@,
            decreases n - i,
        {
            tracking.push(self.furuno_radars[i].source_ip.as_str());
            i += 1;
        }
        assert(tracking@.map_values(|s: &str| s@) =~= source_ips(self@.radars));
        let mut msg = "Spoke packet from unknown IP ".to_owned();
        msg.append(packet.addr.as_str());
        msg.append(" (len=");
        msg.append(decimal(packet.data.len() as u64).as_str());
        msg.append("), tracking: ");
        msg.append(debug_list(&tracking).as_str());
        debug(msg.as_str())
    }

    fn poll_call(&self, count: u64, frames: usize, unknown: u32) -> (line: Call)
        ensures
            line@ == poll_line(
                count as nat,
                self@.socket is Some,
                self@.radars.len(),
                frames as nat,
                unknown as nat,
            ),
    {
        let mut msg = "SpokeReceiver poll #".to_owned();
        msg.append(decimal(count).as_str());
        msg.append(": socket=");
        msg.append(truth(self.furuno_socket.is_some()).as_str());
        msg.append(", tracking ");
        msg.append(decimal(self.furuno_radars.len() as u64).as_str());
        msg.append(" radars, frames=");
        msg.append(decimal(frames as u64).as_str());
        msg.append(", unknown=");
        msg.append(decimal(unknown as u64).as_str());
        debug(msg.as_str())
    }

    /// Merges spokes into one with the strongest echo at each distance, so
    /// that no target is lost.
    pub fn combine_spokes(spokes: &[ParsedSpoke]) -> (one: ParsedSpoke)
        ensures
            one@ == combined(spokes_view(spokes@)),
    {
        let n: usize = spokes.len();
        let ghost all = spokes_view(spokes@);
        if n == 0 {
            let one = ParsedSpoke { angle: 0, heading: None, data: Vec::new() };
            assert(one@.data =~= Seq::<u8>::empty());
            return one;
        }
        let angle: u16 = spokes[0].angle / 16;
        let heading = spokes[0].heading;
        let mut max_len: usize = 0;
        let mut k: usize = 0;
        while k < n
            invariant
                k <= n,
                n == spokes@.len(),
                all == spokes_view(spokes@),
                max_len == longest(all.take(k as int)),
            decreases n - k,
        {
            proof {
                assert(all.take(k + 1).drop_last() =~= all.take(k as int));
                assert(all.take(k + 1).last() == spokes@[k as int]@);
            }
            let len: usize = spokes[k].data.len();
            if len > max_len {
                max_len = len;
            }
            k += 1;
        }
        assert(all.take(n as int) =~= all);
        let mut data: Vec<u8> = vec![0u8;max_len];
        let mut k: usize = 0;
        while k < n
            invariant
                k <= n,
                n == spokes@.len(),
                all == spokes_view(spokes@),
                data@.len() == max_len,
                max_len == longest(all),
                forall|i: int|
                    0 <= i < max_len ==> #[trigger] data@[i] == strongest(all.take(k as int), i),
            decreases n - k,
        {
            let ghost before = all.take(k as int);
            let ghost after = all.take(k + 1);
            proof {
                assert(after.drop_last() =~= before);
                assert(after.last() == spokes@[k as int]@);
                assert(all[k as int] == spokes@[k as int]@);
                lemma_longest(all, k as int);
            }
            let len: usize = spokes[k].data.len();
            let mut i: usize = 0;
            while i < len
                invariant
                    i <= len <= max_len,
                    k < n,
                    n == spokes@.len(),
                    len == spokes@[k as int].data@.len(),
                    data@.len() == max_len,
                    after.len() > 0,
                    after.drop_last() == before,
                    after.last() == spokes@[k as int]@,
                    forall|j: int|
                        0 <= j < max_len ==> #[trigger] data@[j] == if j < i {
                            strongest(after, j)
                        } else {
                            strongest(before, j)
                        },
                decreases len - i,
            {
                let pixel: u8 = spokes[k].data[i];
                if pixel > data[i] {
                    data.set(i, pixel);
                }
                i += 1;
            }
            k += 1;
        }
        let one = ParsedSpoke { angle, heading, data };
        assert(one@.data =~= combined(all).data);
        one
    }

    /// Takes in what the decoder made of a frame from the radar at
    /// `radar_idx`. Once enough spokes have come together, they are merged
    /// into a batch. The second result is what is logged.
    pub fn process_furuno_frame(&mut self, radar_idx: usize, frame: FrameReport) -> (out: (
        Option<SpokeBatch>,
        Option<Call>,
    ))
        requires
            radar_idx < old(self)@.radars.len(),
            old(self)@.log.frame_count < u64::MAX,
        ensures
            final(self)@.wf(),
            final(self)@ == old(self)@.after_frame_of(radar_idx as int, frame@),
            match out.0 {
                Some(b) => after_frame(old(self)@.radars[radar_idx as int], frame@).1 == Some(b@),
                None => after_frame(old(self)@.radars[radar_idx as int], frame@).1 is None,
            },
            match out.1 {
                Some(c) => old(self)@.frame_line(frame@) == Some(c@),
                None => old(self)@.frame_line(frame@) is None,
            },
    {
        proof {
            use_type_invariant(&*self);
        }
        let ghost before = self@.radars;
        let ghost idx = radar_idx as int;
        let ghost after = before.update(idx, after_frame(before[idx], frame@).0);
        let count: u64 = self.log.frame_count + 1;
        let line = if !frame.spoke_frame && count % STRAY_LOG_INTERVAL == 0 {
            let mut msg = "Frame #".to_owned();
            msg.append(decimal(count).as_str());
            msg.append(" not a spoke frame (len=");
            msg.append(decimal(frame.len as u64).as_str());
            msg.append(")");
            Some(debug(msg.as_str()))
        } else {
            None
        };
        let mut radars: Vec<RadarSpokeState> = Vec::new();
        std::mem::swap(&mut radars, &mut self.furuno_radars);
        let batch = radars[radar_idx].take_frame(frame);
        proof {
            law_spokes_are_conserved(before[idx], frame@);
            assert(radar_ids(after) =~= radar_ids(before));
            assert(radars@.map_values(|r: RadarSpokeState| r@) =~= after);
        }
        self.furuno_radars = radars;
        let mut log = self.log;
        log.frame_count = count;
        self.log = log;
        (batch, line)
    }

    /// What is logged of a batch of the last frame that was encoded in `bytes`
    /// bytes: every [`BATCH_LOG_INTERVAL`] frames a summary.
    pub fn batch_encoded(&self, batch: &SpokeBatch, bytes: usize) -> (line: Option<Call>)
        requires
            batch.spokes@.len() * FURUNO_SPOKE_REDUCTION <= usize::MAX,
        ensures
            match line {
                Some(c) => self@.log.frame_count % BATCH_LOG_INTERVAL == 0 && c@ == batch_line(
                    self@.log,
                    batch.spokes@.len(),
                    batch.range,
                    bytes as nat,
                ),
                None => self@.log.frame_count % BATCH_LOG_INTERVAL != 0,
            },
    {
        if self.log.frame_count % BATCH_LOG_INTERVAL != 0 {
            return None;
        }
        let spokes: usize = batch.spokes.len();
        let mut msg = "Frame #".to_owned();
        msg.append(decimal(self.log.frame_count).as_str());
        msg.append(": ");
        msg.append(decimal(spokes as u64).as_str());
        msg.append(" combined spokes (from ");
        msg.append(decimal((spokes * FURUNO_SPOKE_REDUCTION) as u64).as_str());
        msg.append("), range=");
        msg.append(decimal(batch.range as u64).as_str());
        msg.append("m, protobuf=");
        msg.append(decimal(bytes as u64).as_str());
        msg.append(" bytes, emit success/fail=");
        msg.append(decimal(self.log.emit_success).as_str());
        msg.append("/");
        msg.append(decimal(self.log.emit_fail).as_str());
        Some(debug(msg.as_str()))
    }

    /// Counts a batch that was streamed, by whether it was delivered. The
    /// result is what is logged.
    pub fn batch_emitted(&mut self, batch: &SpokeBatch, delivered: bool) -> (line: Option<Call>)
        requires
            old(self)@.log.emit_fail < u64::MAX,
        ensures
            final(self)@.wf(),
            final(self)@ == old(self)@.after_emission(delivered),
            match line {
                Some(c) => old(self)@.emission_line(batch.radar_id@, delivered) == Some(c@),
                None => old(self)@.emission_line(batch.radar_id@, delivered) is None,
            },
    {
        proof {
            use_type_invariant(&*self);
        }
        let mut log = self.log;
        if delivered {
            log.emit_success = if log.emit_success == u64::MAX {
                0
            } else {
                log.emit_success + 1
            };
            self.log = log;
            return None;
        }
        log.emit_fail = log.emit_fail + 1;
        self.log = log;
        if log.emit_fail <= FIRST_FAILURES || log.emit_fail % FAILURE_LOG_INTERVAL == 0 {
            let mut msg = "emit_radar_spokes failed for ".to_owned();
            msg.append(batch.radar_id.as_str());
            msg.append(" (fail #");
            msg.append(decimal(log.emit_fail).as_str());
            msg.append(")");
            Some(debug(msg.as_str()))
        } else {
            None
        }
    }

    /// How many spokes reached a client, when `delivered` says of each batch
    /// whether it did.
    pub fn count_delivered(batches: &Vec<SpokeBatch>, delivered: &Vec<bool>) -> (n: u32)
        requires
            batches@.len() == delivered@.len(),
            delivered_spokes(batches_view(batches@), delivered@) <= u32::MAX,
        ensures
            n == delivered_spokes(batches_view(batches@), delivered@),
    {
        let ghost all = batches_view(batches@);
        let mut n: u32 = 0;
        let mut i: usize = 0;
        while i < batches.len()
            invariant
                i <= batches@.len(),
                batches@.len() == delivered@.len(),
                all == batches_view(batches@),
                delivered_spokes(all, delivered@) <= u32::MAX,
                n == delivered_spokes(all.take(i as int), delivered@.take(i as int)),
            decreases batches@.len() - i,
        {
            proof {
                assert(all.take(i + 1).drop_last() =~= all.take(i as int));
                assert(delivered@.take(i + 1).drop_last() =~= delivered@.take(i as int));
                assert(all.take(i + 1).last() == batches@[i as int]@);
                lemma_delivered_grows(all, delivered@, i + 1);
            }
            if delivered[i] {
                n = n + batches[i].spokes.len() as u32;
            }
            i += 1;
        }
        proof {
            assert(all.take(batches@.len() as int) =~= all);
            assert(delivered@.take(batches@.len() as int) =~= delivered@);
        }
        n
    }

    /// Closes the spoke socket and forgets all radars.
    pub fn shutdown(&mut self) -> (call: Option<Call>)
        ensures
            match call {
                Some(c) => old(self)@.socket matches Some(socket) && c@ == (CallView::UdpClose {
                    socket,
                }),
                None => old(self)@.socket is None,
            },
            final(self)@.wf(),
            final(self)@.socket is None,
            final(self)@.radars.len() == 0,
            final(self)@.log == old(self)@.log,
    {
        proof {
            use_type_invariant(&*self);
        }
        let call = match self.furuno_socket {
            Some(socket) => Some(HostCall::UdpClose { socket }),
            None => None,
        };
        self.furuno_socket = None;
        self.furuno_radars = Vec::new();
        call
    }
}

impl RadarSpokeState {
    fn take_frame(&mut self, frame: FrameReport) -> (batch: Option<SpokeBatch>)
        ensures
            final(self)@ == after_frame(old(self)@, frame@).0,
            match batch {
                Some(b) => after_frame(old(self)@, frame@).1 == Some(b@),
                None => after_frame(old(self)@, frame@).1 is None,
            },
    {
        if !frame.spoke_frame {
            return None;
        }
        if let Some(range) = frame.range {
            if range > 0 {
                self.current_range = range;
            }
        }
        self.prev_spoke = frame.prev_spoke;
        let mut spokes = match frame.spokes {
            Some(s) => s,
            None => {
                return None;
            },
        };
        if spokes.len() == 0 {
            return None;
        }
        let ghost all = old(self)@.waiting + spokes_view(spokes@);
        self.spoke_accumulator.append(&mut spokes);
        assert(spokes_view(self.spoke_accumulator@) =~= all);
        let mut out: Vec<ParsedSpoke> = Vec::new();
        let ghost mut done: int = 0;
        assert(all.skip(0) =~= all);
        while self.spoke_accumulator.len() >= FURUNO_SPOKE_REDUCTION
            invariant
                0 <= done,
                done * 16 <= all.len(),
                self.radar_id == old(self).radar_id,
                self.numeric_id == old(self).numeric_id,
                self.source_ip == old(self).source_ip,
                self.prev_spoke@ == frame.prev_spoke@,
                self.current_range == range_after(old(self).current_range, frame.range),
                spokes_view(self.spoke_accumulator@) == all.skip(done * 16),
                out@.len() == done,
                forall|k: int|
                    0 <= k < done ==> (#[trigger] out@[k])@ == combined(
                        all.subrange(k * 16, (k + 1) * 16),
                    ),
            decreases self.spoke_accumulator@.len(),
        {
            let ghost acc = self.spoke_accumulator@;
            assert(spokes_view(acc).len() == acc.len());
            let rest = self.spoke_accumulator.split_off(16);
            let one = SpokeReceiver::combine_spokes(self.spoke_accumulator.as_slice());
            assert(spokes_view(self.spoke_accumulator@) =~= all.subrange(
                done * 16,
                (done + 1) * 16,
            ));
            out.push(one);
            self.spoke_accumulator = rest;
            proof {
                assert(spokes_view(self.spoke_accumulator@) =~= spokes_view(acc).skip(16));
                assert(all.skip(done * 16).skip(16) =~= all.skip((done + 1) * 16));
                done = done + 1;
            }
        }
        proof {
            assert(spokes_view(self.spoke_accumulator@).len() == self.spoke_accumulator@.len());
            assert(done == group_count(all));
            assert(spokes_view(out@) =~= merged(all));
        }
        if out.len() == 0 {
            return None;
        }
        Some(
            SpokeBatch {
                radar_id: self.radar_id.clone(),
                numeric_id: self.numeric_id,
                range: self.current_range,
                spokes: out,
            },
        )
    }
}

proof fn lemma_delivered_grows(batches: Seq<BatchView>, delivered: Seq<bool>, k: int)
    requires
        batches.len() == delivered.len(),
        0 <= k <= batches.len(),
    ensures
        0 <= delivered_spokes(batches.take(k), delivered.take(k)) <= delivered_spokes(
            batches,
            delivered,
        ),
    decreases batches.len(),
{
    if k == batches.len() {
        assert(batches.take(k) =~= batches);
        assert(delivered.take(k) =~= delivered);
        if k > 0 {
            lemma_delivered_grows(batches.drop_last(), delivered.drop_last(), k - 1);
            assert(batches.drop_last().take(k - 1) =~= batches.drop_last());
            assert(delivered.drop_last().take(k - 1) =~= delivered.drop_last());
        }
    } else {
        lemma_delivered_grows(batches.drop_last(), delivered.drop_last(), k);
        assert(batches.drop_last().take(k) =~= batches.take(k));
        assert(delivered.drop_last().take(k) =~= delivered.take(k));
    }
}

proof fn lemma_longest(spokes: Seq<SpokeView>, k: int)
    requires
        0 <= k < spokes.len(),
    ensures
        spokes[k].data.len() <= longest(spokes),
    decreases spokes.len(),
{
    if k < spokes.len() - 1 {
        lemma_longest(spokes.drop_last(), k);
    }
}

/// The spokes that a batch hands out.
pub open spec fn handed_out(batch: Option<BatchView>) -> Seq<SpokeView> {
    match batch {
        Some(b) => b.spokes,
        None => Seq::empty(),
    }
}

/// No target is lost in merging: the merged spoke reaches as far as each spoke,
/// and is at least as strong there.
pub proof fn law_targets_survive(spokes: Seq<SpokeView>, k: int, i: int)
    requires
        0 <= k < spokes.len(),
        0 <= i < spokes[k].data.len(),
    ensures
        i < combined(spokes).data.len(),
        spokes[k].data[i] <= combined(spokes).data[i],
{
    lemma_longest(spokes, k);
    lemma_strongest(spokes, k, i);
}

/// No target is made up in merging: each echo of the merged spoke is that of
/// one of the spokes.
pub proof fn law_targets_are_genuine(spokes: Seq<SpokeView>, i: int)
    requires
        0 <= i < combined(spokes).data.len(),
    ensures
        exists|k: int|
            0 <= k < spokes.len() && i < spokes[k].data.len() && (#[trigger] spokes[k]).data[i]
                == combined(spokes).data[i],
{
    let k = lemma_strongest_is_one(spokes, i);
    assert(spokes[k].data[i] == combined(spokes).data[i]);
}

/// The angles of a full turn of 8192 come out as angles of a full turn of
/// [`FURUNO_OUTPUT_SPOKES`].
pub proof fn law_angle_range(spokes: Seq<SpokeView>)
    requires
        spokes.len() > 0 ==> spokes[0].angle < 8192,
    ensures
        combined(spokes).angle < FURUNO_OUTPUT_SPOKES,
{
    assert(FURUNO_SPOKE_REDUCTION as u16 == 16);
    assert(spokes.len() > 0 ==> spokes[0].angle / 16 < 512);
}

/// No spoke is lost and none is used twice: what waits after a frame and what
/// the frame handed out account for all that waited before and all that came,
/// and less than a group waits.
pub proof fn law_spokes_are_conserved(radar: SpokeStateView, frame: FrameView)
    requires
        radar.waiting.len() < FURUNO_SPOKE_REDUCTION,
    ensures
        ({
            let (after, batch) = after_frame(radar, frame);
            let came = if frame.spoke_frame && frame.spokes is Some {
                frame.spokes->0
            } else {
                Seq::empty()
            };
            let all = radar.waiting + came;
            let out = handed_out(batch);
            &&& after.waiting.len() < 16
            &&& out.len() * 16 + after.waiting.len() == all.len()
            &&& after.waiting == all.skip(16 * out.len() as int)
            &&& forall|k: int|
                0 <= k < out.len() ==> #[trigger] out[k] == combined(
                    all.subrange(k * 16, (k + 1) * 16),
                )
        }),
{
    let (after, batch) = after_frame(radar, frame);
    let came = if frame.spoke_frame && frame.spokes is Some {
        frame.spokes->0
    } else {
        Seq::empty()
    };
    let all = radar.waiting + came;
    if came.len() == 0 {
        assert(all =~= radar.waiting);
        assert(all.skip(0) =~= all);
    } else if group_count(all) == 0 {
        assert(all.skip(0) =~= all);
    }
}

/// How a run of spokes is cut into frames makes no difference to what is
/// handed out: two frames give the spokes that one frame with the contents of
/// both would give.
pub proof fn law_frame_boundaries_do_not_matter(
    radar: SpokeStateView,
    first: FrameView,
    second: FrameView,
    both: FrameView,
)
    requires
        radar.waiting.len() < FURUNO_SPOKE_REDUCTION,
        first.spoke_frame,
        second.spoke_frame,
        both.spoke_frame,
        first.spokes is Some,
        second.spokes is Some,
        both.spokes == Some(first.spokes->0 + second.spokes->0),
    ensures
        ({
            let (middle, batch1) = after_frame(radar, first);
            let (after, batch2) = after_frame(middle, second);
            let (after_both, batch) = after_frame(radar, both);
            &&& after.waiting == after_both.waiting
            &&& handed_out(batch1) + handed_out(batch2) == handed_out(batch)
        }),
{
    let (middle, batch1) = after_frame(radar, first);
    let (after, batch2) = after_frame(middle, second);
    let (after_both, batch) = after_frame(radar, both);
    law_spokes_are_conserved(radar, first);
    law_spokes_are_conserved(middle, second);
    law_spokes_are_conserved(radar, both);
    let all = radar.waiting + both.spokes->0;
    let all1 = radar.waiting + first.spokes->0;
    let all2 = middle.waiting + second.spokes->0;
    let n1 = handed_out(batch1).len() as int;
    let n2 = handed_out(batch2).len() as int;
    let n = handed_out(batch).len() as int;
    assert(all =~= all1 + second.spokes->0);
    assert(all2 =~= all.skip(n1 * 16));
    assert(n == n1 + n2);
    assert(all2.skip(n2 * 16) =~= all.skip(n * 16));
    let out = handed_out(batch1) + handed_out(batch2);
    assert forall|k: int| 0 <= k < n implies #[trigger] out[k] == handed_out(batch)[k] by {
        if k < n1 {
            assert(all1.subrange(k * 16, (k + 1) * 16) =~= all.subrange(k * 16, (k + 1) * 16));
        } else {
            let j = k - n1;
            assert(out[k] == handed_out(batch2)[j]);
            assert(all2.subrange(j * 16, (j + 1) * 16) =~= all.subrange(k * 16, (k + 1) * 16));
        }
    }
    assert(out =~= handed_out(batch));
}

/// How many spokes a run of frames brings from the radar at `idx`.
pub open spec fn spokes_received(frames: Seq<(int, FrameView)>, idx: int) -> nat
    decreases frames.len(),
{
    if frames.len() == 0 {
        0
    } else {
        let (from, frame) = frames.last();
        spokes_received(frames.drop_last(), idx) + if from == idx && frame.spoke_frame
            && frame.spokes is Some {
            frame.spokes->0.len()
        } else {
            0
        }
    }
}

/// How many spokes a run of batches hands out of the radar `radar_id`.
pub open spec fn spokes_handed_out(batches: Seq<BatchView>, radar_id: Seq<char>) -> nat
    decreases batches.len(),
{
    if batches.len() == 0 {
        0
    } else {
        spokes_handed_out(batches.drop_last(), radar_id) + if batches.last().radar_id == radar_id {
            batches.last().spokes.len()
        } else {
            0
        }
    }
}

/// However the frames of several radars come mixed, one spoke is handed out for
/// each full group of a radar: a revolution of 8192 spokes, from a radar with
/// none waiting, is handed out as [`FURUNO_OUTPUT_SPOKES`] spokes with none
/// left.
pub proof fn law_reduction(receiver: ReceiverView, frames: Seq<(int, FrameView)>, idx: int)
    requires
        receiver.wf(),
        0 <= idx < receiver.radars.len(),
        forall|i: int|
            0 <= i < frames.len() ==> 0 <= (#[trigger] frames[i]).0 < receiver.radars.len(),
    ensures
        ({
            let (after, batches) = after_frames(receiver.radars, frames);
            let radar = receiver.radars[idx];
            let out = spokes_handed_out(batches, radar.radar_id);
            let received = spokes_received(frames, idx);
            &&& after.len() == receiver.radars.len()
            &&& after[idx].waiting.len() < 16
            &&& out * 16 + after[idx].waiting.len() == radar.waiting.len() + received
            &&& radar.waiting.len() == 0 && received == 8192 ==> out == FURUNO_OUTPUT_SPOKES
                && out == 512 && after[idx].waiting.len() == 0
        }),
    decreases frames.len(),
{
    law_frames_keep_radars(receiver, frames);
    assert(radar_ids(after_frames(receiver.radars, frames).0).len() == receiver.radars.len());
    if frames.len() > 0 {
        let rest = frames.drop_last();
        law_reduction(receiver, rest, idx);
        law_frames_keep_radars(receiver, rest);
        let (before, done) = after_frames(receiver.radars, rest);
        let (from, frame) = frames.last();
        assert(frames[frames.len() - 1].0 == from);
        law_spokes_are_conserved(before[from], frame);
        let (next, batch) = after_frame(before[from], frame);
        let ids = radar_ids(receiver.radars);
        assert(radar_ids(before)[from] == ids[from]);
        assert(ids[idx] == receiver.radars[idx].radar_id);
        if let Some(b) = batch {
            assert(done.push(b).drop_last() =~= done);
            if from != idx {
                assert(ids[from] != ids[idx]);
            }
        }
    }
}

/// Frames that are taken in one by one leave the radars as [`after_frames`] says
/// of the run.
pub proof fn law_frames_one_by_one(receiver: ReceiverView, frames: Seq<(int, FrameView)>)
    ensures
        receiver.after_frames_of(frames).radars == after_frames(receiver.radars, frames).0,
        receiver.after_frames_of(frames).socket == receiver.socket,
    decreases frames.len(),
{
    if frames.len() > 0 {
        law_frames_one_by_one(receiver, frames.drop_last());
    }
}

/// Reception keeps its books: frames neither add nor drop a radar, change no
/// id and no address, and leave reception in order.
pub proof fn law_frames_keep_radars(receiver: ReceiverView, frames: Seq<(int, FrameView)>)
    requires
        receiver.wf(),
        forall|i: int|
            0 <= i < frames.len() ==> 0 <= (#[trigger] frames[i]).0 < receiver.radars.len(),
    ensures
        ({
            let after = after_frames(receiver.radars, frames).0;
            &&& radar_ids(after) == radar_ids(receiver.radars)
            &&& source_ips(after) == source_ips(receiver.radars)
            &&& (ReceiverView { radars: after, ..receiver }).wf()
        }),
    decreases frames.len(),
{
    if frames.len() > 0 {
        let rest = frames.drop_last();
        law_frames_keep_radars(receiver, rest);
        let before = after_frames(receiver.radars, rest).0;
        let after = after_frames(receiver.radars, frames).0;
        let (idx, frame) = frames.last();
        assert(frames[frames.len() - 1].0 == idx);
        assert(radar_ids(before).len() == radar_ids(receiver.radars).len());
        law_spokes_are_conserved(before[idx], frame);
        assert(radar_ids(after) =~= radar_ids(before));
        assert(source_ips(after) =~= source_ips(before));
    }
}

/// A radar is tracked once: adding radars never makes two entries of one id.
pub proof fn law_tracked_once(radars: Seq<SpokeStateView>, radar_id: Seq<char>, source_ip: Seq<char>)
    requires
        radar_ids(radars).no_duplicates(),
        !radar_ids(radars).contains(radar_id),
    ensures
        radar_ids(radars.push(fresh_radar(radar_id, source_ip))).no_duplicates(),
{
    let after = radar_ids(radars.push(fresh_radar(radar_id, source_ip)));
    assert(after =~= radar_ids(radars).push(radar_id));
    assert forall|i: int, j: int|
        0 <= i < after.len() && 0 <= j < after.len() && i != j implies after[i] != after[j] by {
        if i < radars.len() {
            assert(radar_ids(radars)[i] == after[i]);
        }
        if j < radars.len() {
            assert(radar_ids(radars)[j] == after[j]);
        }
    }
}

proof fn lemma_strongest(spokes: Seq<SpokeView>, k: int, i: int)
    requires
        0 <= k < spokes.len(),
        0 <= i < spokes[k].data.len(),
    ensures
        spokes[k].data[i] <= strongest(spokes, i),
    decreases spokes.len(),
{
    if k < spokes.len() - 1 {
        lemma_strongest(spokes.drop_last(), k, i);
    }
}

proof fn lemma_strongest_is_one(spokes: Seq<SpokeView>, i: int) -> (k: int)
    requires
        0 <= i < longest(spokes),
    ensures
        0 <= k < spokes.len(),
        i < spokes[k].data.len(),
        spokes[k].data[i] == strongest(spokes, i),
    decreases spokes.len(),
{
    let before = spokes.drop_last();
    let last = spokes.last().data;
    if i < last.len() && last[i] > strongest(before, i) {
        spokes.len() - 1
    } else if i < longest(before) {
        lemma_strongest_is_one(before, i)
    } else {
        lemma_silent_beyond(before, i);
        spokes.len() - 1
    }
}

proof fn lemma_silent_beyond(spokes: Seq<SpokeView>, i: int)
    requires
        i >= longest(spokes),
    ensures
        strongest(spokes, i) == 0,
    decreases spokes.len(),
{
    if spokes.len() > 0 {
        lemma_silent_beyond(spokes.drop_last(), i);
    }
}

/// A batch and the radar have the range that the frame's header tells, where it
/// tells one above 0, whatever the range was before; where it tells none, or 0,
/// they have the range from before.
pub proof fn law_range_follows_the_header(radar: SpokeStateView, frame: FrameView, r: u32)
    requires
        frame.spoke_frame,
    ensures
        ({
            let (after, batch) = after_frame(radar, frame);
            &&& frame.range == Some(r) && r > 0 ==> after.current_range == r
            &&& frame.range is None || frame.range == Some(0u32) ==> after.current_range
                == radar.current_range
            &&& batch matches Some(b) ==> b.range == after.current_range
        }),
{
}

/// Of two frames of a radar that both tell a range, the later one counts, for
/// the radar and for what it hands out, however the ranges compare.
pub proof fn law_later_range_counts(
    radar: SpokeStateView,
    first: FrameView,
    second: FrameView,
    r1: u32,
    r2: u32,
)
    requires
        first.spoke_frame,
        second.spoke_frame,
        first.range == Some(r1),
        second.range == Some(r2),
        r1 > 0,
        r2 > 0,
    ensures
        ({
            let (middle, batch1) = after_frame(radar, first);
            let (after, batch2) = after_frame(middle, second);
            &&& middle.current_range == r1
            &&& after.current_range == r2
            &&& batch1 matches Some(b) ==> b.range == r1
            &&& batch2 matches Some(b) ==> b.range == r2
        }),
{
}

/// A frame changes nothing of a radar but what waits, its range and the spoke
/// against which the next one is decoded, which is as the decoder left it. A
/// frame without spokes changes nothing at all. What is handed out bears the
/// ids of the radar. Something is handed out where 16 spokes have come together.
pub proof fn law_frames_of_a_radar(radar: SpokeStateView, frame: FrameView)
    ensures
        ({
            let (after, batch) = after_frame(radar, frame);
            &&& !frame.spoke_frame ==> after == radar && batch is None
            &&& frame.spoke_frame ==> after.prev_spoke == frame.prev_spoke
            &&& after.radar_id == radar.radar_id
            &&& after.numeric_id == radar.numeric_id
            &&& after.source_ip == radar.source_ip
            &&& batch matches Some(b) ==> {
                &&& b.radar_id == radar.radar_id
                &&& b.numeric_id == radar.numeric_id
                &&& b.spokes.len() > 0
            }
            &&& batch is Some <==> frame.spoke_frame && frame.spokes is Some
                && frame.spokes->0.len() > 0 && radar.waiting.len() + frame.spokes->0.len() >= 16
        }),
{
}

/// A merged spoke has the heading of the first spoke, and its angle on a scale
/// that is 16 times as coarse.
pub proof fn law_merged_direction(spokes: Seq<SpokeView>)
    requires
        spokes.len() > 0,
    ensures
        combined(spokes).heading == spokes[0].heading,
        combined(spokes).angle * 16 <= spokes[0].angle < combined(spokes).angle * 16 + 16,
{
    assert(FURUNO_SPOKE_REDUCTION as u16 == 16);
    assert(spokes[0].angle / 16 * 16 <= spokes[0].angle < spokes[0].angle / 16 * 16 + 16);
}

/// What is handed out of a run of frames depends on the frame of the radar
/// alone: a frame of one radar leaves every other as it was.
pub proof fn law_frames_concern_one_radar(
    receiver: ReceiverView,
    idx: int,
    frame: FrameView,
    other: int,
)
    requires
        0 <= idx < receiver.radars.len(),
        0 <= other < receiver.radars.len(),
    ensures
        ({
            let after = receiver.after_frame_of(idx, frame);
            &&& after.radars.len() == receiver.radars.len()
            &&& after.radars[idx] == after_frame(receiver.radars[idx], frame).0
            &&& other != idx ==> after.radars[other] == receiver.radars[other]
            &&& after.socket == receiver.socket
            &&& after.log.frame_count == receiver.log.frame_count + 1 || receiver.log.frame_count
                == u64::MAX
            &&& after.log == SpokeLog { frame_count: after.log.frame_count, ..receiver.log }
        }),
{
}

/// Datagrams are taken one by one, in order: what a run of them gives is what
/// its parts give, one behind the other.
pub proof fn law_datagrams_one_by_one(
    radars: Seq<SpokeStateView>,
    first: Seq<Packet>,
    second: Seq<Packet>,
)
    ensures
        routed(radars, first + second) == routed(radars, first) + routed(radars, second),
        strays(radars, first + second) == strays(radars, first) + strays(radars, second),
        routed(radars, first).len() + strays(radars, first).len() == first.len(),
    decreases first.len() + second.len(),
{
    if second.len() > 0 {
        law_datagrams_one_by_one(radars, first, second.drop_last());
        assert((first + second).drop_last() =~= first + second.drop_last());
        assert((first + second).last() == second.last());
        assert(routed(radars, first + second) =~= routed(radars, first) + routed(radars, second));
        assert(strays(radars, first + second) =~= strays(radars, first) + strays(radars, second));
    } else {
        assert(first + second =~= first);
        assert(routed(radars, first) + routed(radars, second) =~= routed(radars, first));
        assert(strays(radars, first) + strays(radars, second) =~= strays(radars, first));
        if first.len() > 0 {
            law_datagrams_one_by_one(radars, first.drop_last(), Seq::empty());
        }
    }
}

/// A datagram goes to the first radar that sends from its address, with its
/// bytes as they are; one from an address that no radar sends from goes to none.
pub proof fn law_routing(radars: Seq<SpokeStateView>, packet: Packet, i: int)
    ensures
        0 <= i < radars.len() && radars[i].source_ip == packet.addr@ && (forall|k: int|
            0 <= k < i ==> (#[trigger] radars[k]).source_ip != packet.addr@) ==> routed(
            radars,
            seq![packet],
        ) == seq![(packet.data@, i)] && strays(radars, seq![packet]).len() == 0,
        (forall|k: int|
            0 <= k < radars.len() ==> (#[trigger] radars[k]).source_ip != packet.addr@) ==> routed(
            radars,
            seq![packet],
        ).len() == 0 && strays(radars, seq![packet]) == seq![packet],
{
    let ips = source_ips(radars);
    let one = seq![packet];
    assert(one.drop_last() =~= Seq::<Packet>::empty());
    assert(routed(radars, one.drop_last()) =~= Seq::<(Seq<u8>, int)>::empty());
    assert(strays(radars, one.drop_last()) =~= Seq::<Packet>::empty());
    assert(ips.len() == radars.len());
    assert(forall|k: int| 0 <= k < radars.len() ==> ips[k] == (#[trigger] radars[k]).source_ip);
    if 0 <= i < radars.len() && radars[i].source_ip == packet.addr@ && (forall|k: int|
        0 <= k < i ==> (#[trigger] radars[k]).source_ip != packet.addr@) {
        assert forall|k: int| 0 <= k < i implies ips[k] != packet.addr@ by {
            assert(radars[k].source_ip != packet.addr@);
        }
        lemma_first_at(ips, packet.addr@, i);
        assert(routed(radars, one) =~= seq![(packet.data@, i)]);
    }
    if forall|k: int| 0 <= k < radars.len() ==> (#[trigger] radars[k]).source_ip != packet.addr@ {
        assert forall|k: int| 0 <= k < ips.len() implies ips[k] != packet.addr@ by {
            assert(radars[k].source_ip != packet.addr@);
        }
        lemma_first_nowhere(ips, packet.addr@);
        assert(strays(radars, one) =~= seq![packet]);
    }
}

/// The spokes that reached clients are those of the batches that were
/// delivered, each counted once: what two runs of batches count together is the
/// sum of what they count, and one batch counts as its spokes or as nothing.
pub proof fn law_delivered_spokes(
    batches: Seq<BatchView>,
    delivered: Seq<bool>,
    more: Seq<BatchView>,
    more_delivered: Seq<bool>,
    one: BatchView,
)
    requires
        batches.len() == delivered.len(),
        more.len() == more_delivered.len(),
    ensures
        delivered_spokes(batches + more, delivered + more_delivered) == delivered_spokes(
            batches,
            delivered,
        ) + delivered_spokes(more, more_delivered),
        delivered_spokes(seq![one], seq![true]) == one.spokes.len(),
        delivered_spokes(seq![one], seq![false]) == 0,
    decreases more.len(),
{
    reveal_with_fuel(delivered_spokes, 2);
    if more.len() == 0 {
        assert(batches + more =~= batches);
        assert(delivered + more_delivered =~= delivered);
    } else {
        law_delivered_spokes(
            batches,
            delivered,
            more.drop_last(),
            more_delivered.drop_last(),
            one,
        );
        assert((batches + more).drop_last() =~= batches + more.drop_last());
        assert((delivered + more_delivered).drop_last() =~= delivered + more_delivered.drop_last());
    }
}

/// The spoke socket is opened in three steps: a socket that was made is bound to
/// the port, one that was bound joins the group on the default interface, and
/// one that has joined, and no other, is in use.
pub proof fn law_listening(
    receiver: ReceiverView,
    socket: i32,
    bound: i32,
    joined: i32,
    port: u16,
    group: Seq<char>,
)
    requires
        socket >= 0,
        bound >= 0,
        joined >= 0,
    ensures
        listen_next(ListenStep::Create, socket) == Some(ListenStep::Bind { socket }),
        listen_call(ListenStep::Create, socket, port, group) == Some(
            CallView::UdpBind { socket, port },
        ),
        receiver.after_listen(ListenStep::Create, socket) == receiver,
        listen_next(ListenStep::Bind { socket }, bound) == Some(ListenStep::Join { socket }),
        listen_call(ListenStep::Bind { socket }, bound, port, group) == Some(
            CallView::UdpJoinMulticast { socket, group, interface: Seq::empty() },
        ),
        receiver.after_listen(ListenStep::Bind { socket }, bound) == receiver,
        listen_next(ListenStep::Join { socket }, joined) is None,
        listen_call(ListenStep::Join { socket }, joined, port, group) is None,
        receiver.after_listen(ListenStep::Join { socket }, joined) == (ReceiverView {
            socket: Some(socket),
            ..receiver
        }),
{
    reveal_strlit("");
    assert(""@ =~= Seq::<char>::empty());
}

/// Where a step on the way to the open spoke socket fails, there is no further
/// step, nothing is received, and the socket is closed if there is one.
pub proof fn law_listening_fails(
    receiver: ReceiverView,
    step: ListenStep,
    reply: i32,
    port: u16,
    group: Seq<char>,
)
    requires
        reply < 0,
    ensures
        listen_next(step, reply) is None,
        receiver.after_listen(step, reply) == receiver,
        match step {
            ListenStep::Create => listen_call(step, reply, port, group) is None,
            ListenStep::Bind { socket } => listen_call(step, reply, port, group) == Some(
                CallView::UdpClose { socket },
            ),
            ListenStep::Join { socket } => listen_call(step, reply, port, group) == Some(
                CallView::UdpClose { socket },
            ),
        },
{
}

/// A radar whose tracking begins has the ids and the address that are given, no
/// spokes, and a range of 1500 metres.
pub proof fn law_fresh_radar(radar_id: Seq<char>, source_ip: Seq<char>)
    ensures
        ({
            let radar = fresh_radar(radar_id, source_ip);
            &&& radar.radar_id == radar_id
            &&& radar.source_ip == source_ip
            &&& radar.current_range == 1500
            &&& radar.waiting.len() == 0
            &&& radar.prev_spoke.len() == 0
            &&& radar.numeric_id == numeric_id_of(radar_id)
        }),
{
    lemma_numeric_id(encode_utf8(radar_id));
}

/// The numeric id of a radar is made of the first four bytes of its id, the
/// first one the most significant; of a shorter id, of as many as there are.
pub proof fn law_numeric_id(radar_id: Seq<char>)
    ensures
        ({
            let bytes = encode_utf8(radar_id);
            let id = numeric_id_of(radar_id);
            &&& 0 <= id <= u32::MAX
            &&& bytes.len() >= 4 ==> id == bytes[0] * 0x100_0000 + bytes[1] * 0x1_0000 + bytes[2]
                * 0x100 + bytes[3]
            &&& bytes.len() == 3 ==> id == bytes[0] * 0x1_0000 + bytes[1] * 0x100 + bytes[2]
            &&& bytes.len() == 2 ==> id == bytes[0] * 0x100 + bytes[1]
            &&& bytes.len() == 1 ==> id == bytes[0]
            &&& bytes.len() == 0 ==> id == 0
        }),
{
    lemma_numeric_id(encode_utf8(radar_id));
}

proof fn lemma_numeric_id(bytes: Seq<u8>)
    ensures
        ({
            let id = leading_number(bytes, 4);
            &&& 0 <= id <= u32::MAX
            &&& bytes.len() >= 4 ==> id == bytes[0] * 0x100_0000 + bytes[1] * 0x1_0000 + bytes[2]
                * 0x100 + bytes[3]
            &&& bytes.len() == 3 ==> id == bytes[0] * 0x1_0000 + bytes[1] * 0x100 + bytes[2]
            &&& bytes.len() == 2 ==> id == bytes[0] * 0x100 + bytes[1]
            &&& bytes.len() == 1 ==> id == bytes[0]
            &&& bytes.len() == 0 ==> id == 0
        }),
{
    reveal_with_fuel(leading_number, 5);
}

/// When the log tells of reception: of an unknown sender where more than 100
/// polls have passed since one was logged, and then only of the first in a poll;
/// of every 500th poll; of a frame without spokes where it is the 100th, 200th
/// and so on; and of a batch that reached no client where it is one of the first
/// five, or the 100th, 200th and so on.
pub proof fn law_log_lines(
    receiver: ReceiverView,
    packets: Seq<Packet>,
    frame: FrameView,
    radar_id: Seq<char>,
)
    ensures
        ({
            let unknown = strays(receiver.radars, packets).len() > 0 && receiver.log.poll_count + 1
                > receiver.log.last_log + 100;
            let sum = (receiver.log.poll_count + 1) % 500 == 0;
            let lines = receiver.poll_lines(packets);
            let after = receiver.after_poll(packets);
            &&& lines.len() == if unknown && sum {
                2int
            } else if unknown || sum {
                1
            } else {
                0
            }
            &&& unknown ==> lines[0] == unknown_line(
                strays(receiver.radars, packets)[0],
                source_ips(receiver.radars),
            )
            &&& sum ==> lines.last() == poll_line(
                (receiver.log.poll_count + 1) as nat,
                receiver.socket is Some,
                receiver.radars.len(),
                routed(receiver.radars, packets).len(),
                strays(receiver.radars, packets).len(),
            )
            &&& receiver.log.poll_count < u64::MAX ==> {
                &&& after.log.poll_count == receiver.log.poll_count + 1
                &&& unknown ==> after.log.last_log == after.log.poll_count
                &&& !unknown ==> after.log.last_log == receiver.log.last_log
                &&& after.log == SpokeLog {
                    poll_count: after.log.poll_count,
                    last_log: after.log.last_log,
                    ..receiver.log
                }
            }
            &&& after == ReceiverView { log: after.log, ..receiver }
        }),
        receiver.frame_line(frame) is Some <==> !frame.spoke_frame && (receiver.log.frame_count + 1)
            % 100 == 0,
        receiver.emission_line(radar_id, true) is None,
        receiver.emission_line(radar_id, false) is Some <==> receiver.log.emit_fail < 5 || (
        receiver.log.emit_fail + 1) % 100 == 0,
        receiver.log.emit_fail < u64::MAX ==> receiver.after_emission(false) == (ReceiverView {
            log: SpokeLog { emit_fail: (receiver.log.emit_fail + 1) as u64, ..receiver.log },
            ..receiver
        }),
        receiver.log.emit_success < u64::MAX ==> receiver.after_emission(true) == (ReceiverView {
            log: SpokeLog { emit_success: (receiver.log.emit_success + 1) as u64, ..receiver.log },
            ..receiver
        }),
        BATCH_LOG_INTERVAL == 500,
{
}

} // verus!
