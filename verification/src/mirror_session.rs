//! A Cast mirroring session: encrypting, packetising and resending frames.
//!
//! **Retransmission is not optional.** The transport is UDP with no error
//! correction. The receiver declares what it lost in feedback blocks and *waits*
//! for the resend; without it, a single lost datagram freezes the picture.
use crate::error::{protocol_error, unsupported_error, NdError};
use crate::mirror::{
    MirrorConfig, Negotiated, OfferedStream, StreamKeys, AUDIO_TIME_BASE, VIDEO_TIME_BASE,
};
use crate::pipeline::{
    AudioSource, H264Encoder, Overrides, PipelineEvent, StreamConfig, CHROMECAST_MAX_RESOLUTION,
};
use crate::rtcp::{
    build_sender_report, classify_receiver_packet, ntp_timestamp, parse_cast_feedback,
    parse_compound, Nack, ReceiverPacket, SenderStats,
};
use crate::rtp::{encrypt_frame, Frame, Packetizer};
use crate::text::copied;
use std::collections::VecDeque;
use std::time::SystemTime;
use vstd::prelude::*;

verus! {

use crate::error::ErrorView;
use crate::mirror::first_accepted;
use crate::pipeline::{fitted, fitting_shrinks_to_even_sides, scaled_bitrate};
use crate::rtcp::{
    classified, compound, feedback_in, ntp_at, requested_ids, sender_report, unix_time,
};
use crate::rtp::{
    encrypted, encryption_round_trip, frame_packets, reassembled, sequence_after, split_is_lossless,
    FrameView, PacketizerView,
};
use vstd::math::max;

/// How long to wait for a frame before checking for cancellation, in
/// milliseconds.
pub const PULL_TIMEOUT_MS: u64 = 250;

/// How much worth of frames is kept for retransmission, in nanoseconds. Measured
/// in **time**: audio runs at about 100 frames per second.
pub const RETRANSMIT_HISTORY_NS: u64 = 2_000_000_000;

/// The frame cap on the history.
///
/// A retransmission request identifies the frame in **8 bits**. Past 256 entries
/// there would be two frames with the same id and the wrong one would be resent.
pub const RETRANSMIT_HISTORY_MAX: usize = 200;

/// The receiver silence that ends the session, in nanoseconds.
pub const RECEIVER_SILENCE_TIMEOUT_NS: u64 = 8_000_000_000;

/// The interval between *sender reports*, in nanoseconds.
pub const RTCP_INTERVAL_NS: u64 = 500_000_000;

/// The interval between logged statistics, in nanoseconds.
pub const STATS_INTERVAL_NS: u64 = 5_000_000_000;

/// How many requests one round of retransmissions collects before it starts.
pub const NACK_BATCH: usize = 256;

/// A frame kept for retransmission.
#[derive(Debug)]
pub struct HistoryEntry {
    /// The frame's id truncated to 8 bits, which is what a request carries.
    pub id: u8,
    /// When it was sent, in nanoseconds of a clock that never goes back.
    pub sent_at: u64,
    /// The packets ready to resend.
    pub packets: Vec<Vec<u8>>,
}

/// A stream's window of recent frames.
pub type History = VecDeque<HistoryEntry>;

/// How old something is: no less than nothing.
pub open spec fn age(now: u64, then: u64) -> int {
    if now > then {
        now - then
    } else {
        0
    }
}

/// Whether the oldest entry of a history is no longer useful.
pub open spec fn is_stale(history: Seq<HistoryEntry>, now: u64) -> bool {
    history.len() > 0 && (age(now, history[0].sent_at) > RETRANSMIT_HISTORY_NS || history.len()
        > RETRANSMIT_HISTORY_MAX)
}

/// What is left of a history: the oldest entries go while they are too old or
/// there are too many.
pub open spec fn pruned(history: Seq<HistoryEntry>, now: u64) -> Seq<HistoryEntry>
    decreases history.len(),
{
    if is_stale(history, now) {
        pruned(history.skip(1), now)
    } else {
        history
    }
}

/// Drops from the history whatever is no longer useful to resend.
pub fn prune_history(history: &mut History, now: u64)
    ensures
        final(history)@ == pruned(old(history)@, now),
{
    while history.len() > 0 && (now.saturating_sub(history[0].sent_at) > RETRANSMIT_HISTORY_NS
        || history.len() > RETRANSMIT_HISTORY_MAX)
        invariant
            pruned(old(history)@, now) == pruned(history@, now),
        decreases history@.len(),
    {
        let ghost before = history@;
        let _ = history.pop_front();
        assert(history@ =~= before.skip(1));
    }
}

/// Pruning keeps the most recent entries, all of them that are fresh and few
/// enough: what is left is the end of the history, of at most the cap, and its
/// oldest entry is not too old.
pub proof fn history_is_bounded(history: Seq<HistoryEntry>, now: u64)
    ensures
        ({
            let kept = pruned(history, now);
            let gone = history.len() - kept.len();
            &&& kept.len() <= history.len()
            &&& kept == history.skip(gone)
            &&& kept.len() <= RETRANSMIT_HISTORY_MAX
            &&& kept.len() > 0 ==> age(now, kept[0].sent_at) <= RETRANSMIT_HISTORY_NS
            &&& gone > 0 ==> age(now, history[gone - 1].sent_at) > RETRANSMIT_HISTORY_NS
                || kept.len() == RETRANSMIT_HISTORY_MAX
        }),
    decreases history.len(),
{
    if is_stale(history, now) {
        let rest = history.skip(1);
        history_is_bounded(rest, now);
        let kept = pruned(history, now);
        let gone = history.len() - kept.len();
        assert(rest.skip(gone - 1) =~= history.skip(gone));
        if gone > 1 {
            assert(rest[gone - 2] == history[gone - 1]);
        }
    } else {
        assert(history.skip(0) =~= history);
    }
}

/// The entry just sent is never pruned.
pub proof fn the_last_entry_stays(history: Seq<HistoryEntry>, now: u64)
    requires
        history.len() > 0,
        history.last().sent_at == now,
    ensures
        pruned(history, now).len() > 0,
        pruned(history, now).last() == history.last(),
    decreases history.len(),
{
    if is_stale(history, now) {
        let rest = history.skip(1);
        assert(history.len() > 1);
        assert(rest.last() == history.last());
        the_last_entry_stays(rest, now);
    }
}

/// The ids of entries for consecutive frames, the last of which is `last`.
pub open spec fn holds_consecutive_frames(history: Seq<HistoryEntry>, last: int) -> bool {
    forall|i: int|
        0 <= i < history.len() ==> (#[trigger] history[i]).id == (last - (history.len() - 1 - i))
            % 256
}

/// A request always means one frame: no two entries of a pruned history of
/// consecutive frames share the 8 bits of an id.
pub proof fn ids_in_the_history_are_unique(
    history: Seq<HistoryEntry>,
    now: u64,
    last: int,
    i: int,
    j: int,
)
    requires
        holds_consecutive_frames(pruned(history, now), last),
        0 <= i < j < pruned(history, now).len(),
    ensures
        pruned(history, now)[i].id != pruned(history, now)[j].id,
{
    history_is_bounded(history, now);
    let kept = pruned(history, now);
    let a = last - (kept.len() - 1 - i);
    let b = last - (kept.len() - 1 - j);
    assert(kept[i].id == a % 256);
    assert(kept[j].id == b % 256);
    assert(b - a < RETRANSMIT_HISTORY_MAX);
    near_numbers_differ_in_their_low_bits(a, b);
}

proof fn near_numbers_differ_in_their_low_bits(a: int, b: int)
    requires
        a < b < a + 256,
    ensures
        a % 256 != b % 256,
{
}

/// The entry of the next frame keeps a history one of consecutive frames, whatever
/// is pruned of it.
pub proof fn sending_keeps_frames_consecutive(
    history: Seq<HistoryEntry>,
    entry: HistoryEntry,
    last: int,
    now: u64,
)
    requires
        holds_consecutive_frames(history, last),
        entry.id == (last + 1) % 256,
    ensures
        holds_consecutive_frames(pruned(history.push(entry), now), last + 1),
{
    let all = history.push(entry);
    history_is_bounded(all, now);
    let kept = pruned(all, now);
    let gone = all.len() - kept.len();
    assert forall|i: int| 0 <= i < kept.len() implies (#[trigger] kept[i]).id == (last + 1 - (
    kept.len() - 1 - i)) % 256 by {
        assert(kept[i] == all[gone + i]);
        if gone + i < history.len() {
            assert(history[gone + i] == all[gone + i]);
        }
    }
}

proof fn consecutive_up_to_wrapping(history: Seq<HistoryEntry>, a: int, b: int)
    requires
        holds_consecutive_frames(history, a),
        a % 256 == b % 256,
    ensures
        holds_consecutive_frames(history, b),
{
    assert forall|i: int| 0 <= i < history.len() implies (#[trigger] history[i]).id == (b - (
    history.len() - 1 - i)) % 256 by {
        let back = history.len() - 1 - i;
        assert((a - back) % 256 == (b - back) % 256);
    }
}

/// The RTP timestamp of an instant in nanoseconds, in a stream's time base. The
/// counter has 32 bits, and wraps.
pub open spec fn timestamp_of(pts_ns: int, time_base: int) -> int {
    pts_ns * time_base / 1_000_000_000 % 0x1_0000_0000
}

/// Converts a frame's time to the stream's time base. The product is taken in
/// 128 bits: in 64 it would overflow within days of session.
pub fn rtp_timestamp(pts_ns: u64, time_base: u32) -> (res: u32)
    ensures
        res == timestamp_of(pts_ns as int, time_base as int),
{
    assert(pts_ns * time_base <= u128::MAX) by (nonlinear_arith)
        requires
            0 <= pts_ns <= u64::MAX,
            0 <= time_base <= u32::MAX,
    ;
    assert(pts_ns * time_base >= 0) by (nonlinear_arith)
        requires
            0 <= pts_ns,
            0 <= time_base,
    ;
    (pts_ns as u128 * time_base as u128 / 1_000_000_000 % 0x1_0000_0000) as u32
}

/// How regular the output is since the last report.
///
/// It separates a hole that comes from the pipeline, where the frames'
/// timestamps jump, from one of our own, where the sender was late.
#[derive(Clone, Copy, Debug, PartialEq, Eq, Structural)]
pub struct FlowWatch {
    /// The previous frame's timestamp (ns).
    pub last_pts_ns: Option<u64>,
    /// The previous send's instant (ns).
    pub last_send: Option<u64>,
    /// Frames sent since the last report.
    pub frames: u64,
    /// Timestamp jumps larger than twice the expected interval.
    pub pts_jumps: u64,
    /// The largest jump seen, in ms.
    pub worst_pts_jump_ms: u64,
    /// The largest wall-clock gap between two sends, in ms.
    pub worst_send_gap_ms: u64,
}

/// A watch after one more frame.
pub open spec fn flow_after(
    flow: FlowWatch,
    pts_ns: u64,
    expected_ns: u64,
    now: u64,
) -> FlowWatch {
    let jump = match flow.last_pts_ns {
        Some(previous) => age(pts_ns, previous),
        None => 0,
    };
    let jumped = jump > expected_ns * 2;
    FlowWatch {
        last_pts_ns: Some(pts_ns),
        last_send: Some(now),
        frames: (flow.frames + 1) as u64,
        pts_jumps: (flow.pts_jumps + (if jumped {
            1int
        } else {
            0
        })) as u64,
        worst_pts_jump_ms: if jumped {
            max(flow.worst_pts_jump_ms as int, jump / 1_000_000) as u64
        } else {
            flow.worst_pts_jump_ms
        },
        worst_send_gap_ms: match flow.last_send {
            Some(previous) => max(
                flow.worst_send_gap_ms as int,
                age(now, previous) / 1_000_000,
            ) as u64,
            None => flow.worst_send_gap_ms,
        },
    }
}

impl FlowWatch {
    /// A watch that has seen nothing.
    pub fn new() -> (res: Self)
        ensures
            res == (FlowWatch {
                last_pts_ns: None,
                last_send: None,
                frames: 0,
                pts_jumps: 0,
                worst_pts_jump_ms: 0,
                worst_send_gap_ms: 0,
            }),
    {
        FlowWatch {
            last_pts_ns: None,
            last_send: None,
            frames: 0,
            pts_jumps: 0,
            worst_pts_jump_ms: 0,
            worst_send_gap_ms: 0,
        }
    }

    /// Records a frame. `expected_ns` is the nominal interval between frames.
    pub fn record(&mut self, pts_ns: u64, expected_ns: u64, now: u64)
        requires
            old(self).frames < u64::MAX,
            old(self).pts_jumps < u64::MAX,
            expected_ns * 2 <= u64::MAX,
        ensures
            *final(self) == flow_after(*old(self), pts_ns, expected_ns, now),
    {
        if let Some(previous) = self.last_pts_ns {
            let delta: u64 = pts_ns.saturating_sub(previous);
            if delta > expected_ns * 2 {
                self.pts_jumps = self.pts_jumps + 1;
                let ms: u64 = delta / 1_000_000;
                if ms > self.worst_pts_jump_ms {
                    self.worst_pts_jump_ms = ms;
                }
            }
        }
        if let Some(previous) = self.last_send {
            let gap: u64 = now.saturating_sub(previous) / 1_000_000;
            if gap > self.worst_send_gap_ms {
                self.worst_send_gap_ms = gap;
            }
        }
        self.last_pts_ns = Some(pts_ns);
        self.last_send = Some(now);
        self.frames = self.frames + 1;
    }

    /// Returns the accumulated figures (frames, jumps, worst jump, worst gap) and
    /// restarts the count.
    pub fn take(&mut self) -> (res: (u64, u64, u64, u64))
        ensures
            res == (
                old(self).frames,
                old(self).pts_jumps,
                old(self).worst_pts_jump_ms,
                old(self).worst_send_gap_ms,
            ),
            *final(self) == (FlowWatch {
                frames: 0,
                pts_jumps: 0,
                worst_pts_jump_ms: 0,
                worst_send_gap_ms: 0,
                ..*old(self)
            }),
    {
        let out = (self.frames, self.pts_jumps, self.worst_pts_jump_ms, self.worst_send_gap_ms);
        self.frames = 0;
        self.pts_jumps = 0;
        self.worst_pts_jump_ms = 0;
        self.worst_send_gap_ms = 0;
        out
    }
}

/// Streams one track (video or audio) to the receiver.
pub struct StreamSender {
    pub packetizer: Packetizer,
    pub keys: StreamKeys,
    pub time_base: u32,
    pub frame_id: u32,
    /// Recent packets, per frame, for serving retransmission requests.
    pub history: History,
    pub stats: SenderStats,
    pub flow: FlowWatch,
    pub last_rtp_timestamp: u32,
    /// When the last report went out, in nanoseconds.
    pub last_report: u64,
    pub rtcp_enabled: bool,
}

/// The frame that the next picture or sound becomes. A key frame depends on
/// nothing; the rest reference the previous one.
pub open spec fn next_frame(
    sender: StreamSender,
    data: Seq<u8>,
    is_key: bool,
    pts_ns: u64,
) -> FrameView {
    FrameView {
        frame_id: sender.frame_id,
        reference_frame_id: if !is_key && sender.frame_id > 0 {
            Some((sender.frame_id - 1) as u32)
        } else {
            None
        },
        rtp_timestamp: timestamp_of(pts_ns as int, sender.time_base as int) as u32,
        payload: encrypted(sender.keys.key@, sender.keys.iv_mask@, sender.frame_id, data),
    }
}

/// Whether `entry` keeps the packets of a frame.
pub open spec fn keeps(
    entry: HistoryEntry,
    stream: PacketizerView,
    frame: FrameView,
    now: u64,
) -> bool {
    &&& entry.id == frame.frame_id % 256
    &&& entry.sent_at == now
    &&& entry.packets@.len() == frame_packets(stream, frame).len()
    &&& forall|i: int|
        0 <= i < entry.packets@.len() ==> (#[trigger] entry.packets@[i])@ == frame_packets(
            stream,
            frame,
        )[i]
}

/// Whether a sender has taken over a frame: its packets are the last entry of the
/// history, and the next frame follows it.
pub open spec fn has_pumped(
    after: StreamSender,
    before: StreamSender,
    data: Seq<u8>,
    is_key: bool,
    pts_ns: u64,
    now: u64,
) -> bool {
    let frame = next_frame(before, data, is_key, pts_ns);
    let stream = before.packetizer@;
    &&& exists|entry: HistoryEntry|
        #![trigger keeps(entry, stream, frame, now)]
        keeps(entry, stream, frame, now) && after.history@ == pruned(
            before.history@.push(entry),
            now,
        )
    &&& after.history@.len() > 0
    &&& keeps(after.history@.last(), stream, frame, now)
    &&& after.packetizer@ == (PacketizerView {
        sequence: sequence_after(stream.sequence, frame_packets(stream, frame).len() as int),
        ..stream
    })
    &&& after.last_rtp_timestamp == frame.rtp_timestamp
    &&& after.frame_id == (before.frame_id + 1) % 0x1_0000_0000
    &&& after.flow == flow_after(before.flow, pts_ns, frame_interval(before.time_base), now)
    &&& after.keys == before.keys
    &&& after.time_base == before.time_base
    &&& after.stats == before.stats
    &&& after.last_report == before.last_report
    &&& after.rtcp_enabled == before.rtcp_enabled
}

/// The nominal interval between frames: 10 ms of Opus; about 33 ms of video.
pub open spec fn frame_interval(time_base: u32) -> u64 {
    if time_base == VIDEO_TIME_BASE {
        33_000_000
    } else {
        10_000_000
    }
}

/// Whether statistics are due: the interval has passed since the last.
pub open spec fn are_stats_due(last: u64, now: u64) -> bool {
    age(now, last) >= STATS_INTERVAL_NS
}

/// Whether a report is due: they are on, and the interval has passed since the last.
pub open spec fn is_report_due(enabled: bool, last: u64, now: u64) -> bool {
    enabled && age(now, last) >= RTCP_INTERVAL_NS
}

/// The packets to resend for requests, each as the index of its entry in the
/// history and its own within the entry; and how many requests came too late.
pub ghost struct ResendView {
    pub packets: Seq<(int, int)>,
    pub expired: nat,
}

/// Where a frame with that id first stands in a history.
pub open spec fn entry_with(history: Seq<HistoryEntry>, id: u8) -> Option<int>
    decreases history.len(),
{
    if history.len() == 0 {
        None
    } else if history[0].id == id {
        Some(0)
    } else {
        match entry_with(history.skip(1), id) {
            Some(i) => Some(i + 1),
            None => None,
        }
    }
}

/// The packets of an entry that some ids name, in order. Ids past its packets
/// name none.
pub open spec fn named_packets(entry: int, count: nat, ids: Seq<u16>) -> Seq<(int, int)>
    decreases ids.len(),
{
    if ids.len() == 0 {
        Seq::empty()
    } else {
        let before = named_packets(entry, count, ids.drop_last());
        if ids.last() < count {
            before.push((entry, ids.last() as int))
        } else {
            before
        }
    }
}

/// What one request asks to be resent of entry `entry`, which has `count`
/// packets.
pub open spec fn asked_of_entry(entry: int, count: nat, nack: Nack) -> Seq<(int, int)> {
    match requested_ids(nack) {
        None => Seq::new(count, |i: int| (entry, i)),
        Some(ids) => named_packets(entry, count, ids),
    }
}

/// What some requests ask to be resent, in order.
pub open spec fn resend_of(history: Seq<HistoryEntry>, nacks: Seq<Nack>) -> ResendView
    decreases nacks.len(),
{
    if nacks.len() == 0 {
        ResendView { packets: Seq::empty(), expired: 0 }
    } else {
        let before = resend_of(history, nacks.drop_last());
        match entry_with(history, nacks.last().frame_id) {
            None => ResendView { expired: before.expired + 1, ..before },
            Some(entry) => ResendView {
                packets: before.packets + asked_of_entry(
                    entry,
                    history[entry].packets@.len(),
                    nacks.last(),
                ),
                ..before
            },
        }
    }
}

/// What to resend, and how many requests can no longer be served: their frame
/// left the history.
#[derive(Debug)]
pub struct Resend {
    /// Each packet as the index of its entry in the history and its own.
    pub packets: Vec<(usize, usize)>,
    pub expired: usize,
}

/// Whether a list of indexes is the one a view names.
pub open spec fn same_packets(packets: Seq<(usize, usize)>, wanted: Seq<(int, int)>) -> bool {
    &&& packets.len() == wanted.len()
    &&& forall|i: int|
        0 <= i < packets.len() ==> (#[trigger] packets[i]).0 == wanted[i].0 && packets[i].1
            == wanted[i].1
}

proof fn entry_with_is_first(history: Seq<HistoryEntry>, id: u8, at: int)
    requires
        0 <= at <= history.len(),
        at < history.len() ==> history[at].id == id,
        forall|i: int| 0 <= i < at ==> (#[trigger] history[i]).id != id,
    ensures
        entry_with(history, id) == (if at < history.len() {
            Some(at)
        } else {
            None
        }),
    decreases history.len(),
{
    if history.len() > 0 && at > 0 {
        let rest = history.skip(1);
        assert(history[0].id != id);
        assert forall|i: int| 0 <= i < at - 1 implies (#[trigger] rest[i]).id != id by {
            assert(rest[i] == history[i + 1]);
        }
        entry_with_is_first(rest, id, at - 1);
    }
}

fn find_entry(history: &History, id: u8) -> (res: Option<usize>)
    ensures
        match res {
            Some(entry) => entry_with(history@, id) == Some(entry as int) && entry < history@.len(),
            None => entry_with(history@, id) is None,
        },
{
    let mut i: usize = 0;
    while i < history.len() && history[i].id != id
        invariant
            i <= history@.len(),
            forall|j: int| 0 <= j < i ==> (#[trigger] history@[j]).id != id,
        decreases history@.len() - i,
    {
        i += 1;
    }
    proof {
        entry_with_is_first(history@, id, i as int);
    }
    if i < history.len() {
        Some(i)
    } else {
        None
    }
}

fn push_named(packets: &mut Vec<(usize, usize)>, entry: usize, count: usize, ids: &Vec<u16>)
    ensures
        final(packets)@.len() == old(packets)@.len() + named_packets(
            entry as int,
            count as nat,
            ids@,
        ).len(),
        final(packets)@.take(old(packets)@.len() as int) == old(packets)@,
        same_packets(
            final(packets)@.skip(old(packets)@.len() as int),
            named_packets(entry as int, count as nat, ids@),
        ),
{
    let ghost start = packets@.len();
    let mut i: usize = 0;
    assert(packets@.take(start as int) =~= packets@);
    while i < ids.len()
        invariant
            i <= ids@.len(),
            start == old(packets)@.len(),
            packets@.len() == start + named_packets(
                entry as int,
                count as nat,
                ids@.take(i as int),
            ).len(),
            packets@.take(start as int) == old(packets)@,
            same_packets(
                packets@.skip(start as int),
                named_packets(entry as int, count as nat, ids@.take(i as int)),
            ),
        decreases ids@.len() - i,
    {
        assert(ids@.take(i + 1).drop_last() =~= ids@.take(i as int));
        let ghost before = packets@;
        let id: usize = ids[i] as usize;
        if id < count {
            packets.push((entry, id));
            assert(packets@.take(start as int) =~= before.take(start as int));
            assert(packets@.skip(start as int) =~= before.skip(start as int).push((entry, id)));
        }
        i += 1;
    }
    assert(ids@.take(i as int) =~= ids@);
}

fn push_all_packets(packets: &mut Vec<(usize, usize)>, entry: usize, count: usize)
    ensures
        final(packets)@.len() == old(packets)@.len() + count,
        final(packets)@.take(old(packets)@.len() as int) == old(packets)@,
        same_packets(
            final(packets)@.skip(old(packets)@.len() as int),
            Seq::new(count as nat, |i: int| (entry as int, i)),
        ),
{
    let ghost start = packets@.len();
    let mut i: usize = 0;
    assert(packets@.take(start as int) =~= packets@);
    while i < count
        invariant
            i <= count,
            start == old(packets)@.len(),
            packets@.len() == start + i,
            packets@.take(start as int) == old(packets)@,
            forall|j: int| 0 <= j < i ==> #[trigger] packets@[start + j] == (entry, j as usize),
        decreases count - i,
    {
        let ghost before = packets@;
        packets.push((entry, i));
        assert(packets@.take(start as int) =~= before.take(start as int));
        i += 1;
    }
    assert forall|j: int| 0 <= j < count implies (#[trigger] packets@.skip(start as int)[j]).0
        == entry && packets@.skip(start as int)[j].1 == j by {
        assert(packets@[start + j] == (entry, j as usize));
    }
}

impl StreamSender {
    /// A sender for an accepted stream that has sent nothing. `now` is when it is
    /// made, in nanoseconds.
    pub fn new(stream: &OfferedStream, time_base: u32, rtcp_enabled: bool, now: u64) -> (res: Self)
        ensures
            res.packetizer@ == (PacketizerView {
                ssrc: stream.ssrc,
                payload_type: stream.payload_type,
                sequence: 0,
            }),
            res.keys == stream.keys,
            res.time_base == time_base,
            res.frame_id == 0,
            res.history@ == Seq::<HistoryEntry>::empty(),
            res.stats == (SenderStats { packets: 0, octets: 0 }),
            res.flow == (FlowWatch {
                last_pts_ns: None,
                last_send: None,
                frames: 0,
                pts_jumps: 0,
                worst_pts_jump_ms: 0,
                worst_send_gap_ms: 0,
            }),
            res.last_rtp_timestamp == 0,
            res.last_report == now,
            res.rtcp_enabled == rtcp_enabled,
    {
        StreamSender {
            packetizer: Packetizer::new(stream.ssrc, stream.payload_type),
            keys: stream.keys,
            time_base,
            frame_id: 0,
            history: VecDeque::new(),
            stats: SenderStats { packets: 0, octets: 0 },
            flow: FlowWatch::new(),
            last_rtp_timestamp: 0,
            last_report: now,
            rtcp_enabled,
        }
    }

    /// This stream's SSRC.
    pub fn ssrc(&self) -> (res: u32)
        ensures
            res == self.packetizer@.ssrc,
    {
        self.packetizer.ssrc()
    }

    /// Is this the video stream?
    pub fn is_video(&self) -> (res: bool)
        ensures
            res == (self.time_base == VIDEO_TIME_BASE),
    {
        self.time_base == VIDEO_TIME_BASE
    }

    /// Encrypts and packetises one frame, and keeps its packets: they are the last
    /// entry of the history, ready for the socket.
    pub fn pump(&mut self, data: &[u8], is_key: bool, pts_ns: u64, now: u64)
        requires
            old(self).flow.frames < u64::MAX,
            old(self).flow.pts_jumps < u64::MAX,
        ensures
            has_pumped(*final(self), *old(self), data@, is_key, pts_ns, now),
            holds_consecutive_frames(old(self).history@, old(self).frame_id - 1)
                ==> holds_consecutive_frames(final(self).history@, final(self).frame_id - 1),
    {
        let reference: Option<u32> = if !is_key && self.frame_id > 0 {
            Some(self.frame_id - 1)
        } else {
            None
        };
        let timestamp: u32 = rtp_timestamp(pts_ns, self.time_base);
        let payload = encrypt_frame(&self.keys.key, &self.keys.iv_mask, self.frame_id, data);
        let frame = Frame {
            frame_id: self.frame_id,
            reference_frame_id: reference,
            rtp_timestamp: timestamp,
            payload: payload.as_slice(),
        };
        let ghost view = next_frame(*self, data@, is_key, pts_ns);
        assert(frame@.payload =~= view.payload);
        assert(frame@ == view);
        let packets = self.packetizer.packetize(&frame);
        let entry = HistoryEntry { id: (self.frame_id % 256) as u8, sent_at: now, packets };
        let ghost kept = entry;
        assert(keeps(kept, old(self).packetizer@, view, now));
        self.history.push_back(entry);
        let ghost all = self.history@;
        proof {
            the_last_entry_stays(all, now);
        }
        prune_history(&mut self.history, now);
        let expected: u64 = if self.is_video() {
            33_000_000
        } else {
            10_000_000
        };
        self.flow.record(pts_ns, expected, now);
        self.last_rtp_timestamp = timestamp;
        self.frame_id = self.frame_id.wrapping_add(1);
        assert(self.history@ == pruned(old(self).history@.push(kept), now));
        proof {
            if holds_consecutive_frames(old(self).history@, old(self).frame_id - 1) {
                sending_keeps_frames_consecutive(
                    old(self).history@,
                    kept,
                    old(self).frame_id - 1,
                    now,
                );
                let last: int = old(self).frame_id as int;
                assert((self.frame_id - 1) % 256 == last % 256);
                consecutive_up_to_wrapping(self.history@, last, self.frame_id - 1);
            }
        }
    }

    /// Accounts for a packet that the socket took. One that it did not take is
    /// not counted: the receiver asks for whatever is missing to be resent.
    pub fn record_sent(&mut self, bytes: usize)
        ensures
            final(self).stats.packets == (old(self).stats.packets + 1) % 0x1_0000_0000,
            final(self).stats.octets == (old(self).stats.octets + bytes) % 0x1_0000_0000,
            final(self).packetizer == old(self).packetizer,
            final(self).history == old(self).history,
            final(self).frame_id == old(self).frame_id,
            final(self).keys == old(self).keys,
            final(self).time_base == old(self).time_base,
            final(self).flow == old(self).flow,
            final(self).last_rtp_timestamp == old(self).last_rtp_timestamp,
            final(self).last_report == old(self).last_report,
            final(self).rtcp_enabled == old(self).rtcp_enabled,
    {
        self.stats.record(bytes);
    }

    /// Which packets to resend for what the receiver declared lost.
    ///
    /// This is what prevents the freeze: without retransmission, one lost
    /// datagram leaves the frame incomplete and the receiver stops advancing.
    pub fn retransmit(&self, nacks: &[Nack]) -> (res: Resend)
        ensures
            same_packets(res.packets@, resend_of(self.history@, nacks@).packets),
            res.expired == resend_of(self.history@, nacks@).expired,
            forall|i: int|
                0 <= i < res.packets@.len() ==> (#[trigger] res.packets@[i]).0
                    < self.history@.len() && res.packets@[i].1
                    < self.history@[res.packets@[i].0 as int].packets@.len(),
    {
        let mut packets: Vec<(usize, usize)> = Vec::new();
        let mut expired: usize = 0;
        let mut i: usize = 0;
        while i < nacks.len()
            invariant
                i <= nacks.len(),
                expired <= i,
                nacks@.len() == nacks.len(),
                same_packets(packets@, resend_of(self.history@, nacks@.take(i as int)).packets),
                expired == resend_of(self.history@, nacks@.take(i as int)).expired,
                forall|k: int|
                    0 <= k < packets@.len() ==> (#[trigger] packets@[k]).0 < self.history@.len()
                        && packets@[k].1 < self.history@[packets@[k].0 as int].packets@.len(),
            decreases nacks.len() - i,
        {
            let ghost before = packets@;
            let ghost wanted = resend_of(self.history@, nacks@.take(i as int));
            assert(nacks@.take(i + 1).drop_last() =~= nacks@.take(i as int));
            assert(nacks@.take(i + 1).last() == nacks@[i as int]);
            let nack = nacks[i];
            match find_entry(&self.history, nack.frame_id) {
                None => {
                    // The receiver will wait for it forever, so the caller needs
                    // to know: for video we can start over with a key frame.
                    expired += 1;
                },
                Some(entry) => {
                    let count: usize = self.history[entry].packets.len();
                    let ghost asked = asked_of_entry(entry as int, count as nat, nack);
                    match nack.packet_ids() {
                        None => push_all_packets(&mut packets, entry, count),
                        Some(ids) => push_named(&mut packets, entry, count, &ids),
                    }
                    let ghost added = packets@.skip(before.len() as int);
                    assert(packets@ =~= before + added) by {
                        assert(packets@.take(before.len() as int) == before);
                        assert(packets@ =~= packets@.take(before.len() as int) + added);
                    }
                    assert(same_packets(added, asked));
                    proof {
                        asked_packets_exist(entry as int, count as nat, nack);
                    }
                    assert(same_packets(packets@, wanted.packets + asked)) by {
                        assert forall|k: int| 0 <= k < packets@.len() implies (
                        #[trigger] packets@[k]).0 == (wanted.packets + asked)[k].0 && packets@[k].1
                            == (wanted.packets + asked)[k].1 by {
                            if k < before.len() {
                                assert(before[k].0 == wanted.packets[k].0);
                            } else {
                                assert(packets@[k] == added[k - before.len()]);
                            }
                        }
                    }
                    assert forall|k: int| 0 <= k < packets@.len() implies (#[trigger] packets@[k]).0
                        < self.history@.len() && packets@[k].1
                        < self.history@[packets@[k].0 as int].packets@.len() by {
                        if k < before.len() {
                            assert(packets@[k] == before[k]);
                        } else {
                            assert(packets@[k] == added[k - before.len()]);
                            assert(asked[k - before.len()].0 == entry);
                        }
                    }
                },
            }
            i += 1;
        }
        assert(nacks@.take(i as int) =~= nacks@);
        Resend { packets, expired }
    }

    /// The *sender report* to send, when it is on and the interval has elapsed.
    /// Off by default.
    pub fn send_report_if_due(&mut self, now: u64, at: SystemTime) -> (res: Option<Vec<u8>>)
        ensures
            if !is_report_due(old(self).rtcp_enabled, old(self).last_report, now) {
                res is None && *final(self) == *old(self)
            } else {
                &&& res matches Some(report) && report@ == sender_report(
                    old(self).packetizer@.ssrc,
                    ntp_at(unix_time(at)) as u64,
                    old(self).last_rtp_timestamp,
                    old(self).stats,
                )
                &&& *final(self) == (StreamSender { last_report: now, ..*old(self) })
            },
    {
        if !self.rtcp_enabled || now.saturating_sub(self.last_report) < RTCP_INTERVAL_NS {
            return None;
        }
        self.last_report = now;
        let report = build_sender_report(
            self.packetizer.ssrc(),
            ntp_timestamp(at),
            self.last_rtp_timestamp,
            self.stats,
        );
        Some(report)
    }
}

proof fn asked_packets_exist(entry: int, count: nat, nack: Nack)
    ensures
        forall|i: int|
            0 <= i < asked_of_entry(entry, count, nack).len() ==> (#[trigger] asked_of_entry(
                entry,
                count,
                nack,
            )[i]).0 == entry && 0 <= asked_of_entry(entry, count, nack)[i].1 < count,
{
    if let Some(ids) = requested_ids(nack) {
        named_packets_exist(entry, count, ids);
    }
}

proof fn named_packets_exist(entry: int, count: nat, ids: Seq<u16>)
    ensures
        forall|i: int|
            0 <= i < named_packets(entry, count, ids).len() ==> (#[trigger] named_packets(
                entry,
                count,
                ids,
            )[i]).0 == entry && 0 <= named_packets(entry, count, ids)[i].1 < count,
    decreases ids.len(),
{
    if ids.len() > 0 {
        named_packets_exist(entry, count, ids.drop_last());
        let before = named_packets(entry, count, ids.drop_last());
        assert forall|i: int| 0 <= i < named_packets(entry, count, ids).len() implies (
        #[trigger] named_packets(entry, count, ids)[i]).0 == entry && 0 <= named_packets(
            entry,
            count,
            ids,
        )[i].1 < count by {
            if i < before.len() {
                assert(before[i].0 == entry);
            }
        }
    }
}

/// Whether a request asks for packet `packet` of its frame, which has `count`.
pub open spec fn asks_for(nack: Nack, packet: int, count: nat) -> bool {
    &&& 0 <= packet < count
    &&& match requested_ids(nack) {
        None => true,
        Some(ids) => exists|i: int| 0 <= i < ids.len() && #[trigger] ids[i] == packet,
    }
}

proof fn a_named_packet_is_listed(entry: int, count: nat, ids: Seq<u16>, i: int)
    requires
        0 <= i < ids.len(),
        ids[i] < count,
    ensures
        named_packets(entry, count, ids).contains((entry, ids[i] as int)),
    decreases ids.len(),
{
    let before = named_packets(entry, count, ids.drop_last());
    let after = named_packets(entry, count, ids);
    if i == ids.len() - 1 {
        assert(after[before.len() as int] == (entry, ids[i] as int));
    } else {
        a_named_packet_is_listed(entry, count, ids.drop_last(), i);
        let k = choose|k: int| 0 <= k < before.len() && before[k] == (entry, ids[i] as int);
        assert(after[k] == (entry, ids[i] as int));
    }
}

/// A frame arrives whole: what the receiver puts together from its packets and
/// decrypts, with the keys it was offered, is what was encoded.
pub proof fn a_frame_arrives_whole(
    sender: StreamSender,
    data: Seq<u8>,
    is_key: bool,
    pts_ns: u64,
)
    ensures
        ({
            let frame = next_frame(sender, data, is_key, pts_ns);
            let received = reassembled(frame_packets(sender.packetizer@, frame));
            encrypted(sender.keys.key@, sender.keys.iv_mask@, frame.frame_id, received) == data
        }),
{
    split_is_lossless(sender.packetizer@, next_frame(sender, data, is_key, pts_ns));
    encryption_round_trip(sender.keys.key@, sender.keys.iv_mask@, sender.frame_id, data);
}

/// Whatever the receiver asks for of a frame that is still kept is resent.
pub proof fn a_requested_packet_is_resent(
    history: Seq<HistoryEntry>,
    nacks: Seq<Nack>,
    i: int,
    entry: int,
    packet: int,
)
    requires
        0 <= i < nacks.len(),
        entry_with(history, nacks[i].frame_id) == Some(entry),
        asks_for(nacks[i], packet, history[entry].packets@.len()),
    ensures
        resend_of(history, nacks).packets.contains((entry, packet)),
    decreases nacks.len(),
{
    let before = resend_of(history, nacks.drop_last());
    let after = resend_of(history, nacks);
    if i == nacks.len() - 1 {
        let count = history[entry].packets@.len();
        let asked = asked_of_entry(entry, count, nacks[i]);
        match requested_ids(nacks[i]) {
            None => {
                assert(asked[packet] == (entry, packet));
            },
            Some(ids) => {
                let k = choose|k: int| 0 <= k < ids.len() && #[trigger] ids[k] == packet;
                a_named_packet_is_listed(entry, count, ids, k);
            },
        }
        let k = choose|k: int| 0 <= k < asked.len() && asked[k] == (entry, packet);
        assert(after.packets[before.packets.len() + k] == (entry, packet));
    } else {
        assert(nacks.drop_last()[i] == nacks[i]);
        a_requested_packet_is_resent(history, nacks.drop_last(), i, entry, packet);
        let k = choose|k: int|
            0 <= k < before.packets.len() && before.packets[k] == (entry, packet);
        assert(after.packets[k] == (entry, packet));
    }
}

/// Does this failure mean that the receiver has no mirroring, so that the HTTP
/// path is worth a try?
///
/// It tells "this device has no mirroring app" apart from "the stream broke
/// midway". The distinction is carried by the **error type**, not by its text.
pub fn is_unsupported(error: &NdError) -> (res: bool)
    ensures
        res == (error is Unsupported),
{
    matches!(error, NdError::Unsupported(_))
}

/// The configuration of a session's pipeline.
pub open spec fn is_session_config(
    cfg: StreamConfig,
    size: (u32, u32),
    encoder: H264Encoder,
    audio: AudioSource,
) -> bool {
    &&& cfg.width == fitted(size, CHROMECAST_MAX_RESOLUTION).0
    &&& cfg.height == fitted(size, CHROMECAST_MAX_RESOLUTION).1
    &&& cfg.fps == 30
    &&& cfg.bitrate_kbps == 0
    &&& cfg.encoder == encoder
    &&& cfg.audio == audio
    &&& !cfg.intra_refresh
}

/// What is offered for a pipeline.
pub open spec fn offered_for(cfg: StreamConfig, target_delay_ms: u32) -> MirrorConfig {
    MirrorConfig {
        width: cfg.width,
        height: cfg.height,
        fps: 30,
        max_bitrate: (scaled_bitrate(cfg) * 1000) as u32,
        target_delay_ms,
        with_audio: true,
    }
}

/// The pipeline and the offer of a session: the screen shrunk to what the
/// receiver takes, the first candidate encoder, and the bitrate that goes with
/// them.
pub fn configure(
    size: (u32, u32),
    candidates: &[H264Encoder],
    audio: AudioSource,
    overrides: Overrides,
    target_delay_ms: u32,
) -> (res: Result<(StreamConfig, MirrorConfig), NdError>)
    ensures
        match res {
            Ok((cfg, mirror)) => {
                &&& candidates@.len() > 0
                &&& is_session_config(cfg, size, candidates@[0], audio)
                &&& cfg.overrides == overrides
                &&& mirror == offered_for(cfg, target_delay_ms)
            },
            Err(error) => candidates@.len() == 0 && error@ == ErrorView::Unsupported(
                "no H.264 encoder available"@,
            ),
        },
{
    if candidates.len() == 0 {
        return Err(unsupported_error("no H.264 encoder available"));
    }
    let (width, height) = StreamConfig::fit_within(size, CHROMECAST_MAX_RESOLUTION);
    let cfg = StreamConfig {
        width,
        height,
        fps: 30,
        bitrate_kbps: 0,
        encoder: candidates[0],
        audio,
        intra_refresh: false,
        overrides,
    };
    let kbps: u32 = cfg.scaled_bitrate_kbps();
    assert(kbps <= 20_000);
    let mirror = MirrorConfig {
        width,
        height,
        fps: cfg.fps,
        max_bitrate: kbps * 1000,
        target_delay_ms,
        with_audio: true,
    };
    Ok((cfg, mirror))
}

/// One track to stream.
#[derive(Clone, Copy)]
pub struct PlannedStream {
    pub stream: OfferedStream,
    pub time_base: u32,
}

/// The tracks of a session: the accepted video, then the accepted audio where
/// the pipeline has a sink for it.
pub open spec fn planned(
    video: Option<OfferedStream>,
    audio: Option<OfferedStream>,
    has_audio_sink: bool,
) -> Seq<PlannedStream> {
    (match video {
        Some(stream) => seq![PlannedStream { stream, time_base: VIDEO_TIME_BASE }],
        None => Seq::empty(),
    }) + (match audio {
        Some(stream) => if has_audio_sink {
            seq![PlannedStream { stream, time_base: AUDIO_TIME_BASE }]
        } else {
            Seq::empty()
        },
        None => Seq::empty(),
    })
}

/// Plans the tracks of a session. The receiver accepts streams individually, and
/// a session goes on without audio: video is what matters here.
pub fn plan_streams(session: &Negotiated, has_audio_sink: bool) -> (res: Result<
    Vec<PlannedStream>,
    NdError,
>)
    ensures
        ({
            let wanted = planned(
                first_accepted(session.offer.streams@, session.answer@, true),
                first_accepted(session.offer.streams@, session.answer@, false),
                has_audio_sink,
            );
            match res {
                Ok(streams) => wanted.len() > 0 && streams@ == wanted,
                Err(error) => wanted.len() == 0 && error@ == ErrorView::Unsupported(
                    "the receiver accepted no usable stream"@,
                ),
            }
        }),
{
    let mut streams: Vec<PlannedStream> = Vec::new();
    if let Some(stream) = session.video() {
        streams.push(PlannedStream { stream: *stream, time_base: VIDEO_TIME_BASE });
    }
    if let Some(stream) = session.audio() {
        if has_audio_sink {
            streams.push(PlannedStream { stream: *stream, time_base: AUDIO_TIME_BASE });
        }
    }
    assert(streams@ =~= planned(
        first_accepted(session.offer.streams@, session.answer@, true),
        first_accepted(session.offer.streams@, session.answer@, false),
        has_audio_sink,
    ));
    if streams.len() == 0 {
        return Err(unsupported_error("the receiver accepted no usable stream"));
    }
    Ok(streams)
}

/// What a datagram from the receiver means to the session.
#[derive(Debug)]
pub struct Received {
    /// It is a sign of life.
    pub alive: bool,
    /// It asks for a key frame.
    pub wants_key_frame: bool,
    /// It asks for these packets of the stream at this index.
    pub lost: Option<(usize, Vec<Nack>)>,
}

/// Where an SSRC last stands in a list: a stream takes over what was for an
/// earlier one of the same SSRC.
pub open spec fn stream_with(ssrcs: Seq<u32>, ssrc: u32) -> Option<int>
    decreases ssrcs.len(),
{
    if ssrcs.len() == 0 {
        None
    } else if ssrcs.last() == ssrc {
        Some(ssrcs.len() - 1)
    } else {
        stream_with(ssrcs.drop_last(), ssrc)
    }
}

/// What a datagram asks to be resent, and of which stream: nothing where its
/// feedback names no losses, or a stream that is not ours.
pub open spec fn losses_in(bytes: Seq<u8>, ssrcs: Seq<u32>) -> Option<(int, Seq<Nack>)> {
    match feedback_in(bytes) {
        Some(feedback) => match stream_with(ssrcs, feedback.sender_ssrc) {
            Some(stream) => if feedback.nacks.len() > 0 {
                Some((stream, feedback.nacks))
            } else {
                None
            },
            None => None,
        },
        None => None,
    }
}

/// Reads a datagram from the receiver. Cast packets are compound: every block has
/// to be walked, or the feedback stays invisible. Each stream's requests are
/// identified by its SSRC.
pub fn receive(packet: &[u8], ssrcs: &[u32]) -> (res: Received)
    ensures
        ({
            let alive = classified(packet@) is Some;
            &&& res.alive == alive
            &&& res.wants_key_frame == (alive && compound(packet@).contains(
                ReceiverPacket::PictureLossIndication,
            ))
            &&& match res.lost {
                Some((stream, nacks)) => alive && losses_in(packet@, ssrcs@) == Some(
                    (stream as int, nacks@),
                ),
                None => !alive || losses_in(packet@, ssrcs@) is None,
            }
        }),
{
    if classify_receiver_packet(packet).is_none() {
        return Received { alive: false, wants_key_frame: false, lost: None };
    }
    let blocks = parse_compound(packet);
    let mut wants_key_frame = false;
    let mut i: usize = 0;
    while i < blocks.len()
        invariant
            i <= blocks@.len(),
            wants_key_frame == exists|j: int|
                0 <= j < i && #[trigger] blocks@[j] == ReceiverPacket::PictureLossIndication,
        decreases blocks@.len() - i,
    {
        if blocks[i] == ReceiverPacket::PictureLossIndication {
            assert(blocks@[i as int] == ReceiverPacket::PictureLossIndication);
            wants_key_frame = true;
        }
        i += 1;
    }
    assert(wants_key_frame == blocks@.contains(ReceiverPacket::PictureLossIndication));
    let feedback = match parse_cast_feedback(packet) {
        Some(feedback) => feedback,
        None => {
            return Received { alive: true, wants_key_frame, lost: None };
        },
    };
    // How many streams are left to look at, from the last.
    let mut left: usize = ssrcs.len();
    assert(ssrcs@.take(left as int) =~= ssrcs@);
    while left > 0 && ssrcs[left - 1] != feedback.sender_ssrc
        invariant
            left <= ssrcs@.len(),
            stream_with(ssrcs@, feedback.sender_ssrc) == stream_with(
                ssrcs@.take(left as int),
                feedback.sender_ssrc,
            ),
        decreases left,
    {
        assert(ssrcs@.take(left as int).drop_last() =~= ssrcs@.take(left - 1));
        left -= 1;
    }
    if left == 0 || feedback.nacks.len() == 0 {
        return Received { alive: true, wants_key_frame, lost: None };
    }
    Received { alive: true, wants_key_frame, lost: Some((left - 1, feedback.nacks)) }
}

/// Gathers requests for one round of retransmissions: batches are added while no
/// more than the limit is pending.
pub fn gather_more(pending: usize) -> (res: bool)
    ensures
        res == (pending <= NACK_BATCH),
{
    pending <= NACK_BATCH
}

/// The receiver's sign of life, as a sender sees it: how many packets it has
/// sent, and when that last changed.
#[derive(Clone, Copy, Debug, PartialEq, Eq, Structural)]
pub struct Liveness {
    pub seen: u64,
    /// In nanoseconds.
    pub since: u64,
}

impl Liveness {
    /// What is known at the start.
    pub fn new(seen: u64, now: u64) -> (res: Self)
        ensures
            res == (Liveness { seen, since: now }),
    {
        Liveness { seen, since: now }
    }

    /// Takes note of how many packets the receiver has sent by now. Fails where it
    /// has spoken before and has since been silent for too long: the session ended
    /// on that end.
    pub fn observe(&mut self, seen: u64, now: u64) -> (res: Result<(), NdError>)
        ensures
            if seen != old(self).seen {
                res is Ok && *final(self) == (Liveness { seen, since: now })
            } else {
                &&& *final(self) == *old(self)
                &&& match res {
                    Ok(_) => seen == 0 || age(now, old(self).since)
                        <= RECEIVER_SILENCE_TIMEOUT_NS,
                    Err(error) => seen > 0 && age(now, old(self).since)
                        > RECEIVER_SILENCE_TIMEOUT_NS && error@ == ErrorView::Protocol(
                        "the receiver stopped responding"@,
                    ),
                }
            },
    {
        if seen != self.seen {
            self.seen = seen;
            self.since = now;
            return Ok(());
        }
        if seen > 0 && now.saturating_sub(self.since) > RECEIVER_SILENCE_TIMEOUT_NS {
            return Err(protocol_error("the receiver stopped responding"));
        }
        Ok(())
    }
}

/// A stream's sender at work.
///
/// **One thread per stream.** Alternating between video and audio on a single
/// thread tied the audio to the video's cadence: with 10 ms frames, audio has to be
/// drained about 100 times per second.
pub struct SenderLoop {
    pub sender: StreamSender,
    pub liveness: Liveness,
    /// When statistics were last logged, in nanoseconds.
    pub last_stats: u64,
}

/// What a sender does before it pulls the next frame.
#[derive(Debug)]
pub struct Turn {
    /// What to resend.
    pub resend: Resend,
    /// What the request for a key frame is left at.
    pub key_requested: bool,
    /// Ask the encoder for a key frame.
    pub force_key_frame: bool,
    /// The session is over, and why.
    pub end: Option<NdError>,
}

/// What was pulled from the pipeline.
pub enum Pulled<'a> {
    Frame { data: &'a [u8], is_key: bool, pts_ns: u64 },
    /// There simply was no frame ready yet.
    Nothing,
    EndOfStream,
}

/// What follows a pull.
#[derive(Clone, Copy, Debug, PartialEq, Eq, Structural)]
pub enum AfterPull {
    /// The last entry of the history holds packets to send.
    Send,
    Nothing,
    /// The stream has ended.
    Ended,
}

/// Whether the receiver has spoken before, and has since been silent for too long.
pub open spec fn is_dead(liveness: Liveness, seen: u64, now: u64) -> bool {
    seen == liveness.seen && seen > 0 && age(now, liveness.since) > RECEIVER_SILENCE_TIMEOUT_NS
}

/// Whether a key frame is wanted: it was asked for, or a picture was lost that can
/// no longer be resent.
pub open spec fn wants_key_frame(requested: bool, expired: nat, is_video: bool) -> bool {
    requested || (expired > 0 && is_video)
}

/// Whether the encoder is asked for a key frame now.
pub open spec fn forces_key_frame(wanted: bool, is_video: bool, dead: bool) -> bool {
    !dead && is_video && wanted
}

impl SenderLoop {
    /// A sender about to work. `seen` is how many packets the receiver has sent.
    pub fn new(sender: StreamSender, seen: u64, now: u64) -> (res: Self)
        ensures
            res.sender == sender,
            res.liveness == (Liveness { seen, since: now }),
            res.last_stats == now,
    {
        SenderLoop { sender, liveness: Liveness::new(seen, now), last_stats: now }
    }

    /// Decides what to do before the next frame is pulled.
    ///
    /// A request that can no longer be served would be waited for forever; for
    /// video we can start over with a key frame, and that is what unfreezes the
    /// picture. A key frame only makes sense for video. A receiver that has gone
    /// quiet ends the session.
    pub fn begin_turn(&mut self, pending: &[Nack], key_requested: bool, seen: u64, now: u64) -> (res:
        Turn)
        ensures
            final(self).sender == old(self).sender,
            final(self).last_stats == old(self).last_stats,
            final(self).liveness == (if seen != old(self).liveness.seen {
                Liveness { seen, since: now }
            } else {
                old(self).liveness
            }),
            ({
                let wanted = resend_of(old(self).sender.history@, pending@);
                let is_video = old(self).sender.time_base == VIDEO_TIME_BASE;
                let asked = wants_key_frame(key_requested, wanted.expired, is_video);
                let dead = is_dead(old(self).liveness, seen, now);
                &&& same_packets(res.resend.packets@, wanted.packets)
                &&& res.resend.expired == wanted.expired
                &&& forall|i: int|
                    0 <= i < res.resend.packets@.len() ==> (#[trigger] res.resend.packets@[i]).0
                        < old(self).sender.history@.len() && res.resend.packets@[i].1 < old(
                        self,
                    ).sender.history@[res.resend.packets@[i].0 as int].packets@.len()
                &&& res.force_key_frame == forces_key_frame(asked, is_video, dead)
                &&& res.key_requested == (asked && !res.force_key_frame)
                &&& match res.end {
                    Some(error) => dead && error@ == ErrorView::Protocol(
                        "the receiver stopped responding"@,
                    ),
                    None => !dead,
                }
            }),
    {
        let resend = self.sender.retransmit(pending);
        let is_video = self.sender.is_video();
        let asked = key_requested || (resend.expired > 0 && is_video);
        match self.liveness.observe(seen, now) {
            Err(error) => Turn {
                resend,
                key_requested: asked,
                force_key_frame: false,
                end: Some(error),
            },
            Ok(()) => {
                let force = is_video && asked;
                Turn {
                    resend,
                    key_requested: asked && !force,
                    force_key_frame: force,
                    end: None,
                }
            },
        }
    }

    /// Takes over what was pulled from the pipeline.
    pub fn take_frame(&mut self, pulled: Pulled<'_>, now: u64) -> (res: AfterPull)
        requires
            old(self).sender.flow.frames < u64::MAX,
            old(self).sender.flow.pts_jumps < u64::MAX,
        ensures
            final(self).liveness == old(self).liveness,
            final(self).last_stats == old(self).last_stats,
            match pulled {
                Pulled::Frame { data, is_key, pts_ns } => {
                    &&& res == AfterPull::Send
                    &&& has_pumped(
                        final(self).sender,
                        old(self).sender,
                        data@,
                        is_key,
                        pts_ns,
                        now,
                    )
                },
                Pulled::Nothing => {
                    &&& res == AfterPull::Nothing
                    &&& final(self).sender == old(self).sender
                },
                Pulled::EndOfStream => {
                    &&& res == AfterPull::Ended
                    &&& final(self).sender == old(self).sender
                },
            },
            holds_consecutive_frames(old(self).sender.history@, old(self).sender.frame_id - 1)
                ==> holds_consecutive_frames(
                final(self).sender.history@,
                final(self).sender.frame_id - 1,
            ),
    {
        match pulled {
            Pulled::Frame { data, is_key, pts_ns } => {
                self.sender.pump(data, is_key, pts_ns, now);
                AfterPull::Send
            },
            Pulled::Nothing => AfterPull::Nothing,
            Pulled::EndOfStream => AfterPull::Ended,
        }
    }

    /// The flow figures to log, once their interval has elapsed.
    pub fn stats_due(&mut self, now: u64) -> (res: Option<(u64, u64, u64, u64)>)
        ensures
            final(self).liveness == old(self).liveness,
            if are_stats_due(old(self).last_stats, now) {
                let flow = old(self).sender.flow;
                &&& res == Some(
                    (flow.frames, flow.pts_jumps, flow.worst_pts_jump_ms, flow.worst_send_gap_ms),
                )
                &&& final(self).last_stats == now
                &&& final(self).sender == (StreamSender {
                    flow: FlowWatch {
                        frames: 0,
                        pts_jumps: 0,
                        worst_pts_jump_ms: 0,
                        worst_send_gap_ms: 0,
                        ..flow
                    },
                    ..old(self).sender
                })
            } else {
                res is None && *final(self) == *old(self)
            },
    {
        if now.saturating_sub(self.last_stats) < STATS_INTERVAL_NS {
            return None;
        }
        self.last_stats = now;
        Some(self.sender.flow.take())
    }
}

/// The failure of a stream whose element the pipeline lacks.
pub fn element_error(name: &str, found: bool) -> (res: NdError)
    ensures
        res@ == ErrorView::Gst(
            if found {
                name@ + " is not an appsink"@
            } else {
                "element "@ + name@ + " not found"@
            },
        ),
{
    if found {
        NdError::Gst(copied(name).concat(" is not an appsink"))
    } else {
        NdError::Gst(copied("element ").concat(name).concat(" not found"))
    }
}

/// What ends a session.
#[derive(Debug)]
pub enum SessionEnd {
    /// A sender finished, this way.
    Sender(Result<(), NdError>),
    /// The pipeline said something, or closed its bus.
    Pipeline(Option<PipelineEvent>),
    /// It was asked to stop.
    Cancelled,
}

/// How a session ended. Only a sender's failure and a pipeline error are
/// failures.
pub fn outcome(end: SessionEnd) -> (res: Result<(), NdError>)
    ensures
        match end {
            SessionEnd::Sender(result) => res == result,
            SessionEnd::Pipeline(Some(PipelineEvent::Error { message, debug })) => res matches Err(
                error,
            ) && error@ == ErrorView::Gst(message@),
            _ => res is Ok,
        },
{
    match end {
        SessionEnd::Sender(result) => result,
        SessionEnd::Pipeline(Some(PipelineEvent::Error { message, debug: _ })) => Err(
            NdError::Gst(message),
        ),
        _ => Ok(()),
    }
}

/// A frame says what it depends on: a key frame on nothing, nor does the first
/// one, and any other on the frame right before it. It carries its data encrypted
/// under its stream's keys and its own id.
pub proof fn a_frame_names_what_it_depends_on(
    sender: StreamSender,
    data: Seq<u8>,
    is_key: bool,
    pts_ns: u64,
)
    ensures
        ({
            let frame = next_frame(sender, data, is_key, pts_ns);
            &&& frame.frame_id == sender.frame_id
            &&& is_key || sender.frame_id == 0 ==> frame.reference_frame_id is None
            &&& !is_key && sender.frame_id > 0 ==> (frame.reference_frame_id matches Some(before)
                && before + 1 == frame.frame_id)
            &&& frame.payload == encrypted(
                sender.keys.key@,
                sender.keys.iv_mask@,
                frame.frame_id,
                data,
            )
        }),
{
}

/// A second later, a stream's clock has advanced by its whole time base, from zero
/// on; and it counts evenly in between, by what has passed in full, wrapping at 32
/// bits.
pub proof fn a_second_is_one_time_base(pts_ns: int, time_base: u32)
    requires
        0 <= pts_ns,
    ensures
        timestamp_of(0, time_base as int) == 0,
        timestamp_of(pts_ns + 1_000_000_000, time_base as int) == (timestamp_of(
            pts_ns,
            time_base as int,
        ) + time_base) % 0x1_0000_0000,
        pts_ns * time_base < 0x1_0000_0000 * 1_000_000_000 ==> {
            let ticks = timestamp_of(pts_ns, time_base as int);
            ticks * 1_000_000_000 <= pts_ns * time_base < (ticks + 1) * 1_000_000_000
        },
{
    let base = time_base as int;
    let product = pts_ns * base;
    assert(product >= 0) by (nonlinear_arith)
        requires
            0 <= pts_ns,
            0 <= base,
            product == pts_ns * base,
    ;
    assert((pts_ns + 1_000_000_000) * base == product + 1_000_000_000 * base)
        by (nonlinear_arith)
        requires
            product == pts_ns * base,
    ;
    assert(0 * base == 0) by (nonlinear_arith);
    assert((product + 1_000_000_000 * base) / 1_000_000_000 == product / 1_000_000_000 + base);
}

/// The clock of a stream does not go back within its range.
pub proof fn a_later_frame_has_no_earlier_timestamp(a: int, b: int, time_base: u32)
    requires
        0 <= a <= b,
        b * time_base < 0x1_0000_0000 * 1_000_000_000,
    ensures
        timestamp_of(a, time_base as int) <= timestamp_of(b, time_base as int),
{
    let base = time_base as int;
    assert(0 <= a * base <= b * base) by (nonlinear_arith)
        requires
            0 <= a <= b,
            0 <= base,
    ;
}

/// A watch counts a jump exactly where two frames lie more than twice the expected
/// interval apart, and remembers the widest jump and the longest pause between two
/// sends: neither is ever less than the one just seen, nor than what it was.
pub proof fn a_watch_counts_jumps_and_pauses(
    flow: FlowWatch,
    pts_ns: u64,
    expected_ns: u64,
    now: u64,
)
    requires
        flow.frames < u64::MAX,
        flow.pts_jumps < u64::MAX,
    ensures
        ({
            let after = flow_after(flow, pts_ns, expected_ns, now);
            &&& after.frames == flow.frames + 1
            &&& after.last_pts_ns == Some(pts_ns) && after.last_send == Some(now)
            &&& flow.last_pts_ns is None ==> after.pts_jumps == flow.pts_jumps
                && after.worst_pts_jump_ms == flow.worst_pts_jump_ms
            &&& flow.last_send is None ==> after.worst_send_gap_ms == flow.worst_send_gap_ms
            &&& flow.last_pts_ns matches Some(previous) ==> {
                let jumped = pts_ns - previous > 2 * expected_ns;
                &&& after.pts_jumps == flow.pts_jumps + (if jumped {
                    1int
                } else {
                    0
                })
                &&& !jumped ==> after.worst_pts_jump_ms == flow.worst_pts_jump_ms
                &&& jumped ==> after.worst_pts_jump_ms * 1_000_000 + 999_999 >= pts_ns - previous
                &&& after.worst_pts_jump_ms >= flow.worst_pts_jump_ms
                &&& after.worst_pts_jump_ms > flow.worst_pts_jump_ms
                    ==> after.worst_pts_jump_ms * 1_000_000 <= pts_ns - previous
            }
            &&& flow.last_send matches Some(previous) ==> {
                &&& after.worst_send_gap_ms * 1_000_000 + 999_999 >= now - previous
                &&& after.worst_send_gap_ms >= flow.worst_send_gap_ms
                &&& after.worst_send_gap_ms > flow.worst_send_gap_ms
                    ==> after.worst_send_gap_ms * 1_000_000 <= now - previous
            }
        }),
{
}

/// The frame that a request means is the first one kept under its id, and is
/// missing only where none is.
pub proof fn a_request_finds_its_frame(history: Seq<HistoryEntry>, id: u8)
    ensures
        match entry_with(history, id) {
            Some(at) => 0 <= at < history.len() && history[at].id == id && forall|i: int|
                0 <= i < at ==> (#[trigger] history[i]).id != id,
            None => forall|i: int| 0 <= i < history.len() ==> (#[trigger] history[i]).id != id,
        },
    decreases history.len(),
{
    if history.len() > 0 && history[0].id != id {
        let rest = history.skip(1);
        a_request_finds_its_frame(rest, id);
        match entry_with(rest, id) {
            Some(at) => {
                assert(rest[at] == history[at + 1]);
                assert forall|i: int| 0 <= i < at + 1 implies (#[trigger] history[i]).id != id by {
                    if i > 0 {
                        assert(rest[i - 1] == history[i]);
                    }
                }
            },
            None => {
                assert forall|i: int| 0 <= i < history.len() implies (#[trigger] history[i]).id
                    != id by {
                    if i > 0 {
                        assert(rest[i - 1] == history[i]);
                    }
                }
            },
        }
    }
}

proof fn only_named_packets_are_listed(entry: int, count: nat, ids: Seq<u16>, k: int)
    requires
        0 <= k < named_packets(entry, count, ids).len(),
    ensures
        exists|i: int|
            0 <= i < ids.len() && #[trigger] ids[i] < count && named_packets(entry, count, ids)[k]
                == (entry, ids[i] as int),
    decreases ids.len(),
{
    if ids.len() > 0 {
        let before = named_packets(entry, count, ids.drop_last());
        let after = named_packets(entry, count, ids);
        if k < before.len() {
            only_named_packets_are_listed(entry, count, ids.drop_last(), k);
            let i = choose|i: int|
                0 <= i < ids.drop_last().len() && #[trigger] ids.drop_last()[i] < count && before[k]
                    == (entry, ids.drop_last()[i] as int);
            assert(ids[i] == ids.drop_last()[i]);
            assert(after[k] == before[k]);
        } else {
            assert(ids[ids.len() - 1] == ids.last());
        }
    }
}

/// Nothing is resent that was not asked for: each packet that is belongs to a
/// frame that a request names, and is one that this request asks for.
pub proof fn only_requested_packets_are_resent(
    history: Seq<HistoryEntry>,
    nacks: Seq<Nack>,
    k: int,
)
    requires
        0 <= k < resend_of(history, nacks).packets.len(),
    ensures
        ({
            let (entry, packet) = resend_of(history, nacks).packets[k];
            exists|i: int|
                0 <= i < nacks.len() && entry_with(history, (#[trigger] nacks[i]).frame_id) == Some(
                    entry,
                ) && asks_for(nacks[i], packet, history[entry].packets@.len())
        }),
    decreases nacks.len(),
{
    if nacks.len() > 0 {
        let front = nacks.drop_last();
        let before = resend_of(history, front);
        let after = resend_of(history, nacks);
        let last = nacks.len() - 1;
        let (entry, packet) = after.packets[k];
        if k < before.packets.len() {
            only_requested_packets_are_resent(history, front, k);
            assert(after.packets[k] == before.packets[k]);
            let i = choose|i: int|
                0 <= i < front.len() && entry_with(history, (#[trigger] front[i]).frame_id) == Some(
                    entry,
                ) && asks_for(front[i], packet, history[entry].packets@.len());
            assert(nacks[i] == front[i]);
        } else {
            let at = entry_with(history, nacks[last].frame_id)->0;
            let count = history[at].packets@.len();
            let asked = asked_of_entry(at, count, nacks[last]);
            let j = k - before.packets.len();
            assert(after.packets[k] == asked[j]);
            asked_packets_exist(at, count, nacks[last]);
            assert(asked[j].0 == at);
            if let Some(ids) = requested_ids(nacks[last]) {
                only_named_packets_are_listed(at, count, ids, j);
                let i = choose|i: int|
                    0 <= i < ids.len() && #[trigger] ids[i] < count && asked[j] == (
                        at,
                        ids[i] as int,
                    );
                assert(ids[i] == packet);
            }
            assert(asks_for(nacks[last], packet, count));
            assert(entry_with(history, nacks[last].frame_id) == Some(entry));
        }
    }
}

/// Whether the frame of a request is no longer kept.
pub open spec fn came_too_late(history: Seq<HistoryEntry>, nack: Nack) -> bool {
    forall|i: int| 0 <= i < history.len() ==> (#[trigger] history[i]).id != nack.frame_id
}

/// A request came too late exactly where its frame is no longer kept: one more of
/// those is one more that cannot be served, and any other request leaves the count
/// as it was.
pub proof fn requests_that_come_too_late_are_counted(
    history: Seq<HistoryEntry>,
    nacks: Seq<Nack>,
    nack: Nack,
)
    ensures
        resend_of(history, Seq::empty()).expired == 0,
        resend_of(history, nacks.push(nack)).expired == resend_of(history, nacks).expired + (
        if came_too_late(history, nack) {
            1int
        } else {
            0
        }),
        resend_of(history, nacks.push(nack)).packets.len() >= resend_of(
            history,
            nacks,
        ).packets.len(),
        came_too_late(history, nack) ==> resend_of(history, nacks.push(nack)).packets == resend_of(
            history,
            nacks,
        ).packets,
{
    assert(nacks.push(nack).drop_last() =~= nacks);
    a_request_finds_its_frame(history, nack.frame_id);
}

/// What is lost is resent on the stream that lost it: the last one under the
/// source that the feedback names, and none where none has it.
pub proof fn losses_belong_to_their_stream(ssrcs: Seq<u32>, ssrc: u32)
    ensures
        match stream_with(ssrcs, ssrc) {
            Some(at) => 0 <= at < ssrcs.len() && ssrcs[at] == ssrc && forall|i: int|
                at < i < ssrcs.len() ==> ssrcs[i] != ssrc,
            None => forall|i: int| 0 <= i < ssrcs.len() ==> ssrcs[i] != ssrc,
        },
    decreases ssrcs.len(),
{
    if ssrcs.len() > 0 && ssrcs.last() != ssrc {
        let front = ssrcs.drop_last();
        losses_belong_to_their_stream(front, ssrc);
        if let Some(at) = stream_with(front, ssrc) {
            assert(front[at] == ssrcs[at]);
            assert forall|i: int| at < i < ssrcs.len() implies ssrcs[i] != ssrc by {
                if i < front.len() {
                    assert(front[i] == ssrcs[i]);
                }
            }
        } else {
            assert forall|i: int| 0 <= i < ssrcs.len() implies ssrcs[i] != ssrc by {
                if i < front.len() {
                    assert(front[i] == ssrcs[i]);
                }
            }
        }
    }
}

/// A session streams what was accepted: the video first, on a clock of 90 kHz,
/// and the audio on one of 48 kHz where there is somewhere to take it from.
pub proof fn a_session_streams_what_was_accepted(
    video: Option<OfferedStream>,
    audio: Option<OfferedStream>,
    has_audio_sink: bool,
)
    ensures
        ({
            let plan = planned(video, audio, has_audio_sink);
            &&& plan.len() == (if video is Some {
                1int
            } else {
                0
            }) + (if audio is Some && has_audio_sink {
                1int
            } else {
                0
            })
            &&& video matches Some(stream) ==> plan[0].stream == stream && plan[0].time_base
                == 90_000
            &&& audio matches Some(stream) ==> (has_audio_sink ==> plan.last().stream == stream
                && plan.last().time_base == 48_000)
        }),
{
}

/// A session ends only where the receiver has spoken, and then not at all for more
/// than eight seconds: one that speaks again in time goes on, and so does one that
/// never has.
pub proof fn only_lasting_silence_ends_a_session(liveness: Liveness, seen: u64, now: u64)
    ensures
        is_dead(liveness, seen, now) ==> seen == liveness.seen && seen > 0 && now - liveness.since
            > 8_000_000_000,
        seen == liveness.seen && seen > 0 && now - liveness.since > 8_000_000_000 ==> is_dead(
            liveness,
            seen,
            now,
        ),
        seen == 0 ==> !is_dead(liveness, seen, now),
        seen != liveness.seen ==> !is_dead(liveness, seen, now),
{
}

/// Reports go out every half second where they are on, and never where they are
/// not; statistics are due every five seconds.
pub proof fn reports_keep_their_interval(enabled: bool, last: u64, now: u64)
    ensures
        !enabled ==> !is_report_due(enabled, last, now),
        enabled ==> (is_report_due(enabled, last, now) <==> now - last >= 500_000_000),
        are_stats_due(last, now) <==> now - last >= 5_000_000_000,
{
}

/// A request for a key frame is never lost: it is carried out at once on a video
/// stream that is alive, and stays pending everywhere else. Sound never forces one,
/// and a picture that can no longer be resent always asks for one.
pub proof fn a_key_frame_request_is_not_lost(
    requested: bool,
    expired: nat,
    is_video: bool,
    dead: bool,
)
    ensures
        ({
            let wanted = wants_key_frame(requested, expired, is_video);
            let forced = forces_key_frame(wanted, is_video, dead);
            &&& requested ==> wanted
            &&& is_video && expired > 0 ==> wanted
            &&& wanted && is_video && !dead ==> forced
            &&& forced ==> wanted && is_video && !dead
            &&& !is_video && !requested ==> !wanted
            &&& !requested && expired == 0 ==> !wanted
        }),
{
}

/// What is offered is what the pipeline sends: its picture, its rate, and its
/// bitrate in bits per second, with sound.
pub proof fn what_is_offered_is_what_is_sent(
    cfg: StreamConfig,
    size: (u32, u32),
    encoder: H264Encoder,
    audio: AudioSource,
    delay: u32,
)
    requires
        is_session_config(cfg, size, encoder, audio),
    ensures
        ({
            let offer = offered_for(cfg, delay);
            &&& offer.width == cfg.width && offer.height == cfg.height && offer.fps == cfg.fps
            &&& offer.max_bitrate == scaled_bitrate(cfg) * 1000
            &&& offer.target_delay_ms == delay
            &&& offer.with_audio
            &&& size.0 >= 2 && size.1 >= 2 ==> cfg.width <= 1920 && cfg.height <= 1080 && cfg.width
                <= size.0 && cfg.height <= size.1
            &&& cfg.encoder == encoder && cfg.audio == audio
        }),
{
    if size.0 >= 2 && size.1 >= 2 {
        fitting_shrinks_to_even_sides(size, CHROMECAST_MAX_RESOLUTION);
    }
}

/// A list of packets names no two different sets of them.
pub proof fn a_list_names_its_packets(
    packets: Seq<(usize, usize)>,
    wanted: Seq<(int, int)>,
    other: Seq<(int, int)>,
)
    requires
        same_packets(packets, wanted),
    ensures
        same_packets(packets, other) <==> wanted == other,
{
    if same_packets(packets, other) {
        assert forall|i: int| 0 <= i < wanted.len() implies wanted[i] == other[i] by {
            assert(packets[i].0 == wanted[i].0);
        }
        assert(wanted =~= other);
    }
}

/// Every loss that a receiver reports of a stream of ours is seen, be it one alone;
/// a report without any asks for nothing.
pub proof fn every_reported_loss_is_seen(bytes: Seq<u8>, ssrcs: Seq<u32>)
    ensures
        feedback_in(bytes) matches Some(feedback) ==> {
            let stream = stream_with(ssrcs, feedback.sender_ssrc);
            &&& stream is Some && feedback.nacks.len() >= 1 ==> losses_in(bytes, ssrcs) == Some(
                (stream->0, feedback.nacks),
            )
            &&& stream is None || feedback.nacks.len() == 0 ==> losses_in(bytes, ssrcs) is None
        },
        feedback_in(bytes) is None ==> losses_in(bytes, ssrcs) is None,
{
}

} // verus!
