//! Cast Streaming RTCP: *sender reports*, and what the receiver sends back.
//!
//! The receiver needs to know which wall-clock instant a given RTP timestamp
//! corresponds to: that pairing is what lets it schedule display and keep audio
//! and video in sync. On the return path it reports, asks for whatever it lost
//! to be resent, and says when it needs a key frame.
use crate::bytes::{push_be16, push_be32, push_be64, read_be16, read_be32};
use std::time::{SystemTime, UNIX_EPOCH};
use vstd::prelude::*;

verus! {

use crate::bytes::{
    be16, be16_round_trip, be32, be32_round_trip, be64, from_be16, from_be32,
};
use vstd::arithmetic::power2::pow2;

broadcast use vstd::slice::group_slice_axioms;

/// The "Sender Report" RTCP packet type.
pub const PT_SENDER_REPORT: u8 = 200;

/// First byte: version 2, no padding, zero report blocks.
pub const RTCP_FIRST_BYTE: u8 = 128;

/// Size of a sender report with no report blocks.
pub const SENDER_REPORT_SIZE: usize = 28;

/// Seconds between the NTP epoch (1900) and the Unix one (1970).
pub const NTP_UNIX_OFFSET_SECS: u64 = 2_208_988_800;

/// The receiver's report.
pub const PT_RECEIVER_REPORT: u8 = 201;

/// The receiver's log.
pub const PT_APPLICATION_DEFINED: u8 = 204;

/// Feedback about one stream: key-frame requests and retransmission requests.
pub const PT_PAYLOAD_SPECIFIC: u8 = 206;

/// The receiver's reference time.
pub const PT_EXTENDED_REPORTS: u8 = 207;

#[verifier::external_type_specification]
#[verifier::external_body]
pub struct ExSystemTime(std::time::SystemTime);

/// The whole seconds and nanoseconds from the Unix epoch to an instant; `None`
/// for an instant before it.
pub uninterp spec fn unix_time(at: SystemTime) -> Option<(u64, u32)>;

/// `SystemTime::duration_since` the Unix epoch, as `Duration::as_secs` and
/// `Duration::subsec_nanos` give it; `None` where it fails. The nanoseconds are a
/// fraction of a second.
#[verifier::external_body]
fn since_unix_epoch(at: SystemTime) -> (res: Option<(u64, u32)>)
    ensures
        res == unix_time(at),
        res matches Some((_, nanos)) ==> nanos < 1_000_000_000,
{
    match at.duration_since(UNIX_EPOCH) {
        Ok(since_epoch) => Some((since_epoch.as_secs(), since_epoch.subsec_nanos())),
        Err(_) => None,
    }
}

/// The fraction of a second on the scale of 2^32 per second.
pub open spec fn ntp_fraction(nanos: int) -> int {
    nanos * 0x1_0000_0000 / 1_000_000_000
}

/// The NTP timestamp of an instant given in whole seconds and nanoseconds since
/// the Unix epoch: the low 32 bits of the seconds since 1900 above the fraction
/// of a second.
pub open spec fn ntp(seconds: int, nanos: int) -> int {
    (seconds + NTP_UNIX_OFFSET_SECS) % 0x1_0000_0000 * 0x1_0000_0000 + ntp_fraction(nanos)
}

/// The NTP timestamp of an instant given in seconds and nanoseconds.
pub fn ntp_from_parts(seconds: u64, nanos: u32) -> (res: u64)
    requires
        nanos < 1_000_000_000,
    ensures
        res == ntp(seconds as int, nanos as int),
{
    let since_1900: u64 = seconds.wrapping_add(NTP_UNIX_OFFSET_SECS);
    let fraction: u64 = nanos as u64 * 0x1_0000_0000 / 1_000_000_000;
    assert(fraction < 0x1_0000_0000);
    since_1900 % 0x1_0000_0000 * 0x1_0000_0000 + fraction
}

/// The NTP timestamp of an instant by its time since the Unix epoch. One before
/// the epoch counts as the epoch.
pub open spec fn ntp_at(since_epoch: Option<(u64, u32)>) -> int {
    match since_epoch {
        Some((seconds, nanos)) => ntp(seconds as int, nanos as int),
        None => ntp(0, 0),
    }
}

/// Converts a system instant into a 64-bit NTP timestamp.
///
/// The high 32 bits are seconds since 1900; the low ones, the fraction of a
/// second. An instant before the Unix epoch counts as the epoch.
pub fn ntp_timestamp(at: SystemTime) -> (res: u64)
    ensures
        res == ntp_at(unix_time(at)),
{
    match since_unix_epoch(at) {
        Some((seconds, nanos)) => ntp_from_parts(seconds, nanos),
        None => ntp_from_parts(0, 0),
    }
}

/// The timestamp advances with time, up to the turn of the era in which its
/// seconds wrap.
pub proof fn ntp_advances(s1: int, n1: int, s2: int, n2: int)
    requires
        0 <= s1,
        0 <= n1 < 1_000_000_000,
        0 <= n2 < 1_000_000_000,
        s1 < s2 || (s1 == s2 && n1 < n2),
        s2 + NTP_UNIX_OFFSET_SECS < 0x1_0000_0000,
    ensures
        ntp(s1, n1) < ntp(s2, n2),
{
}

/// The two halves of a timestamp: the seconds and the fraction.
pub proof fn ntp_halves(seconds: int, nanos: int)
    requires
        0 <= seconds,
        0 <= nanos < 1_000_000_000,
    ensures
        ntp(seconds, nanos) / 0x1_0000_0000 == (seconds + NTP_UNIX_OFFSET_SECS) % 0x1_0000_0000,
        ntp(seconds, nanos) % 0x1_0000_0000 == ntp_fraction(nanos),
        0 <= ntp(seconds, nanos) <= u64::MAX,
{
}

/// A stream's running counters, required by the report.
#[derive(Clone, Copy, Debug, Default, PartialEq, Eq)]
pub struct SenderStats {
    pub packets: u32,
    pub octets: u32,
}

/// Counters after one more packet of so many bytes. Both wrap at 32 bits.
pub open spec fn recorded(stats: SenderStats, bytes: int) -> SenderStats {
    SenderStats {
        packets: ((stats.packets + 1) % 0x1_0000_0000) as u32,
        octets: ((stats.octets + bytes) % 0x1_0000_0000) as u32,
    }
}

impl SenderStats {
    /// Accounts for one packet sent.
    pub fn record(&mut self, payload_bytes: usize)
        ensures
            *final(self) == recorded(*old(self), payload_bytes as int),
    {
        self.packets = self.packets.wrapping_add(1);
        self.octets = self.octets.wrapping_add((payload_bytes as u64 % 0x1_0000_0000) as u32);
    }
}

/// Counters after some more packets, in order.
pub open spec fn recorded_all(stats: SenderStats, sizes: Seq<nat>) -> SenderStats
    decreases sizes.len(),
{
    if sizes.len() == 0 {
        stats
    } else {
        recorded(recorded_all(stats, sizes.drop_last()), sizes.last() as int)
    }
}

/// How many bytes packets of some sizes hold together.
pub open spec fn total_size(sizes: Seq<nat>) -> nat
    decreases sizes.len(),
{
    if sizes.len() == 0 {
        0
    } else {
        total_size(sizes.drop_last()) + sizes.last()
    }
}

/// The counters count every packet and every byte sent, wrapping at 32 bits.
pub proof fn every_packet_is_counted(stats: SenderStats, sizes: Seq<nat>)
    ensures
        recorded_all(stats, sizes).packets == (stats.packets + sizes.len()) % 0x1_0000_0000,
        recorded_all(stats, sizes).octets == (stats.octets + total_size(sizes)) % 0x1_0000_0000,
    decreases sizes.len(),
{
    if sizes.len() > 0 {
        every_packet_is_counted(stats, sizes.drop_last());
    }
}

/// The bytes of a sender report (RFC 3550, section 6.4.1). Its length field
/// counts 32-bit words, less one.
pub open spec fn sender_report(ssrc: u32, ntp: u64, rtp_timestamp: u32, stats: SenderStats) -> Seq<
    u8,
> {
    seq![RTCP_FIRST_BYTE, PT_SENDER_REPORT] + be16(6) + be32(ssrc) + be64(ntp) + be32(rtp_timestamp)
        + be32(stats.packets) + be32(stats.octets)
}

/// Builds a *sender report* for the given stream.
pub fn build_sender_report(ssrc: u32, ntp: u64, rtp_timestamp: u32, stats: SenderStats) -> (packet:
    Vec<u8>)
    ensures
        packet@ == sender_report(ssrc, ntp, rtp_timestamp, stats),
        packet@.len() == SENDER_REPORT_SIZE,
{
    let mut packet: Vec<u8> = Vec::new();
    packet.push(RTCP_FIRST_BYTE);
    packet.push(PT_SENDER_REPORT);
    // The length in 32-bit words, less one.
    push_be16(&mut packet, (SENDER_REPORT_SIZE / 4 - 1) as u16);
    push_be32(&mut packet, ssrc);
    push_be64(&mut packet, ntp);
    push_be32(&mut packet, rtp_timestamp);
    push_be32(&mut packet, stats.packets);
    push_be32(&mut packet, stats.octets);
    assert(packet@ =~= sender_report(ssrc, ntp, rtp_timestamp, stats));
    packet
}

/// A readable summary of a packet coming from the receiver.
#[derive(Clone, Copy, Debug, PartialEq, Eq, Structural)]
pub enum ReceiverPacket {
    ReceiverReport,
    /// The receiver lost track and wants a key frame.
    PictureLossIndication,
    /// Cast feedback: checkpoint and retransmission requests.
    CastFeedback,
    ExtendedReport,
    ReceiverLog,
    Other(u8),
}

/// What a block is, by its type and, for payload-specific ones, its subtype:
/// the low 5 bits of the first byte.
pub open spec fn block_kind(first: u8, payload_type: u8) -> ReceiverPacket {
    if payload_type == PT_RECEIVER_REPORT {
        ReceiverPacket::ReceiverReport
    } else if payload_type == PT_EXTENDED_REPORTS {
        ReceiverPacket::ExtendedReport
    } else if payload_type == PT_APPLICATION_DEFINED {
        ReceiverPacket::ReceiverLog
    } else if payload_type == PT_PAYLOAD_SPECIFIC {
        if first % 32 == 1 {
            ReceiverPacket::PictureLossIndication
        } else {
            ReceiverPacket::CastFeedback
        }
    } else {
        ReceiverPacket::Other(payload_type)
    }
}

fn kind_of(first: u8, payload_type: u8) -> (res: ReceiverPacket)
    ensures
        res == block_kind(first, payload_type),
{
    match payload_type {
        PT_RECEIVER_REPORT => ReceiverPacket::ReceiverReport,
        PT_EXTENDED_REPORTS => ReceiverPacket::ExtendedReport,
        PT_APPLICATION_DEFINED => ReceiverPacket::ReceiverLog,
        PT_PAYLOAD_SPECIFIC => if first % 32 == 1 {
            ReceiverPacket::PictureLossIndication
        } else {
            ReceiverPacket::CastFeedback
        },
        other => ReceiverPacket::Other(other),
    }
}

/// The length in bytes that a block declares: its words plus the one that the
/// field leaves out.
pub open spec fn declared_len(bytes: Seq<u8>) -> int {
    (from_be16(bytes[2], bytes[3]) + 1) * 4
}

/// Whether `bytes` starts with a whole block: a header of version 2 whose
/// declared length is there.
pub open spec fn starts_with_block(bytes: Seq<u8>) -> bool {
    &&& bytes.len() >= 4
    &&& bytes[0] / 64 == 2
    &&& declared_len(bytes) <= bytes.len()
}

/// Every block of a compound datagram, in order, up to the first that is not
/// whole.
pub open spec fn compound(bytes: Seq<u8>) -> Seq<ReceiverPacket>
    decreases bytes.len(),
{
    if starts_with_block(bytes) {
        seq![block_kind(bytes[0], bytes[1])] + compound(bytes.skip(declared_len(bytes)))
    } else {
        Seq::empty()
    }
}

/// The length of the block at `offset`, where a whole one starts there.
fn block_len_at(packet: &[u8], offset: usize) -> (res: Option<usize>)
    requires
        offset <= packet@.len(),
    ensures
        res is Some == starts_with_block(packet@.skip(offset as int)),
        res matches Some(len) ==> len == declared_len(packet@.skip(offset as int)) && offset + len
            <= packet.len() && 4 <= len,
{
    let left: usize = packet.len() - offset;
    if left < 4 || packet[offset] / 64 != 2 {
        return None;
    }
    let words: u16 = read_be16(packet[offset + 2], packet[offset + 3]);
    let len: usize = (words as usize + 1) * 4;
    if len > left {
        return None;
    }
    Some(len)
}

/// Walks a **compound** RTCP datagram and returns every block.
///
/// A Cast packet carries several concatenated blocks (report, reference time,
/// key-frame request, feedback, log). Looking only at the first one hides
/// precisely what matters.
pub fn parse_compound(packet: &[u8]) -> (blocks: Vec<ReceiverPacket>)
    ensures
        blocks@ == compound(packet@),
{
    let mut blocks: Vec<ReceiverPacket> = Vec::new();
    let mut offset: usize = 0;
    assert(packet@.skip(0) =~= packet@);
    loop
        invariant
            offset <= packet@.len(),
            compound(packet@) == blocks@ + compound(packet@.skip(offset as int)),
        ensures
            compound(packet@) == blocks@,
        decreases packet@.len() - offset,
    {
        let ghost rest = packet@.skip(offset as int);
        match block_len_at(packet, offset) {
            None => {
                assert(blocks@ + Seq::<ReceiverPacket>::empty() =~= blocks@);
                break;
            },
            Some(len) => {
                let ghost before = blocks@;
                blocks.push(kind_of(packet[offset], packet[offset + 1]));
                assert(packet@.skip(offset + len) =~= rest.skip(len as int));
                assert(blocks@ + compound(rest.skip(len as int)) =~= before + compound(rest));
                offset = offset + len;
            },
        }
    }
    blocks
}

/// Whether `bytes` is a run of whole blocks with nothing left over.
pub open spec fn only_whole_blocks(bytes: Seq<u8>) -> bool
    decreases bytes.len(),
{
    bytes.len() == 0 || (starts_with_block(bytes) && only_whole_blocks(
        bytes.skip(declared_len(bytes)),
    ))
}

/// Walking concatenated blocks gives what walking each part gives: nothing that
/// follows a whole block is hidden by it.
pub proof fn compound_of_concatenation(a: Seq<u8>, b: Seq<u8>)
    requires
        only_whole_blocks(a),
    ensures
        compound(a + b) == compound(a) + compound(b),
    decreases a.len(),
{
    if a.len() == 0 {
        assert(a + b =~= b);
        assert(compound(a) + compound(b) =~= compound(b));
    } else {
        let len = declared_len(a);
        compound_of_concatenation(a.skip(len), b);
        assert((a + b).skip(len) =~= a.skip(len) + b);
        assert(compound(a + b) =~= compound(a) + compound(b));
    }
}

/// What a datagram received on the session socket is, `None` where it is no
/// whole RTCP packet: RTP arrives on the same socket.
pub open spec fn classified(bytes: Seq<u8>) -> Option<ReceiverPacket> {
    if bytes.len() >= 8 && starts_with_block(bytes) && 200 <= bytes[1] <= 207 {
        Some(block_kind(bytes[0], bytes[1]))
    } else {
        None
    }
}

/// Classifies a datagram received on the session socket.
///
/// Returns `None` when the packet is not valid RTCP: the same socket carries
/// RTP, so the two have to be told apart.
pub fn classify_receiver_packet(packet: &[u8]) -> (res: Option<ReceiverPacket>)
    ensures
        res == classified(packet@),
{
    assert(packet@.skip(0) =~= packet@);
    if packet.len() < 8 || block_len_at(packet, 0).is_none() {
        return None;
    }
    // The range reserved for RTCP; outside it, this is RTP.
    let payload_type: u8 = packet[1];
    if payload_type < 200 || payload_type > 207 {
        return None;
    }
    Some(kind_of(packet[0], payload_type))
}

/// A retransmission request.
#[derive(Clone, Copy, Debug, PartialEq, Eq, Structural)]
pub struct Nack {
    /// The requested frame (id truncated to 8 bits, as on the wire).
    pub frame_id: u8,
    /// The first packet. `0xFFFF` means **the whole frame**.
    pub packet_id: u16,
    /// Bitmap of the 8 packets following `packet_id`.
    pub bitmask: u8,
}

/// The packets that the set bits of `mask` stand for: the lowest bit for the
/// packet `step` after `packet_id`, each further bit for the one after it.
pub open spec fn masked_ids(packet_id: u16, mask: int, step: int) -> Seq<u16>
    decreases mask,
{
    if mask <= 0 {
        Seq::empty()
    } else {
        (if mask % 2 == 1 {
            seq![((packet_id + step) % 0x1_0000) as u16]
        } else {
            Seq::empty()
        }) + masked_ids(packet_id, mask / 2, step + 1)
    }
}

/// The packets a request covers, `None` for a whole frame.
pub open spec fn requested_ids(nack: Nack) -> Option<Seq<u16>> {
    if nack.packet_id == 0xFFFF {
        None
    } else {
        Some(seq![nack.packet_id] + masked_ids(nack.packet_id, nack.bitmask as int, 1))
    }
}

impl Nack {
    /// Every packet this request covers.
    ///
    /// `None` when the request is for the whole frame.
    pub fn packet_ids(&self) -> (res: Option<Vec<u16>>)
        ensures
            match res {
                Some(ids) => requested_ids(*self) == Some(ids@),
                None => requested_ids(*self) is None,
            },
    {
        if self.packet_id == 0xFFFF {
            return None;
        }
        let mut ids: Vec<u16> = Vec::new();
        ids.push(self.packet_id);
        let mut mask: u8 = self.bitmask;
        let mut step: u16 = 1;
        let ghost whole = seq![self.packet_id] + masked_ids(
            self.packet_id,
            self.bitmask as int,
            1,
        );
        assert(ids@ =~= seq![self.packet_id]);
        while mask > 0
            invariant
                whole == ids@ + masked_ids(self.packet_id, mask as int, step as int),
                1 <= step <= 9,
                step <= 1 ==> mask < 256,
                step > 1 ==> mask < 128,
                step > 2 ==> mask < 64,
                step > 3 ==> mask < 32,
                step > 4 ==> mask < 16,
                step > 5 ==> mask < 8,
                step > 6 ==> mask < 4,
                step > 7 ==> mask < 2,
                step > 8 ==> mask < 1,
            decreases mask,
        {
            let ghost before = ids@;
            if mask % 2 == 1 {
                ids.push(self.packet_id.wrapping_add(step));
                assert(ids@ + masked_ids(self.packet_id, mask as int / 2, step + 1) =~= before
                    + masked_ids(self.packet_id, mask as int, step as int));
            } else {
                assert(masked_ids(self.packet_id, mask as int, step as int) =~= masked_ids(
                    self.packet_id,
                    mask as int / 2,
                    step + 1,
                ));
            }
            mask = mask / 2;
            step = step + 1;
        }
        assert(ids@ + Seq::<u16>::empty() =~= ids@);
        Some(ids)
    }
}

/// The packet `n` after another; ids wrap at the end of their range.
pub open spec fn packet_after(packet_id: u16, n: int) -> u16 {
    ((packet_id + n) % 0x1_0000) as u16
}

/// How many bits of a mask are set.
pub open spec fn set_bits(mask: int) -> int
    decreases mask,
{
    if mask <= 0 {
        0
    } else {
        mask % 2 + set_bits(mask / 2)
    }
}

proof fn packets_after_are_in_order(packet_id: u16, n: int)
    requires
        0 <= n <= 8,
    ensures
        (packet_after(packet_id, n) - packet_id) % 0x1_0000 == n,
{
}

proof fn masked_ids_follow_the_mask(packet_id: u16, mask: int, step: int)
    requires
        1 <= step <= 9,
        0 <= mask < pow2((9 - step) as nat),
    ensures
        masked_ids(packet_id, mask, step).len() == set_bits(mask),
        forall|i: int|
            0 <= i < masked_ids(packet_id, mask, step).len() ==> exists|n: int|
                step <= n <= 8 && #[trigger] masked_ids(packet_id, mask, step)[i]
                    == #[trigger] packet_after(packet_id, n),
        forall|n: int|
            step <= n <= 8 ==> (masked_ids(packet_id, mask, step).contains(
                #[trigger] packet_after(packet_id, n),
            ) <==> mask / pow2((n - step) as nat) as int % 2 == 1),
        forall|i: int, j: int|
            0 <= i < j < masked_ids(packet_id, mask, step).len() ==> (
            #[trigger] masked_ids(packet_id, mask, step)[i] - packet_id) % 0x1_0000 < (
            #[trigger] masked_ids(packet_id, mask, step)[j] - packet_id) % 0x1_0000,
    decreases mask,
{
    let ids = masked_ids(packet_id, mask, step);
    assert(pow2(0) == 1) by {
        vstd::arithmetic::power2::lemma2_to64();
    }
    if mask > 0 {
        let rest = masked_ids(packet_id, mask / 2, step + 1);
        let head = packet_after(packet_id, step);
        vstd::arithmetic::power2::lemma_pow2_unfold((9 - step) as nat);
        masked_ids_follow_the_mask(packet_id, mask / 2, step + 1);
        let shift: int = mask % 2;
        assert(ids =~= if shift == 1 {
            seq![head] + rest
        } else {
            rest
        });
        assert forall|i: int| 0 <= i < ids.len() implies exists|n: int|
            step <= n <= 8 && #[trigger] ids[i] == #[trigger] packet_after(packet_id, n) by {
            if shift == 1 && i == 0 {
                assert(ids[0] == packet_after(packet_id, step));
            } else {
                assert(ids[i] == rest[i - shift]);
                let n = choose|n: int|
                    step + 1 <= n <= 8 && rest[i - shift] == #[trigger] packet_after(packet_id, n);
                assert(ids[i] == packet_after(packet_id, n));
            }
        }
        assert forall|n: int| step <= n <= 8 implies (ids.contains(
            #[trigger] packet_after(packet_id, n),
        ) <==> mask / pow2((n - step) as nat) as int % 2 == 1) by {
            let id = packet_after(packet_id, n);
            packets_after_are_in_order(packet_id, n);
            packets_after_are_in_order(packet_id, step);
            if rest.contains(id) {
                let i = choose|i: int| 0 <= i < rest.len() && rest[i] == id;
                assert(ids[i + shift] == id);
            }
            if ids.contains(id) {
                let i = choose|i: int| 0 <= i < ids.len() && ids[i] == id;
                if i >= shift {
                    assert(rest[i - shift] == id);
                }
            }
            if n == step {
                if rest.contains(id) {
                    let i = choose|i: int| 0 <= i < rest.len() && rest[i] == id;
                    let m = choose|m: int|
                        step + 1 <= m <= 8 && rest[i] == #[trigger] packet_after(packet_id, m);
                    packets_after_are_in_order(packet_id, m);
                }
                if shift == 1 {
                    assert(ids[0] == id);
                }
                assert(mask / 1 == mask);
            } else {
                let below = pow2((n - step - 1) as nat) as int;
                vstd::arithmetic::power2::lemma_pow2_unfold((n - step) as nat);
                vstd::arithmetic::power2::lemma_pow2_pos((n - step - 1) as nat);
                vstd::arithmetic::div_mod::lemma_div_denominator(mask, 2, below);
                assert(rest.contains(id) <==> mask / 2 / below % 2 == 1);
            }
        }
        assert forall|i: int, j: int| 0 <= i < j < ids.len() implies (#[trigger] ids[i]
            - packet_id) % 0x1_0000 < (#[trigger] ids[j] - packet_id) % 0x1_0000 by {
            assert(ids[j] == rest[j - shift]);
            let m = choose|m: int|
                step + 1 <= m <= 8 && rest[j - shift] == #[trigger] packet_after(packet_id, m);
            packets_after_are_in_order(packet_id, m);
            packets_after_are_in_order(packet_id, step);
            if shift == 1 && i == 0 {
                assert(ids[0] == head);
            } else {
                assert(ids[i] == rest[i - shift]);
            }
        }
    } else {
        assert forall|n: int| step <= n <= 8 implies (ids.contains(
            #[trigger] packet_after(packet_id, n),
        ) <==> mask / pow2((n - step) as nat) as int % 2 == 1) by {
            vstd::arithmetic::power2::lemma_pow2_pos((n - step) as nat);
            vstd::arithmetic::div_mod::lemma_div_basics(pow2((n - step) as nat) as int);
        }
    }
}

/// A request for single packets asks for the packet that it names and, of the
/// eight after it, for exactly those whose bit is set: the lowest bit stands for
/// the next packet, each higher one for the one after. Each is asked for once, in
/// the order in which they were sent. Only the largest id asks for the whole
/// frame.
pub proof fn a_request_asks_for_what_its_bits_say(nack: Nack)
    ensures
        requested_ids(nack) is None <==> nack.packet_id == 0xFFFF,
        requested_ids(nack) matches Some(ids) ==> {
            &&& ids.len() == 1 + set_bits(nack.bitmask as int)
            &&& ids[0] == nack.packet_id
            &&& forall|n: int|
                1 <= n <= 8 ==> (ids.contains(#[trigger] packet_after(nack.packet_id, n))
                    <==> nack.bitmask as int / pow2((n - 1) as nat) as int % 2 == 1)
            &&& forall|i: int|
                1 <= i < ids.len() ==> 1 <= (#[trigger] ids[i] - nack.packet_id) % 0x1_0000 <= 8
            &&& forall|i: int, j: int|
                0 <= i < j < ids.len() ==> (#[trigger] ids[i] - nack.packet_id) % 0x1_0000 < (
                #[trigger] ids[j] - nack.packet_id) % 0x1_0000
        },
{
    if nack.packet_id != 0xFFFF {
        assert(pow2(8) == 256) by {
            vstd::arithmetic::power2::lemma2_to64();
        }
        masked_ids_follow_the_mask(nack.packet_id, nack.bitmask as int, 1);
        let rest = masked_ids(nack.packet_id, nack.bitmask as int, 1);
        let ids = requested_ids(nack)->0;
        assert(ids =~= seq![nack.packet_id] + rest);
        assert forall|n: int| 1 <= n <= 8 implies (ids.contains(
            #[trigger] packet_after(nack.packet_id, n),
        ) <==> nack.bitmask as int / pow2((n - 1) as nat) as int % 2 == 1) by {
            let id = packet_after(nack.packet_id, n);
            packets_after_are_in_order(nack.packet_id, n);
            assert(rest.contains(id) <==> nack.bitmask as int / pow2((n - 1) as nat) as int % 2
                == 1);
            if rest.contains(id) {
                let i = choose|i: int| 0 <= i < rest.len() && rest[i] == id;
                assert(ids[i + 1] == id);
            }
            if ids.contains(id) {
                let i = choose|i: int| 0 <= i < ids.len() && ids[i] == id;
                assert(i > 0);
                assert(rest[i - 1] == id);
            }
        }
        assert forall|i: int| 1 <= i < ids.len() implies 1 <= (#[trigger] ids[i]
            - nack.packet_id) % 0x1_0000 <= 8 by {
            assert(ids[i] == rest[i - 1]);
            let n = choose|n: int|
                1 <= n <= 8 && rest[i - 1] == #[trigger] packet_after(nack.packet_id, n);
            packets_after_are_in_order(nack.packet_id, n);
        }
        assert forall|i: int, j: int| 0 <= i < j < ids.len() implies (#[trigger] ids[i]
            - nack.packet_id) % 0x1_0000 < (#[trigger] ids[j] - nack.packet_id) % 0x1_0000 by {
            assert(ids[j] == rest[j - 1]);
            let n = choose|n: int|
                1 <= n <= 8 && rest[j - 1] == #[trigger] packet_after(nack.packet_id, n);
            packets_after_are_in_order(nack.packet_id, n);
            if i > 0 {
                assert(ids[i] == rest[i - 1]);
            }
        }
    }
}

/// The contents of a Cast feedback block.
#[derive(Clone, Debug, Default, PartialEq, Eq)]
pub struct CastFeedback {
    /// The **sender** SSRC this feedback refers to.
    ///
    /// Video and audio are separate streams, each with its own SSRC; without
    /// this, one stream's retransmission requests would land on the other.
    pub sender_ssrc: u32,
    /// The last frame the receiver holds complete.
    pub checkpoint_frame_id: u8,
    /// What is missing.
    pub nacks: Vec<Nack>,
}

/// The contents of a [`CastFeedback`].
pub ghost struct FeedbackView {
    pub sender_ssrc: u32,
    pub checkpoint_frame_id: u8,
    pub nacks: Seq<Nack>,
}

impl View for CastFeedback {
    type V = FeedbackView;

    open spec fn view(&self) -> FeedbackView {
        FeedbackView {
            sender_ssrc: self.sender_ssrc,
            checkpoint_frame_id: self.checkpoint_frame_id,
            nacks: self.nacks@,
        }
    }
}

/// Whether a block is Cast feedback: payload-specific, long enough for the fixed
/// part, and holding the word "CAST" after the two SSRCs.
pub open spec fn is_cast_feedback(block: Seq<u8>) -> bool {
    &&& block[1] == PT_PAYLOAD_SPECIFIC
    &&& block.len() >= 20
    &&& block.subrange(12, 16) == seq![0x43u8, 0x41, 0x53, 0x54]
}

/// Loss number `index` of a feedback block: 4 bytes each, after the fixed part.
pub open spec fn nack_at(block: Seq<u8>, index: int) -> Nack {
    let start = 20 + index * 4;
    Nack {
        frame_id: block[start],
        packet_id: from_be16(block[start + 1], block[start + 2]),
        bitmask: block[start + 3],
    }
}

/// The contents of a feedback block: as many losses as it declares, or as many
/// as it holds.
pub open spec fn feedback_of(block: Seq<u8>) -> FeedbackView {
    let held = (block.len() - 20) / 4;
    let count = if block[17] < held { block[17] as int } else { held };
    FeedbackView {
        sender_ssrc: from_be32(block[8], block[9], block[10], block[11]),
        checkpoint_frame_id: block[16],
        nacks: Seq::new(count as nat, |i: int| nack_at(block, i)),
    }
}

/// The first Cast feedback among the whole blocks of a datagram.
pub open spec fn feedback_in(bytes: Seq<u8>) -> Option<FeedbackView>
    decreases bytes.len(),
{
    if !starts_with_block(bytes) {
        None
    } else if is_cast_feedback(bytes.take(declared_len(bytes))) {
        Some(feedback_of(bytes.take(declared_len(bytes))))
    } else {
        feedback_in(bytes.skip(declared_len(bytes)))
    }
}

fn holds_cast_feedback(block: &[u8]) -> (res: bool)
    requires
        block@.len() >= 4,
    ensures
        res == is_cast_feedback(block@),
{
    // Header(4) + receiver SSRC(4) + sender SSRC(4) + "CAST"(4)
    // + checkpoint(1) + count(1) + delay(2) = 20 bytes.
    if block[1] != PT_PAYLOAD_SPECIFIC || block.len() < 20 {
        return false;
    }
    let res = block[12] == 0x43 && block[13] == 0x41 && block[14] == 0x53 && block[15] == 0x54;
    let ghost word = block@.subrange(12, 16);
    let ghost cast = seq![0x43u8, 0x41, 0x53, 0x54];
    assert(word[0] == block@[12] && word[1] == block@[13] && word[2] == block@[14] && word[3]
        == block@[15]);
    assert(cast[0] == 0x43 && cast[1] == 0x41 && cast[2] == 0x53 && cast[3] == 0x54);
    assert(res ==> word =~= cast);
    res
}

fn read_feedback(block: &[u8]) -> (res: CastFeedback)
    requires
        block@.len() >= 20,
    ensures
        res@ == feedback_of(block@),
{
    let held: usize = (block.len() - 20) / 4;
    let declared: usize = block[17] as usize;
    let count: usize = if declared < held { declared } else { held };
    let mut nacks: Vec<Nack> = Vec::new();
    let mut index: usize = 0;
    while index < count
        invariant
            index <= count,
            20 + count * 4 <= block.len(),
            nacks@.len() == index,
            forall|i: int| 0 <= i < index ==> #[trigger] nacks@[i] == nack_at(block@, i),
        decreases count - index,
    {
        let start: usize = 20 + index * 4;
        nacks.push(
            Nack {
                frame_id: block[start],
                packet_id: read_be16(block[start + 1], block[start + 2]),
                bitmask: block[start + 3],
            },
        );
        index += 1;
    }
    assert(nacks@ =~= feedback_of(block@).nacks);
    CastFeedback {
        sender_ssrc: read_be32(block[8], block[9], block[10], block[11]),
        checkpoint_frame_id: block[16],
        nacks,
    }
}

/// Extracts the retransmission requests from a compound datagram.
///
/// The receiver sends these blocks dozens of times per second when something
/// is missing. Ignoring them freezes the picture: it waits forever for a packet
/// that is never resent.
pub fn parse_cast_feedback(packet: &[u8]) -> (res: Option<CastFeedback>)
    ensures
        match res {
            Some(feedback) => feedback_in(packet@) == Some(feedback@),
            None => feedback_in(packet@) is None,
        },
{
    let mut offset: usize = 0;
    assert(packet@.skip(0) =~= packet@);
    loop
        invariant
            offset <= packet.len(),
            feedback_in(packet@) == feedback_in(packet@.skip(offset as int)),
        decreases packet@.len() - offset,
    {
        let ghost rest = packet@.skip(offset as int);
        match block_len_at(packet, offset) {
            None => {
                return None;
            },
            Some(len) => {
                let block = vstd::slice::slice_subrange(packet, offset, offset + len);
                assert(block@ =~= rest.take(len as int));
                if holds_cast_feedback(block) {
                    return Some(read_feedback(block));
                }
                assert(packet@.skip(offset + len) =~= rest.skip(len as int));
                offset = offset + len;
            },
        }
    }
}

/// Feedback is found wherever it stands: blocks of another kind before it do not
/// hide it.
pub proof fn feedback_after_other_blocks(a: Seq<u8>, b: Seq<u8>)
    requires
        only_whole_blocks(a),
        feedback_in(a) is None,
    ensures
        feedback_in(a + b) == feedback_in(b),
    decreases a.len(),
{
    if a.len() == 0 {
        assert(a + b =~= b);
    } else {
        let len = declared_len(a);
        assert((a + b).take(len) =~= a.take(len));
        assert((a + b).skip(len) =~= a.skip(len) + b);
        feedback_after_other_blocks(a.skip(len), b);
    }
}

/// A timestamp counts the seconds since 1900 in its upper half and, in its lower
/// half, the parts of a second of which 2^32 make one, as many as have passed in
/// full.
pub proof fn a_timestamp_counts_from_1900(seconds: int, nanos: int)
    requires
        0 <= seconds,
        0 <= nanos < 1_000_000_000,
    ensures
        ({
            let fraction = ntp(seconds, nanos) % 0x1_0000_0000;
            &&& ntp(seconds, nanos) / 0x1_0000_0000 == (seconds + (70 * 365 + 17) * 86_400)
                % 0x1_0000_0000
            &&& fraction * 1_000_000_000 <= nanos * 0x1_0000_0000
            &&& nanos * 0x1_0000_0000 < (fraction + 1) * 1_000_000_000
        }),
{
    ntp_halves(seconds, nanos);
}

/// A sender report says whose it is, which instant its RTP timestamp stands for,
/// and what has been sent: each field lies where its readers look for it, and the
/// report is one whole block.
pub proof fn a_sender_report_has_its_fields(
    ssrc: u32,
    ntp: u64,
    rtp_timestamp: u32,
    stats: SenderStats,
)
    ensures
        ({
            let report = sender_report(ssrc, ntp, rtp_timestamp, stats);
            &&& report.len() == 28
            &&& report[0] == 0x80
            &&& report[1] == 200
            &&& starts_with_block(report) && declared_len(report) == report.len()
            &&& from_be32(report[4], report[5], report[6], report[7]) == ssrc
            &&& from_be32(report[8], report[9], report[10], report[11]) == ntp / 0x1_0000_0000
            &&& from_be32(report[12], report[13], report[14], report[15]) == ntp % 0x1_0000_0000
            &&& from_be32(report[16], report[17], report[18], report[19]) == rtp_timestamp
            &&& from_be32(report[20], report[21], report[22], report[23]) == stats.packets
            &&& from_be32(report[24], report[25], report[26], report[27]) == stats.octets
        }),
{
    let report = sender_report(ssrc, ntp, rtp_timestamp, stats);
    be32_round_trip(ssrc);
    be32_round_trip((ntp / 0x1_0000_0000) as u32);
    be32_round_trip((ntp % 0x1_0000_0000) as u32);
    be32_round_trip(rtp_timestamp);
    be32_round_trip(stats.packets);
    be32_round_trip(stats.octets);
    be16_round_trip(6);
    assert(report[2] == be16(6)[0] && report[3] == be16(6)[1]);
    assert(report.subrange(4, 8) =~= be32(ssrc));
    assert(report.subrange(8, 12) =~= be32((ntp / 0x1_0000_0000) as u32));
    assert(report.subrange(12, 16) =~= be32((ntp % 0x1_0000_0000) as u32));
    assert(report.subrange(16, 20) =~= be32(rtp_timestamp));
    assert(report.subrange(20, 24) =~= be32(stats.packets));
    assert(report.subrange(24, 28) =~= be32(stats.octets));
    assert(forall|i: int| 0 <= i < 4 ==> report[4 + i] == #[trigger] report.subrange(4, 8)[i]);
    assert(forall|i: int| 0 <= i < 4 ==> report[8 + i] == #[trigger] report.subrange(8, 12)[i]);
    assert(forall|i: int| 0 <= i < 4 ==> report[12 + i] == #[trigger] report.subrange(12, 16)[i]);
    assert(forall|i: int| 0 <= i < 4 ==> report[16 + i] == #[trigger] report.subrange(16, 20)[i]);
    assert(forall|i: int| 0 <= i < 4 ==> report[20 + i] == #[trigger] report.subrange(20, 24)[i]);
    assert(forall|i: int| 0 <= i < 4 ==> report[24 + i] == #[trigger] report.subrange(24, 28)[i]);
}

/// A block is what its type says, whatever else it holds: a report, a log, an
/// extended report, or, of the payload-specific ones, a request for a key frame
/// by its subtype of one and feedback by any other.
pub proof fn a_block_is_what_its_type_says(block: Seq<u8>)
    requires
        starts_with_block(block),
        declared_len(block) == block.len(),
    ensures
        compound(block) == seq![
            if block[1] == 201 {
                ReceiverPacket::ReceiverReport
            } else if block[1] == 204 {
                ReceiverPacket::ReceiverLog
            } else if block[1] == 207 {
                ReceiverPacket::ExtendedReport
            } else if block[1] == 206 && block[0] as int % 32 == 1 {
                ReceiverPacket::PictureLossIndication
            } else if block[1] == 206 {
                ReceiverPacket::CastFeedback
            } else {
                ReceiverPacket::Other(block[1])
            },
        ],
        classified(block) == (if block.len() >= 8 && 200 <= block[1] <= 207 {
            Some(compound(block)[0])
        } else {
            None
        }),
{
    assert(block.skip(declared_len(block)) =~= Seq::<u8>::empty());
    assert(compound(Seq::<u8>::empty()) =~= Seq::<ReceiverPacket>::empty());
    assert(compound(block) =~= seq![block_kind(block[0], block[1])]);
}

/// The bytes of a feedback block: the header, whose length counts the words after
/// the first, the two sources, the word that marks it, the checkpoint, the number
/// of losses, two bytes of delay, and four bytes for each loss.
pub open spec fn feedback_bytes(
    receiver_ssrc: u32,
    sender_ssrc: u32,
    checkpoint: u8,
    delay: u16,
    nacks: Seq<Nack>,
) -> Seq<u8> {
    seq![0x8Fu8, 206] + be16((4 + nacks.len()) as u16) + be32(receiver_ssrc) + be32(sender_ssrc)
        + seq![0x43u8, 0x41, 0x53, 0x54] + seq![checkpoint, nacks.len() as u8] + be16(delay)
        + nack_bytes(nacks)
}

/// The bytes of some losses.
pub open spec fn nack_bytes(nacks: Seq<Nack>) -> Seq<u8> {
    Seq::new(
        nacks.len() * 4,
        |i: int|
            {
                let nack = nacks[i / 4];
                if i % 4 == 0 {
                    nack.frame_id
                } else if i % 4 == 1 {
                    (nack.packet_id / 256) as u8
                } else if i % 4 == 2 {
                    (nack.packet_id % 256) as u8
                } else {
                    nack.bitmask
                }
            },
    )
}

/// Feedback is read as it is written, whatever follows it: the stream it is about,
/// the last frame that arrived whole, and every loss, in order.
pub proof fn feedback_is_read_as_written(
    receiver_ssrc: u32,
    sender_ssrc: u32,
    checkpoint: u8,
    delay: u16,
    nacks: Seq<Nack>,
    rest: Seq<u8>,
)
    requires
        nacks.len() <= 255,
    ensures
        feedback_in(
            feedback_bytes(receiver_ssrc, sender_ssrc, checkpoint, delay, nacks) + rest,
        ) == Some(
            FeedbackView { sender_ssrc, checkpoint_frame_id: checkpoint, nacks },
        ),
{
    let block = feedback_bytes(receiver_ssrc, sender_ssrc, checkpoint, delay, nacks);
    let bytes = block + rest;
    let words = (4 + nacks.len()) as u16;
    be16_round_trip(words);
    be32_round_trip(sender_ssrc);
    assert(block.len() == 20 + 4 * nacks.len());
    assert(block[0] == 0x8F && block[1] == 206);
    assert(block[2] == be16(words)[0] && block[3] == be16(words)[1]);
    assert(bytes[0] == block[0] && bytes[2] == block[2] && bytes[3] == block[3]);
    assert(declared_len(bytes) == block.len());
    assert(bytes.take(declared_len(bytes)) =~= block);
    assert(block.subrange(12, 16) =~= seq![0x43u8, 0x41, 0x53, 0x54]);
    assert(block.subrange(8, 12) =~= be32(sender_ssrc));
    assert(forall|i: int| 0 <= i < 4 ==> block[8 + i] == #[trigger] block.subrange(8, 12)[i]);
    assert(block[16] == checkpoint);
    assert(block[17] == nacks.len());
    assert((block.len() - 20) / 4 == nacks.len());
    assert forall|i: int| 0 <= i < nacks.len() implies #[trigger] nack_at(block, i) == nacks[i] by {
        let tail = nack_bytes(nacks);
        let at = 4 * i;
        assert(block[20 + at] == tail[at]);
        assert(block[20 + at + 1] == tail[at + 1]);
        assert(block[20 + at + 2] == tail[at + 2]);
        assert(block[20 + at + 3] == tail[at + 3]);
        assert(at / 4 == i && at % 4 == 0);
        assert((at + 1) / 4 == i && (at + 1) % 4 == 1);
        assert((at + 2) / 4 == i && (at + 2) % 4 == 2);
        assert((at + 3) / 4 == i && (at + 3) % 4 == 3);
        be16_round_trip(nacks[i].packet_id);
    }
    assert(feedback_of(block).nacks =~= nacks);
}

/// An instant counts by how long it comes after the Unix epoch, and one before it
/// as the epoch itself: no instant gets an earlier time than the epoch's.
pub proof fn an_early_instant_counts_as_the_epoch(seconds: u64, nanos: u32)
    requires
        nanos < 1_000_000_000,
    ensures
        ntp_at(None) == ntp_at(Some((0u64, 0u32))),
        ntp_at(None) == (70 * 365 + 17) * 86_400 * 0x1_0000_0000,
        ntp_at(Some((seconds, nanos))) / 0x1_0000_0000 == (seconds + (70 * 365 + 17) * 86_400)
            % 0x1_0000_0000,
{
    a_timestamp_counts_from_1900(0, 0);
    a_timestamp_counts_from_1900(seconds as int, nanos as int);
}

} // verus!
