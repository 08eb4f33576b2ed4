//! Cast Streaming RTP packetisation.
//!
//! Cast does not use plain RTP: after the 12-byte RTP header comes a header of
//! its own carrying frame and packet identification, so the receiver can
//! reassemble the frame and ask for whatever is missing to be resent.
//!
//! ```text
//! |V=2|P|X| CC=0  |M|     PT      |      sequence number          |
//! |                        RTP timestamp                          |
//! |           synchronization source (SSRC) identifier            |
//! |K|R| EXT count |     FID       |             PID               |
//! |           Max PID             |  RFID (only when R=1)         |
//! ```
use crate::bytes::{push_all, push_be16, push_be32};
use aes::cipher::{KeyIvInit, StreamCipher};
use vstd::prelude::*;

verus! {

use crate::bytes::{be16, be32, be32_injective};

broadcast use vstd::slice::group_slice_axioms;

/// Key-frame bit in the Cast header.
pub const KEY_FRAME_BIT: u8 = 128;

/// Bit signalling the presence of the reference frame id.
pub const REFERENCE_ID_BIT: u8 = 64;

/// RTP marker bit (the frame's last packet).
pub const MARKER_BIT: u8 = 128;

/// The RTP first byte: version 2, no padding, no extension, no CSRC.
pub const RTP_FIRST_BYTE: u8 = 128;

/// The fixed RTP header.
pub const RTP_HEADER_SIZE: usize = 12;

/// The Cast header without optional fields.
pub const CAST_HEADER_SIZE: usize = 6;

/// Maximum size of an RTP packet over IPv4/UDP on Ethernet: the 1500-byte MTU
/// without the IPv4 and UDP headers.
pub const MAX_PACKET_SIZE: usize = 1472;

/// How many payload bytes every packet has room for: what the headers leave,
/// counting the reference frame id.
pub const MAX_PAYLOAD_SIZE: usize = 1453;

/// One byte of the AES-128 keystream in 128-bit big-endian counter mode.
pub uninterp spec fn ctr_keystream(key: Seq<u8>, iv: Seq<u8>, position: int) -> u8;

/// `ctr::Ctr128BE<aes::Aes128>` applied to a copy of `data`: the cipher XORs
/// each byte with the keystream byte of its position, which depends on the key,
/// the initial counter block and the position alone.
#[verifier::external_body]
fn apply_ctr(key: &[u8; 16], iv: &[u8; 16], data: &[u8]) -> (out: Vec<u8>)
    ensures
        out@.len() == data@.len(),
        forall|i: int|
            0 <= i < out@.len() ==> #[trigger] out@[i] == data@[i] ^ ctr_keystream(key@, iv@, i),
{
    let mut out = data.to_vec();
    let mut cipher = ctr::Ctr128BE::<aes::Aes128>::new(key.into(), iv.into());
    cipher.apply_keystream(&mut out);
    out
}

/// The counter block of a frame: its id, big-endian, at offset 8 of a zeroed
/// block, XORed with the negotiated mask.
pub open spec fn frame_iv(iv_mask: Seq<u8>, frame_id: u32) -> Seq<u8> {
    Seq::new(
        16,
        |i: int| (if 8 <= i < 12 { be32(frame_id)[i - 8] } else { 0u8 }) ^ iv_mask[i],
    )
}

/// A frame encrypted with AES-CTR-128.
pub open spec fn encrypted(key: Seq<u8>, iv_mask: Seq<u8>, frame_id: u32, data: Seq<u8>) -> Seq<u8> {
    Seq::new(data.len(), |i: int| data[i] ^ ctr_keystream(key, frame_iv(iv_mask, frame_id), i))
}

/// Encrypts a whole frame with AES-CTR-128.
///
/// The IV is derived from the frame id: its low 32 bits written big-endian at
/// offset 8 of a zeroed block, XORed with the mask negotiated in the OFFER.
pub fn encrypt_frame(key: &[u8; 16], iv_mask: &[u8; 16], frame_id: u32, data: &[u8]) -> (out: Vec<u8>)
    ensures
        out@ == encrypted(key@, iv_mask@, frame_id, data@),
{
    let mut id_bytes: Vec<u8> = Vec::new();
    push_be32(&mut id_bytes, frame_id);
    assert(id_bytes@ =~= be32(frame_id));
    let mut iv: [u8; 16] = [0u8; 16];
    let mut i: usize = 0;
    while i < 16
        invariant
            i <= 16,
            id_bytes@ == be32(frame_id),
            forall|j: int| 0 <= j < i ==> #[trigger] iv@[j] == frame_iv(iv_mask@, frame_id)[j],
        decreases 16 - i,
    {
        let byte: u8 = if 8 <= i && i < 12 { id_bytes[i - 8] } else { 0 };
        iv[i] = byte ^ iv_mask[i];
        i += 1;
    }
    assert(iv@ =~= frame_iv(iv_mask@, frame_id));
    let out = apply_ctr(key, &iv, data);
    assert(out@ =~= encrypted(key@, iv_mask@, frame_id, data@));
    out
}

/// Encrypting twice with the same key, mask and frame id gives the frame back.
pub proof fn encryption_round_trip(key: Seq<u8>, iv_mask: Seq<u8>, frame_id: u32, data: Seq<u8>)
    ensures
        encrypted(key, iv_mask, frame_id, encrypted(key, iv_mask, frame_id, data)) == data,
{
    let twice = encrypted(key, iv_mask, frame_id, encrypted(key, iv_mask, frame_id, data));
    assert forall|i: int| 0 <= i < data.len() implies twice[i] == data[i] by {
        let k = ctr_keystream(key, frame_iv(iv_mask, frame_id), i);
        let d = data[i];
        assert((d ^ k) ^ k == d) by (bit_vector);
    }
    assert(twice =~= data);
}

/// Encryption keeps the length: the split into packets does not depend on it.
pub proof fn encryption_preserves_length(
    key: Seq<u8>,
    iv_mask: Seq<u8>,
    frame_id: u32,
    data: Seq<u8>,
)
    ensures
        encrypted(key, iv_mask, frame_id, data).len() == data.len(),
{
}

/// No two frames of a stream share a counter block.
pub proof fn each_frame_has_its_own_iv(iv_mask: Seq<u8>, a: u32, b: u32)
    requires
        frame_iv(iv_mask, a) == frame_iv(iv_mask, b),
    ensures
        a == b,
{
    assert forall|j: int| 0 <= j < 4 implies be32(a)[j] == be32(b)[j] by {
        let x = be32(a)[j];
        let y = be32(b)[j];
        let m = iv_mask[j + 8];
        assert(frame_iv(iv_mask, a)[j + 8] == x ^ m);
        assert(frame_iv(iv_mask, b)[j + 8] == y ^ m);
        assert(x ^ m == y ^ m ==> x == y) by (bit_vector);
    }
    assert(be32(a) =~= be32(b));
    be32_injective(a, b);
}

/// An encoded frame ready to go out to the receiver.
#[derive(Clone, Debug)]
pub struct Frame<'a> {
    /// The frame's sequential identifier (starts at 0 and grows).
    pub frame_id: u32,
    /// The frame this one depends on. `None` on a key frame.
    pub reference_frame_id: Option<u32>,
    /// Timestamp in the stream's time base (90 kHz for video).
    pub rtp_timestamp: u32,
    /// The **already encrypted** data.
    pub payload: &'a [u8],
}

/// The contents of a [`Frame`].
pub ghost struct FrameView {
    pub frame_id: u32,
    pub reference_frame_id: Option<u32>,
    pub rtp_timestamp: u32,
    pub payload: Seq<u8>,
}

impl<'a> View for Frame<'a> {
    type V = FrameView;

    open spec fn view(&self) -> FrameView {
        FrameView {
            frame_id: self.frame_id,
            reference_frame_id: self.reference_frame_id,
            rtp_timestamp: self.rtp_timestamp,
            payload: self.payload@,
        }
    }
}

/// Packetisation state for one stream (video or audio).
#[derive(Debug)]
pub struct Packetizer {
    ssrc: u32,
    payload_type: u8,
    sequence: u16,
    max_packet_size: usize,
}

/// What a [`Packetizer`] remembers between frames.
pub ghost struct PacketizerView {
    pub ssrc: u32,
    pub payload_type: u8,
    pub sequence: u16,
}

impl View for Packetizer {
    type V = PacketizerView;

    closed spec fn view(&self) -> PacketizerView {
        PacketizerView {
            ssrc: self.ssrc,
            payload_type: self.payload_type,
            sequence: self.sequence,
        }
    }
}

/// The bytes of one packet. Ids travel truncated: the frame ids to 8 bits.
pub open spec fn packet_bytes(
    stream: PacketizerView,
    frame: FrameView,
    packet_id: u16,
    max_packet_id: u16,
    chunk: Seq<u8>,
    is_last: bool,
) -> Seq<u8> {
    packet_header(stream, frame, packet_id, max_packet_id, is_last) + chunk
}

/// The RTP and Cast headers of one packet.
#[verifier::opaque]
pub open spec fn packet_header(
    stream: PacketizerView,
    frame: FrameView,
    packet_id: u16,
    max_packet_id: u16,
    is_last: bool,
) -> Seq<u8> {
    seq![
        RTP_FIRST_BYTE,
        ((if is_last { 128int } else { 0int }) + stream.payload_type % 128) as u8,
    ] + be16(stream.sequence) + be32(frame.rtp_timestamp) + be32(stream.ssrc) + seq![
        if frame.reference_frame_id is None { KEY_FRAME_BIT } else { REFERENCE_ID_BIT },
        (frame.frame_id % 256) as u8,
    ] + be16(packet_id) + be16(max_packet_id) + match frame.reference_frame_id {
        Some(reference) => seq![(reference % 256) as u8],
        None => Seq::empty(),
    }
}

/// How many packets a payload of `len` bytes takes: at least one, even with no
/// bytes, so that the frame exists in the numbering.
pub open spec fn packet_count(len: nat) -> nat {
    if len == 0 {
        1
    } else {
        ((len - 1) / (MAX_PAYLOAD_SIZE as int) + 1) as nat
    }
}

/// The part of the payload that packet `index` carries.
pub open spec fn chunk(payload: Seq<u8>, index: int) -> Seq<u8> {
    let start = index * MAX_PAYLOAD_SIZE;
    let end = start + MAX_PAYLOAD_SIZE;
    payload.subrange(start, if end < payload.len() { end } else { payload.len() as int })
}

/// `sequence` after `count` packets, wrapping at 16 bits.
pub open spec fn sequence_after(sequence: u16, count: int) -> u16 {
    ((sequence + count) % 0x1_0000) as u16
}

/// Packet `index` of a frame.
pub open spec fn frame_packet(stream: PacketizerView, frame: FrameView, index: int) -> Seq<u8> {
    let total = packet_count(frame.payload.len());
    packet_bytes(
        PacketizerView { sequence: sequence_after(stream.sequence, index), ..stream },
        frame,
        (index % 0x1_0000) as u16,
        ((total - 1) % 0x1_0000) as u16,
        chunk(frame.payload, index),
        index == total - 1,
    )
}

/// Every packet of a frame, in order.
pub open spec fn frame_packets(stream: PacketizerView, frame: FrameView) -> Seq<Seq<u8>> {
    Seq::new(packet_count(frame.payload.len()), |i: int| frame_packet(stream, frame, i))
}

proof fn next_sequence(sequence: u16, count: int)
    requires
        0 <= count,
    ensures
        sequence_after(sequence_after(sequence, count), 1) == sequence_after(sequence, count + 1),
{
}

/// Where a packet's part of the payload begins and ends.
proof fn part_bounds(len: int, index: int)
    requires
        0 <= len,
        0 <= index < packet_count(len as nat),
    ensures
        0 <= index * MAX_PAYLOAD_SIZE <= len,
        index + 1 < packet_count(len as nat) ==> len - index * MAX_PAYLOAD_SIZE > MAX_PAYLOAD_SIZE,
        index + 1 == packet_count(len as nat) ==> len - index * MAX_PAYLOAD_SIZE
            <= MAX_PAYLOAD_SIZE,
{
}

impl Packetizer {
    #[verifier::type_invariant]
    spec fn wf(self) -> bool {
        self.max_packet_size == MAX_PACKET_SIZE
    }

    /// A stream that has sent nothing yet.
    pub fn new(ssrc: u32, payload_type: u8) -> (res: Self)
        ensures
            res@ == (PacketizerView { ssrc, payload_type, sequence: 0 }),
    {
        Packetizer { ssrc, payload_type, sequence: 0, max_packet_size: MAX_PACKET_SIZE }
    }

    /// This stream's SSRC (used by RTCP as well).
    pub fn ssrc(&self) -> (res: u32)
        ensures
            res == self@.ssrc,
    {
        self.ssrc
    }

    /// How many payload bytes fit in a packet.
    pub fn max_payload_size(&self) -> (res: usize)
        ensures
            res == MAX_PAYLOAD_SIZE,
    {
        proof {
            use_type_invariant(self);
        }
        // The worst case includes the reference frame id.
        self.max_packet_size - RTP_HEADER_SIZE - CAST_HEADER_SIZE - 1
    }

    /// Splits a frame into packets ready for the socket.
    #[verifier::spinoff_prover]
    #[verifier::rlimit(40)]
    pub fn packetize(&mut self, frame: &Frame<'_>) -> (packets: Vec<Vec<u8>>)
        ensures
            packets@.len() == frame_packets(old(self)@, frame@).len(),
            forall|i: int|
                0 <= i < packets@.len() ==> (#[trigger] packets@[i])@ == frame_packets(
                    old(self)@,
                    frame@,
                )[i],
            final(self)@ == (PacketizerView {
                sequence: sequence_after(old(self)@.sequence, packets@.len() as int),
                ..old(self)@
            }),
    {
        let payload_limit: usize = self.max_payload_size();
        let len: usize = frame.payload.len();
        let total: usize = if len == 0 { 1 } else { (len - 1) / payload_limit + 1 };
        let max_packet_id: u16 = ((total - 1) % 0x1_0000) as u16;
        let ghost stream = self@;
        let mut packets: Vec<Vec<u8>> = Vec::new();
        let mut index: usize = 0;
        let mut start: usize = 0;
        while index < total
            invariant
                len == frame.payload@.len(),
                payload_limit == MAX_PAYLOAD_SIZE,
                total == packet_count(len as nat),
                max_packet_id == (total - 1) % 0x1_0000,
                index <= total,
                start == index * MAX_PAYLOAD_SIZE || index == total,
                packets@.len() == index,
                self@ == (PacketizerView {
                    sequence: sequence_after(stream.sequence, index as int),
                    ..stream
                }),
                forall|i: int|
                    0 <= i < index ==> (#[trigger] packets@[i])@ == frame_packet(stream, frame@, i),
            decreases total - index,
        {
            proof {
                part_bounds(len as int, index as int);
                next_sequence(stream.sequence, index as int);
            }
            let end: usize = if len - start > payload_limit { start + payload_limit } else { len };
            let is_last = index == total - 1;
            let part = vstd::slice::slice_subrange(frame.payload, start, end);
            let packet = self.build_packet(
                frame,
                (index % 0x1_0000) as u16,
                max_packet_id,
                part,
                is_last,
            );
            assert(part@ =~= chunk(frame.payload@, index as int));
            assert(packet@ == frame_packet(stream, frame@, index as int));
            packets.push(packet);
            start = end;
            index += 1;
        }
        packets
    }

    fn build_packet(
        &mut self,
        frame: &Frame<'_>,
        packet_id: u16,
        max_packet_id: u16,
        chunk: &[u8],
        is_last: bool,
    ) -> (packet: Vec<u8>)
        ensures
            packet@ == packet_bytes(
                old(self)@,
                frame@,
                packet_id,
                max_packet_id,
                chunk@,
                is_last,
            ),
            final(self)@ == (PacketizerView {
                sequence: sequence_after(old(self)@.sequence, 1),
                ..old(self)@
            }),
    {
        proof {
            use_type_invariant(&*self);
        }
        let mut packet: Vec<u8> = Vec::new();
        // RTP: the marker flags the frame's last packet.
        let marker: u8 = if is_last { MARKER_BIT } else { 0 };
        packet.push(RTP_FIRST_BYTE);
        packet.push(marker + self.payload_type % 128);
        push_be16(&mut packet, self.sequence);
        push_be32(&mut packet, frame.rtp_timestamp);
        push_be32(&mut packet, self.ssrc);
        self.sequence = self.sequence.wrapping_add(1);

        // Cast: no extensions, so the count stays zero in the low 6 bits.
        let flags: u8 = if frame.reference_frame_id.is_none() {
            KEY_FRAME_BIT
        } else {
            REFERENCE_ID_BIT
        };
        packet.push(flags);
        packet.push((frame.frame_id % 256) as u8);
        push_be16(&mut packet, packet_id);
        push_be16(&mut packet, max_packet_id);
        if let Some(reference) = frame.reference_frame_id {
            packet.push((reference % 256) as u8);
        }
        proof {
            reveal(packet_header);
        }
        assert(packet@ =~= packet_header(old(self)@, frame@, packet_id, max_packet_id, is_last));
        push_all(&mut packet, chunk);
        packet
    }
}

/// The payload bytes of a packet: what follows its headers.
pub open spec fn packet_payload(packet: Seq<u8>) -> Seq<u8> {
    let header: int = if packet[12] == KEY_FRAME_BIT { 18 } else { 19 };
    packet.subrange(header, packet.len() as int)
}

/// What a receiver puts back together from the packets of a frame.
pub open spec fn reassembled(packets: Seq<Seq<u8>>) -> Seq<u8>
    decreases packets.len(),
{
    if packets.len() == 0 {
        Seq::empty()
    } else {
        reassembled(packets.drop_last()) + packet_payload(packets.last())
    }
}

/// The headers of a packet: their size, and where each field lies.
pub proof fn packet_fields(stream: PacketizerView, frame: FrameView, index: int)
    requires
        0 <= index < packet_count(frame.payload.len()),
    ensures
        ({
            let packet = frame_packet(stream, frame, index);
            let total = packet_count(frame.payload.len());
            &&& packet[0] == RTP_FIRST_BYTE
            &&& packet[1] == (if index == total - 1 { 128int } else { 0 }) + stream.payload_type % 128
            &&& packet.subrange(2, 4) == be16(sequence_after(stream.sequence, index))
            &&& packet.subrange(4, 8) == be32(frame.rtp_timestamp)
            &&& packet.subrange(8, 12) == be32(stream.ssrc)
            &&& packet[12] == (if frame.reference_frame_id is None {
                KEY_FRAME_BIT
            } else {
                REFERENCE_ID_BIT
            })
            &&& packet[13] == frame.frame_id % 256
            &&& packet.subrange(14, 16) == be16((index % 0x1_0000) as u16)
            &&& packet.subrange(16, 18) == be16(((total - 1) % 0x1_0000) as u16)
            &&& (frame.reference_frame_id matches Some(reference) ==> packet[18] == reference % 256)
            &&& packet_payload(packet) == chunk(frame.payload, index)
            &&& packet.len() <= MAX_PACKET_SIZE
        }),
{
    reveal(packet_header);
    let total = packet_count(frame.payload.len());
    let packet = frame_packet(stream, frame, index);
    assert(0 <= index * MAX_PAYLOAD_SIZE <= frame.payload.len());
    assert(packet.subrange(2, 4) =~= be16(sequence_after(stream.sequence, index)));
    assert(packet.subrange(4, 8) =~= be32(frame.rtp_timestamp));
    assert(packet.subrange(8, 12) =~= be32(stream.ssrc));
    assert(packet.subrange(14, 16) =~= be16((index % 0x1_0000) as u16));
    assert(packet.subrange(16, 18) =~= be16(((total - 1) % 0x1_0000) as u16));
    assert(packet_payload(packet) =~= chunk(frame.payload, index));
}

proof fn reassembled_prefix(packets: Seq<Seq<u8>>, payload: Seq<u8>, count: nat)
    requires
        packets.len() == packet_count(payload.len()),
        count <= packets.len(),
        forall|i: int|
            0 <= i < packets.len() ==> packet_payload(#[trigger] packets[i]) == chunk(payload, i),
    ensures
        ({
            let end = count * MAX_PAYLOAD_SIZE;
            reassembled(packets.take(count as int)) == payload.take(
                if end < payload.len() { end as int } else { payload.len() as int },
            )
        }),
    decreases count,
{
    if count == 0 {
        assert(payload.take(0) =~= Seq::empty());
    } else {
        let index = (count - 1) as nat;
        reassembled_prefix(packets, payload, index);
        let taken = packets.take(count as int);
        assert(taken.drop_last() =~= packets.take(index as int));
        assert(taken.last() == packets[index as int]);
        let start = index * MAX_PAYLOAD_SIZE;
        let end = start + MAX_PAYLOAD_SIZE;
        let stop = if end < payload.len() { end as int } else { payload.len() as int };
        assert(start <= payload.len());
        assert(payload.take(start as int) + payload.subrange(start as int, stop) =~= payload.take(
            stop,
        ));
    }
}

/// No byte is lost, duplicated or moved by the split.
pub proof fn split_is_lossless(stream: PacketizerView, frame: FrameView)
    ensures
        reassembled(frame_packets(stream, frame)) == frame.payload,
{
    let packets = frame_packets(stream, frame);
    assert forall|i: int| 0 <= i < packets.len() implies packet_payload(#[trigger] packets[i])
        == chunk(frame.payload, i) by {
        packet_fields(stream, frame, i);
    }
    reassembled_prefix(packets, frame.payload, packets.len());
    assert(packets.take(packets.len() as int) =~= packets);
    assert(frame.payload.take(frame.payload.len() as int) =~= frame.payload);
}

/// No packet exceeds what fits in one Ethernet frame, and only the last one is
/// marked.
pub proof fn packets_fit_and_only_the_last_is_marked(
    stream: PacketizerView,
    frame: FrameView,
    index: int,
)
    requires
        0 <= index < frame_packets(stream, frame).len(),
    ensures
        frame_packets(stream, frame)[index].len() <= MAX_PACKET_SIZE,
        frame_packets(stream, frame)[index][1] >= MARKER_BIT <==> index == frame_packets(
            stream,
            frame,
        ).len() - 1,
{
    packet_fields(stream, frame, index);
}

/// A frame always exists in the numbering: an empty one still takes a packet.
pub proof fn every_frame_takes_a_packet(stream: PacketizerView, frame: FrameView)
    ensures
        frame_packets(stream, frame).len() >= 1,
        frame.payload.len() == 0 ==> frame_packets(stream, frame).len() == 1,
{
}

/// Sequence numbers are continuous across frames: what the second frame starts
/// from is what the first one left, and counting goes on packet by packet.
pub proof fn sequence_is_continuous(sequence: u16, first: int, second: int)
    requires
        0 <= first,
        0 <= second,
    ensures
        sequence_after(sequence_after(sequence, first), second) == sequence_after(
            sequence,
            first + second,
        ),
{
}

/// The counter block of a frame is the negotiated mask, with the bytes of the
/// frame's id, the highest first, combined into those at its offset of eight.
pub proof fn a_counter_block_holds_the_frame_id(iv_mask: Seq<u8>, frame_id: u32, i: int)
    requires
        iv_mask.len() == 16,
        0 <= i < 16,
    ensures
        frame_iv(iv_mask, frame_id).len() == 16,
        i < 8 || i >= 12 ==> frame_iv(iv_mask, frame_id)[i] == iv_mask[i],
        frame_iv(iv_mask, frame_id)[8] == (frame_id / 0x100_0000) as u8 ^ iv_mask[8],
        frame_iv(iv_mask, frame_id)[9] == (frame_id / 0x1_0000 % 256) as u8 ^ iv_mask[9],
        frame_iv(iv_mask, frame_id)[10] == (frame_id / 256 % 256) as u8 ^ iv_mask[10],
        frame_iv(iv_mask, frame_id)[11] == (frame_id % 256) as u8 ^ iv_mask[11],
{
    let m = iv_mask[i];
    assert(0u8 ^ m == m) by (bit_vector);
}

} // verus!
