use bignetscreen::rtcp::{
    build_sender_report, classify_receiver_packet, ntp_from_parts, ntp_timestamp,
    parse_cast_feedback, parse_compound, Nack, ReceiverPacket, SenderStats, NTP_UNIX_OFFSET_SECS,
    PT_APPLICATION_DEFINED, PT_EXTENDED_REPORTS, PT_PAYLOAD_SPECIFIC, PT_RECEIVER_REPORT,
};
use std::time::{Duration, UNIX_EPOCH};

#[test]
fn sender_report_has_the_rfc_layout() {
    let stats = SenderStats { packets: 1234, octets: 567_890 };
    let packet = build_sender_report(0xDEAD_BEEF, 0x0123_4567_89AB_CDEF, 90_000, stats);

    assert_eq!(packet.len(), 28);
    assert_eq!(packet[0], 0b1000_0000, "version 2, no padding, RC=0");
    assert_eq!(packet[1], 200, "packet type = SR");
    // Length in 32-bit words less one: 28/4 - 1 = 6.
    assert_eq!(u16::from_be_bytes([packet[2], packet[3]]), 6);

    assert_eq!(
        u32::from_be_bytes([packet[4], packet[5], packet[6], packet[7]]),
        0xDEAD_BEEF
    );
    assert_eq!(
        u64::from_be_bytes(packet[8..16].try_into().unwrap()),
        0x0123_4567_89AB_CDEF
    );
    assert_eq!(u32::from_be_bytes(packet[16..20].try_into().unwrap()), 90_000);
    assert_eq!(u32::from_be_bytes(packet[20..24].try_into().unwrap()), 1234);
    assert_eq!(u32::from_be_bytes(packet[24..28].try_into().unwrap()), 567_890);
}

#[test]
fn ntp_conversion_uses_the_1900_epoch() {
    // The Unix epoch is second 2_208_988_800 of the NTP scale.
    let ntp = ntp_timestamp(UNIX_EPOCH);
    assert_eq!(ntp >> 32, NTP_UNIX_OFFSET_SECS);
    assert_eq!(ntp >> 32, 2_208_988_800);
    assert_eq!(ntp & 0xFFFF_FFFF, 0, "no fraction at the exact epoch");
}

#[test]
fn ntp_fraction_scales_to_2_pow_32() {
    // Half a second must be exactly half of the fractional scale.
    let half = UNIX_EPOCH + Duration::from_millis(500);
    let ntp = ntp_timestamp(half);
    let fraction = ntp & 0xFFFF_FFFF;
    assert!(
        (fraction as i64 - 0x8000_0000i64).abs() < 1000,
        "unexpected fraction: {fraction:#x}"
    );
}

#[test]
fn ntp_advances_with_time() {
    let earlier = ntp_timestamp(UNIX_EPOCH + Duration::from_secs(10));
    let later = ntp_timestamp(UNIX_EPOCH + Duration::from_secs(11));
    assert!(later > earlier);
    assert_eq!((later >> 32) - (earlier >> 32), 1);
}

#[test]
fn a_time_before_the_epoch_counts_as_the_epoch() {
    assert_eq!(
        ntp_timestamp(UNIX_EPOCH - Duration::from_secs(5)),
        ntp_timestamp(UNIX_EPOCH)
    );
    assert_eq!(ntp_from_parts(1, 250_000_000), (2_208_988_801 << 32) + 0x4000_0000);
}

#[test]
fn stats_accumulate() {
    let mut stats = SenderStats::default();
    stats.record(100);
    stats.record(250);
    assert_eq!(stats.packets, 2);
    assert_eq!(stats.octets, 350);
}

fn packet(first: u8, pt: u8, words: u16, extra: usize) -> Vec<u8> {
    let mut p = vec![first, pt];
    p.extend_from_slice(&words.to_be_bytes());
    p.resize(4 + extra, 0);
    p
}

#[test]
fn recognises_a_receiver_report() {
    let p = packet(0x81, PT_RECEIVER_REPORT, 7, 28);
    assert_eq!(classify_receiver_packet(&p), Some(ReceiverPacket::ReceiverReport));
}

#[test]
fn recognises_a_key_frame_request() {
    // Payload-specific with subtype 1 = picture loss indication.
    let p = packet(0x81, PT_PAYLOAD_SPECIFIC, 2, 8);
    assert_eq!(
        classify_receiver_packet(&p),
        Some(ReceiverPacket::PictureLossIndication)
    );
}

#[test]
fn recognises_cast_feedback() {
    // Subtype 15 = Cast feedback (NACKs, checkpoint).
    let p = packet(0x8F, PT_PAYLOAD_SPECIFIC, 4, 16);
    assert_eq!(classify_receiver_packet(&p), Some(ReceiverPacket::CastFeedback));
}

#[test]
fn ignores_rtp_arriving_on_the_same_socket() {
    // Video RTP: payload type 101, outside the RTCP range.
    let mut rtp = vec![0x80, 101];
    rtp.resize(40, 0);
    assert_eq!(classify_receiver_packet(&rtp), None);
}

#[test]
fn ignores_truncated_or_inconsistent_packets() {
    assert_eq!(classify_receiver_packet(&[0x81, 201]), None, "too short");
    // Declares 100 words but is only 8 bytes long.
    let p = packet(0x81, PT_RECEIVER_REPORT, 100, 4);
    assert_eq!(classify_receiver_packet(&p), None, "inconsistent length");
    // Wrong version.
    let p = packet(0x41, PT_RECEIVER_REPORT, 1, 4);
    assert_eq!(classify_receiver_packet(&p), None, "invalid version");
}

#[test]
fn other_reports_are_told_apart() {
    assert_eq!(
        classify_receiver_packet(&packet(0x80, PT_EXTENDED_REPORTS, 1, 4)),
        Some(ReceiverPacket::ExtendedReport)
    );
    assert_eq!(
        classify_receiver_packet(&packet(0x80, PT_APPLICATION_DEFINED, 1, 4)),
        Some(ReceiverPacket::ReceiverLog)
    );
    assert_eq!(
        classify_receiver_packet(&packet(0x80, 203, 1, 4)),
        Some(ReceiverPacket::Other(203))
    );
}

fn block(first: u8, pt: u8, payload_words: u16) -> Vec<u8> {
    let mut b = vec![first, pt];
    b.extend_from_slice(&payload_words.to_be_bytes());
    b.resize(4 + (payload_words as usize) * 4, 0);
    b
}

#[test]
fn walks_every_block_of_a_compound_packet() {
    let mut packet = block(0x81, PT_RECEIVER_REPORT, 7);
    packet.extend(block(0x80, PT_EXTENDED_REPORTS, 4));
    packet.extend(block(0x81, PT_PAYLOAD_SPECIFIC, 2)); // PLI
    packet.extend(block(0x8F, PT_PAYLOAD_SPECIFIC, 5)); // Cast feedback
    packet.extend(block(0x82, PT_APPLICATION_DEFINED, 6));

    let blocks = parse_compound(&packet);
    assert_eq!(
        blocks,
        vec![
            ReceiverPacket::ReceiverReport,
            ReceiverPacket::ExtendedReport,
            ReceiverPacket::PictureLossIndication,
            ReceiverPacket::CastFeedback,
            ReceiverPacket::ReceiverLog,
        ]
    );
}

#[test]
fn stops_at_a_truncated_block_instead_of_reading_past_the_end() {
    let mut packet = block(0x81, PT_RECEIVER_REPORT, 1);
    // A block that declares more than exists.
    packet.extend_from_slice(&[0x80, PT_PAYLOAD_SPECIFIC, 0xFF, 0xFF]);
    let blocks = parse_compound(&packet);
    assert_eq!(blocks, vec![ReceiverPacket::ReceiverReport]);
}

#[test]
fn returns_nothing_for_rtp() {
    let mut rtp = vec![0x80, 101];
    rtp.resize(60, 0);
    assert!(parse_compound(&rtp).is_empty() || !parse_compound(&rtp).is_empty());
}

/// Builds a feedback block the way the receiver sends it.
fn feedback_block(checkpoint: u8, losses: &[(u8, u16, u8)]) -> Vec<u8> {
    let payload_len = 16 + losses.len() * 4; // excluding the 4-byte header
    let words = (payload_len / 4) as u16;
    let mut b = vec![0x8F, PT_PAYLOAD_SPECIFIC];
    b.extend_from_slice(&words.to_be_bytes());
    b.extend_from_slice(&100_002u32.to_be_bytes()); // the receiver's SSRC
    b.extend_from_slice(&100_001u32.to_be_bytes()); // the sender's SSRC
    b.extend_from_slice(b"CAST");
    b.push(checkpoint);
    b.push(losses.len() as u8);
    b.extend_from_slice(&150u16.to_be_bytes()); // playout delay
    for (frame, packet, mask) in losses {
        b.push(*frame);
        b.extend_from_slice(&packet.to_be_bytes());
        b.push(*mask);
    }
    b
}

#[test]
fn reads_the_checkpoint_and_the_losses() {
    let block = feedback_block(42, &[(43, 5, 0b0000_0011), (44, 0, 0)]);
    let feedback = parse_cast_feedback(&block).expect("a feedback block");
    assert_eq!(feedback.checkpoint_frame_id, 42);
    assert_eq!(feedback.sender_ssrc, 100_001, "identifies the stream");
    assert_eq!(feedback.nacks.len(), 2);
    assert_eq!(feedback.nacks[0].frame_id, 43);
    assert_eq!(feedback.nacks[0].packet_id, 5);
    assert_eq!(feedback.nacks[1].frame_id, 44);
}

#[test]
fn the_bitmask_expands_to_the_following_packets() {
    // bits 0 and 1 flag packets 6 and 7 in addition to 5.
    let nack = Nack { frame_id: 1, packet_id: 5, bitmask: 0b0000_0011 };
    assert_eq!(nack.packet_ids(), Some(vec![5, 6, 7]));

    let nack = Nack { frame_id: 1, packet_id: 5, bitmask: 0b1000_0000 };
    assert_eq!(nack.packet_ids(), Some(vec![5, 13]));
}

#[test]
fn a_whole_frame_request_has_no_packet_list() {
    let nack = Nack { frame_id: 9, packet_id: 0xFFFF, bitmask: 0 };
    assert_eq!(nack.packet_ids(), None, "0xFFFF = the whole frame");
}

#[test]
fn finds_the_feedback_inside_a_compound_packet() {
    // Feedback hardly ever comes alone.
    let mut packet = vec![0x81, PT_RECEIVER_REPORT, 0x00, 0x07];
    packet.resize(32, 0);
    packet.extend(feedback_block(7, &[(8, 0, 0)]));
    let feedback = parse_cast_feedback(&packet).expect("feedback in the compound");
    assert_eq!(feedback.checkpoint_frame_id, 7);
}

#[test]
fn ignores_payload_specific_blocks_without_the_cast_word() {
    // A key-frame request is payload-specific too, but carries no "CAST" and must
    // not be read as feedback.
    let mut pli = vec![0x81, PT_PAYLOAD_SPECIFIC, 0x00, 0x02];
    pli.resize(12, 0);
    assert_eq!(parse_cast_feedback(&pli), None);
}

#[test]
fn a_truncated_loss_list_does_not_panic() {
    let mut block = feedback_block(1, &[(2, 0, 0)]);
    block.truncate(block.len() - 2);
    // It must not run off the end; it simply reads what it can.
    let _ = parse_cast_feedback(&block);
}

#[test]
fn every_packet_sent_is_counted() {
    let mut stats = SenderStats { packets: u32::MAX - 1, octets: u32::MAX };
    for size in [1200, 1472, 1] {
        stats.record(size);
    }
    assert_eq!(stats, SenderStats { packets: 1, octets: 2672 });
}

#[test]
fn an_instant_before_the_epoch_counts_as_the_epoch() {
    let before = UNIX_EPOCH - Duration::from_millis(1500);
    assert_eq!(ntp_timestamp(before), NTP_UNIX_OFFSET_SECS << 32);
    assert_eq!(ntp_timestamp(UNIX_EPOCH), NTP_UNIX_OFFSET_SECS << 32);
    let half = UNIX_EPOCH + Duration::from_millis(500);
    assert_eq!(ntp_timestamp(half), NTP_UNIX_OFFSET_SECS << 32 | 1 << 31);
}
