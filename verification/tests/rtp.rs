use aes::cipher::{KeyIvInit, StreamCipher};
use bignetscreen::rtp::{
    encrypt_frame, Frame, Packetizer, KEY_FRAME_BIT, MARKER_BIT, MAX_PACKET_SIZE, REFERENCE_ID_BIT,
};

fn parse(packet: &[u8]) -> (u8, u8, u16, u32, u32, u8, u8, u16, u16) {
    (
        packet[0],
        packet[1],
        u16::from_be_bytes([packet[2], packet[3]]),
        u32::from_be_bytes([packet[4], packet[5], packet[6], packet[7]]),
        u32::from_be_bytes([packet[8], packet[9], packet[10], packet[11]]),
        packet[12],
        packet[13],
        u16::from_be_bytes([packet[14], packet[15]]),
        u16::from_be_bytes([packet[16], packet[17]]),
    )
}

#[test]
fn key_frame_packet_has_the_right_header() {
    let mut p = Packetizer::new(100_001, 101);
    let payload = vec![0xAB; 100];
    let packets = p.packetize(&Frame {
        frame_id: 0,
        reference_frame_id: None,
        rtp_timestamp: 90_000,
        payload: &payload,
    });
    assert_eq!(packets.len(), 1);

    let (b0, b1, seq, ts, ssrc, flags, fid, pid, max_pid) = parse(&packets[0]);
    assert_eq!(b0, 0b1000_0000, "version 2, no padding/extension/CSRC");
    assert_eq!(b1 & 0x7F, 101, "payload type");
    assert_eq!(b1 & MARKER_BIT, MARKER_BIT, "a single packet is the last one");
    assert_eq!(seq, 0);
    assert_eq!(ts, 90_000);
    assert_eq!(ssrc, 100_001);
    assert_eq!(flags & KEY_FRAME_BIT, KEY_FRAME_BIT, "it is a key frame");
    assert_eq!(flags & REFERENCE_ID_BIT, 0, "a key frame references nothing");
    assert_eq!(flags & 0b0011_1111, 0, "no extensions");
    assert_eq!(fid, 0);
    assert_eq!(pid, 0);
    assert_eq!(max_pid, 0);
    // No RFID: the payload starts right after the 18 header bytes.
    assert_eq!(&packets[0][18..], &payload[..]);
}

#[test]
fn dependent_frame_carries_the_reference_id() {
    let mut p = Packetizer::new(7, 101);
    let payload = vec![1, 2, 3];
    let packets = p.packetize(&Frame {
        frame_id: 5,
        reference_frame_id: Some(4),
        rtp_timestamp: 0,
        payload: &payload,
    });
    let flags = packets[0][12];
    assert_eq!(flags & KEY_FRAME_BIT, 0);
    assert_eq!(flags & REFERENCE_ID_BIT, REFERENCE_ID_BIT);
    assert_eq!(packets[0][13], 5, "frame id");
    assert_eq!(packets[0][18], 4, "reference frame id");
    assert_eq!(&packets[0][19..], &payload[..]);
}

#[test]
fn frame_ids_are_truncated_to_eight_bits() {
    let mut p = Packetizer::new(1, 101);
    let packets = p.packetize(&Frame {
        frame_id: 300,
        reference_frame_id: Some(299),
        rtp_timestamp: 0,
        payload: &[0u8; 4],
    });
    assert_eq!(packets[0][13], (300 & 0xFF) as u8);
    assert_eq!(packets[0][18], (299 & 0xFF) as u8);
}

#[test]
fn a_large_frame_is_split_and_only_the_last_is_marked() {
    let mut p = Packetizer::new(1, 101);
    let size = p.max_payload_size() * 3 + 17;
    let payload = vec![0x5A; size];
    let packets = p.packetize(&Frame {
        frame_id: 1,
        reference_frame_id: Some(0),
        rtp_timestamp: 0,
        payload: &payload,
    });
    assert_eq!(packets.len(), 4);

    for (index, packet) in packets.iter().enumerate() {
        let (_, b1, seq, _, _, _, _, pid, max_pid) = parse(packet);
        assert_eq!(seq as usize, index, "a continuous sequence");
        assert_eq!(pid as usize, index);
        assert_eq!(max_pid, 3, "they all announce the same total");
        let is_last = index == 3;
        assert_eq!(
            b1 & MARKER_BIT != 0,
            is_last,
            "only the last packet carries the marker"
        );
        assert!(packet.len() <= MAX_PACKET_SIZE, "packet too large");
    }

    // No byte is lost or duplicated by the split.
    let rebuilt: Vec<u8> = packets.iter().flat_map(|p| p[19..].to_vec()).collect();
    assert_eq!(rebuilt, payload);
}

#[test]
fn an_empty_frame_still_produces_one_packet() {
    let mut p = Packetizer::new(1, 101);
    let packets = p.packetize(&Frame {
        frame_id: 0,
        reference_frame_id: None,
        rtp_timestamp: 0,
        payload: &[],
    });
    assert_eq!(packets.len(), 1, "the receiver expects the frame to exist");
    assert_eq!(packets[0].len(), 18);
}

#[test]
fn sequence_numbers_are_continuous_across_frames() {
    let mut p = Packetizer::new(1, 101);
    let mut expected = 0u16;
    for frame_id in 0..3u32 {
        let packets = p.packetize(&Frame {
            frame_id,
            reference_frame_id: if frame_id > 0 { Some(frame_id - 1) } else { None },
            rtp_timestamp: frame_id * 3000,
            payload: &[0u8; 10],
        });
        for packet in packets {
            assert_eq!(u16::from_be_bytes([packet[2], packet[3]]), expected);
            expected = expected.wrapping_add(1);
        }
    }
}

#[test]
fn packets_never_exceed_the_ethernet_mtu() {
    let mut p = Packetizer::new(1, 101);
    let payload = vec![0u8; 100_000];
    for packet in p.packetize(&Frame {
        frame_id: 2,
        reference_frame_id: Some(1),
        rtp_timestamp: 0,
        payload: &payload,
    }) {
        assert!(
            packet.len() <= MAX_PACKET_SIZE,
            "would fragment in IP: {} bytes",
            packet.len()
        );
    }
}

#[test]
fn encryption_round_trips() {
    // AES-CTR is symmetric: encrypting twice returns the original.
    let key = [0x11u8; 16];
    let mask = [0x22u8; 16];
    let plain = b"an encoded video frame".to_vec();
    let cipher = encrypt_frame(&key, &mask, 42, &plain);
    assert_ne!(cipher, plain);
    assert_eq!(encrypt_frame(&key, &mask, 42, &cipher), plain);
}

#[test]
fn each_frame_gets_a_different_keystream() {
    // Reusing the keystream across frames would leak the content by XOR.
    let key = [0u8; 16];
    let mask = [0u8; 16];
    let plain = vec![0u8; 32];
    let a = encrypt_frame(&key, &mask, 1, &plain);
    let b = encrypt_frame(&key, &mask, 2, &plain);
    assert_ne!(a, b);
}

#[test]
fn iv_derivation_matches_open_screen() {
    // The IV is the frame id big-endian at offset 8, XORed with the mask.
    // Verified by computing the keystream of a zeroed block with the expected IV
    // and comparing it against the function's output.
    let key = [0xAAu8; 16];
    let mask = [0x0Fu8; 16];
    let frame_id = 0x0102_0304u32;

    let mut expected_iv = [0u8; 16];
    expected_iv[8..12].copy_from_slice(&frame_id.to_be_bytes());
    for (byte, m) in expected_iv.iter_mut().zip(mask.iter()) {
        *byte ^= m;
    }

    let mut reference = vec![0u8; 48];
    let mut cipher = ctr::Ctr128BE::<aes::Aes128>::new(&key.into(), &expected_iv.into());
    cipher.apply_keystream(&mut reference);

    let produced = encrypt_frame(&key, &mask, frame_id, &[0u8; 48]);
    assert_eq!(produced, reference, "the IV derivation diverged");
}

#[test]
fn encryption_preserves_length() {
    for size in [0, 1, 15, 16, 17, 5000] {
        let out = encrypt_frame(&[3u8; 16], &[4u8; 16], 9, &vec![0u8; size]);
        assert_eq!(out.len(), size);
    }
}

#[test]
fn encryption_gives_the_published_answer() {
    // The first block of the counter mode example for AES-128 in NIST SP 800-38A.
    let key = [
        0x2b, 0x7e, 0x15, 0x16, 0x28, 0xae, 0xd2, 0xa6, 0xab, 0xf7, 0x15, 0x88, 0x09, 0xcf, 0x4f,
        0x3c,
    ];
    let counter = [
        0xf0, 0xf1, 0xf2, 0xf3, 0xf4, 0xf5, 0xf6, 0xf7, 0xf8, 0xf9, 0xfa, 0xfb, 0xfc, 0xfd, 0xfe,
        0xff,
    ];
    let plain = [
        0x6b, 0xc1, 0xbe, 0xe2, 0x2e, 0x40, 0x9f, 0x96, 0xe9, 0x3d, 0x7e, 0x11, 0x73, 0x93, 0x17,
        0x2a,
    ];
    let cipher = [
        0x87, 0x4d, 0x61, 0x91, 0xb6, 0x20, 0xe3, 0x26, 0x1b, 0xef, 0x68, 0x64, 0x99, 0x0d, 0xb6,
        0xce,
    ];
    assert_eq!(encrypt_frame(&key, &counter, 0, &plain), cipher.to_vec());
}

#[test]
fn the_sequence_wraps_at_sixteen_bits() {
    let mut p = Packetizer::new(1, 101);
    let payload = vec![0u8; p.max_payload_size() * 65_535];
    let packets = p.packetize(&Frame {
        frame_id: 1,
        reference_frame_id: None,
        rtp_timestamp: 0,
        payload: &payload,
    });
    assert_eq!(packets.len(), 65_535);
    let frame = Frame { frame_id: 2, reference_frame_id: None, rtp_timestamp: 0, payload: &[1] };
    assert_eq!(parse(&p.packetize(&frame)[0]).2, 65_535);
    assert_eq!(parse(&p.packetize(&frame)[0]).2, 0);
    assert_eq!(p.ssrc(), 1);
}
