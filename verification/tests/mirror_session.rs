use bignetscreen::address::Address;
use bignetscreen::error::NdError;
use bignetscreen::latency::Latency;
use bignetscreen::mirror::{
    build_offer, Answer, MirrorConfig, Negotiated, StreamKeys, AUDIO_TIME_BASE, VIDEO_TIME_BASE,
};
use bignetscreen::mirror_session::{
    configure, element_error, gather_more, is_unsupported, outcome, plan_streams, prune_history,
    receive, rtp_timestamp, AfterPull, FlowWatch, History, HistoryEntry, Liveness, Pulled,
    SenderLoop, SessionEnd, StreamSender, RETRANSMIT_HISTORY_MAX, RETRANSMIT_HISTORY_NS,
};
use bignetscreen::pipeline::{AudioSource, H264Encoder, Overrides, PipelineEvent};
use bignetscreen::rtcp::Nack;
use bignetscreen::rtp::encrypt_frame;
use std::time::{Duration, UNIX_EPOCH};

const MS: u64 = 1_000_000;

#[test]
fn only_negotiation_failures_fall_back_to_http() {
    // The HTTP path costs seconds of delay: it is only worth taking when the
    // device genuinely has no mirroring support.
    assert!(is_unsupported(&NdError::Unsupported(
        "the receiver refused to start app 0F5096E8: NOT_FOUND".into()
    )));
    assert!(is_unsupported(&NdError::Unsupported(
        "the receiver refused the mirroring offer: {}".into()
    )));
    assert!(is_unsupported(&NdError::Unsupported(
        "the receiver accepted no usable stream".into()
    )));

    // A network or pipeline failure mid-session must **not** restart over HTTP:
    // that would trade one problem for another, at twice the delay.
    assert!(!is_unsupported(&NdError::Network("connection dropped".into())));
    assert!(!is_unsupported(&NdError::Gst("the encoder failed".into())));
    assert!(!is_unsupported(&NdError::Protocol(
        "the receiver stopped responding".into()
    )));
    assert!(!is_unsupported(&NdError::Cancelled));
}

/// Builds a history of `count` frames spaced `step` apart.
fn history_of(count: usize, step: Duration) -> (History, u64) {
    let start = 1_000 * MS;
    let step = step.as_nanos() as u64;
    let mut history = History::new();
    for i in 0..count {
        history.push_back(HistoryEntry {
            id: (i & 0xFF) as u8,
            sent_at: start + step * i as u64,
            packets: vec![vec![0u8; 32]],
        });
    }
    (history, start + step * count.saturating_sub(1) as u64)
}

#[test]
fn history_holds_two_seconds_of_audio() {
    // The case that killed the session in the field: Opus audio at ~100 frames
    // per second. With a fixed cap of 16 frames only 160 ms were left, and the
    // receiver asked for frames from over a second ago.
    let step = Duration::from_millis(10);
    let (mut history, now) = history_of(300, step);
    prune_history(&mut history, now);

    let held = history.len() as u32 * step;
    assert!(
        held >= Duration::from_secs(1),
        "only {held:?} of audio in the history"
    );
    // And never 256 entries or more, or two frames share the same 8-bit id and we
    // would resend the wrong frame.
    assert!(history.len() <= RETRANSMIT_HISTORY_MAX);
    assert!(RETRANSMIT_HISTORY_MAX < 256);
}

#[test]
fn history_expires_by_age_not_by_count() {
    // Video at 30 fps: 2 s holds ~60 frames, well under the cap. Age is what
    // governs here, not the count.
    let step = Duration::from_millis(33);
    let (mut history, now) = history_of(200, step);
    prune_history(&mut history, now);

    assert!(history.len() < RETRANSMIT_HISTORY_MAX, "{}", history.len());
    let oldest = now - history.front().unwrap().sent_at;
    assert!(oldest <= RETRANSMIT_HISTORY_NS, "{oldest}");
    // Of the 200, those from 60 steps back are at most 2 s old.
    assert_eq!(history.len(), 61);
}

#[test]
fn rtp_timestamp_conversion_uses_the_stream_time_base() {
    // One second in nanoseconds, in video's 90 kHz time base.
    let pts_ns: u64 = 1_000_000_000;
    assert_eq!(rtp_timestamp(pts_ns, VIDEO_TIME_BASE), 90_000);
    // And in audio's 48 kHz time base.
    assert_eq!(rtp_timestamp(pts_ns, AUDIO_TIME_BASE), 48_000);
}

#[test]
fn timestamp_conversion_survives_long_sessions() {
    // Two different limits, and only one of them is our problem.
    //
    // The RTP counter is 32 bits: at 90 kHz it wraps in ~13.3 h. That belongs to
    // the protocol, and the receiver handles the overflow.
    let wrap_hours = (u32::MAX as f64) / VIDEO_TIME_BASE as f64 / 3600.0;
    assert!((13.0..14.0).contains(&wrap_hours), "{wrap_hours}");

    // The **intermediate product**, though, is ours: in 64 bits it would overflow
    // at around 57 h of session and the timestamp would come out wrong with no
    // warning. That is why the arithmetic is done in 128 bits.
    let overflow_hours = (u64::MAX as f64) / VIDEO_TIME_BASE as f64 / 1e9 / 3600.0;
    assert!(overflow_hours < 100.0, "{overflow_hours}");

    let a_day_ns: u64 = 24 * 3600 * 1_000_000_000;
    let ticks: u64 = 24 * 3600 * 90_000;
    assert_eq!(rtp_timestamp(a_day_ns, VIDEO_TIME_BASE) as u64, ticks % (1 << 32));
    // A hundred days: beyond what 64 bits of product could hold.
    assert_eq!(
        rtp_timestamp(100 * a_day_ns, VIDEO_TIME_BASE) as u64,
        100 * ticks % (1 << 32)
    );
}

fn negotiated(accepted: Vec<u32>) -> Negotiated {
    let video = StreamKeys::random([1; 16], [2; 16]);
    let audio = StreamKeys::random([3; 16], [4; 16]);
    let (_, offer) = build_offer(&MirrorConfig::default(&Latency::new()), 1, video, audio);
    Negotiated {
        receiver_ip: Address::V4(0xC0A8_0002),
        answer: Answer { udp_port: 51810, send_indexes: accepted, ssrcs: vec![] },
        offer,
    }
}

fn video_sender() -> StreamSender {
    let session = negotiated(vec![0, 1]);
    StreamSender::new(session.video().unwrap(), VIDEO_TIME_BASE, true, 0)
}

#[test]
fn a_frame_is_encrypted_packetised_and_kept() {
    let mut sender = video_sender();
    assert_eq!(sender.ssrc(), 100_001);
    assert!(sender.is_video());
    let data = vec![7u8; 3000];
    sender.pump(&data, true, 1_000_000_000, 5 * MS);
    assert_eq!(sender.frame_id, 1);
    assert_eq!(sender.last_rtp_timestamp, 90_000);
    let entry = sender.history.back().unwrap();
    assert_eq!(entry.id, 0);
    assert_eq!(entry.packets.len(), 3);
    let sent: Vec<u8> = entry.packets.iter().flat_map(|p| p[18..].to_vec()).collect();
    assert_eq!(sent, encrypt_frame(&[1; 16], &[2; 16], 0, &data));

    // The next frame depends on the one before it.
    sender.pump(&[1, 2, 3], false, 1_033_000_000, 38 * MS);
    let entry = sender.history.back().unwrap();
    assert_eq!(entry.packets[0][12] & 0x80, 0, "not a key frame");
    assert_eq!(entry.packets[0][18], 0, "it references frame 0");
    assert_eq!(u16::from_be_bytes([entry.packets[0][2], entry.packets[0][3]]), 3);
}

#[test]
fn what_the_receiver_asks_for_is_resent() {
    let mut sender = video_sender();
    sender.pump(&vec![0u8; 4000], true, 0, 0);
    sender.pump(&vec![0u8; 10], false, 33 * MS, 33 * MS);

    let some = Nack { frame_id: 0, packet_id: 1, bitmask: 0b0000_0101 };
    let resend = sender.retransmit(&[some]);
    // Packets 1, 2 and 4; the frame has three.
    assert_eq!(resend.packets, vec![(0, 1), (0, 2)]);
    assert_eq!(resend.expired, 0);

    let whole = Nack { frame_id: 1, packet_id: 0xFFFF, bitmask: 0 };
    let gone = Nack { frame_id: 77, packet_id: 0, bitmask: 0 };
    let resend = sender.retransmit(&[gone, whole]);
    assert_eq!(resend.packets, vec![(1, 0)]);
    assert_eq!(resend.expired, 1);
}

#[test]
fn a_report_goes_out_every_half_second() {
    let mut sender = video_sender();
    let at = UNIX_EPOCH + Duration::from_secs(10);
    sender.record_sent(100);
    assert!(sender.send_report_if_due(499 * MS, at).is_none());
    let report = sender.send_report_if_due(500 * MS, at).unwrap();
    assert_eq!(report.len(), 28);
    assert_eq!(u32::from_be_bytes(report[4..8].try_into().unwrap()), 100_001);
    assert_eq!(
        u32::from_be_bytes(report[8..12].try_into().unwrap()),
        2_208_988_810,
        "NTP seconds"
    );
    assert_eq!(u32::from_be_bytes(report[20..24].try_into().unwrap()), 1);
    assert!(sender.send_report_if_due(600 * MS, at).is_none());

    sender.rtcp_enabled = false;
    assert!(sender.send_report_if_due(5_000 * MS, at).is_none());
}

#[test]
fn flow_separates_a_hole_in_the_pipeline_from_a_late_send() {
    let mut flow = FlowWatch::new();
    flow.record(0, 10 * MS, 0);
    flow.record(10 * MS, 10 * MS, 10 * MS);
    flow.record(50 * MS, 10 * MS, 20 * MS);
    flow.record(60 * MS, 10 * MS, 90 * MS);
    assert_eq!(flow.take(), (4, 1, 40, 70));
    assert_eq!(flow.take(), (0, 0, 0, 0));
    assert_eq!(flow.last_pts_ns, Some(60 * MS));
}

#[test]
fn a_session_is_configured_for_the_receiver() {
    let candidates = [H264Encoder::VaH264, H264Encoder::X264];
    let (cfg, mirror) = configure(
        (1920, 1200),
        &candidates,
        AudioSource::Silence,
        Overrides::none(),
        150,
    )
    .unwrap();
    assert_eq!((cfg.width, cfg.height), (1728, 1080));
    assert_eq!(cfg.encoder, H264Encoder::VaH264);
    assert_eq!(mirror.max_bitrate, 10_000_000);
    assert_eq!((mirror.width, mirror.height, mirror.fps), (1728, 1080, 30));
    assert!(mirror.with_audio);

    let none = configure((1920, 1080), &[], AudioSource::Silence, Overrides::none(), 150);
    assert_eq!(
        none.unwrap_err().message(),
        "unsupported: no H.264 encoder available"
    );
}

#[test]
fn a_session_goes_on_without_audio_but_not_without_anything() {
    let streams = plan_streams(&negotiated(vec![0, 1]), true).unwrap();
    assert_eq!(streams.len(), 2);
    assert_eq!(streams[0].time_base, VIDEO_TIME_BASE);
    assert_eq!(streams[1].time_base, AUDIO_TIME_BASE);
    assert_eq!(plan_streams(&negotiated(vec![0, 1]), false).unwrap().len(), 1);
    match plan_streams(&negotiated(vec![1]), false) {
        Err(error) => assert_eq!(
            error.message(),
            "unsupported: the receiver accepted no usable stream"
        ),
        Ok(_) => panic!("nothing was accepted"),
    }
}

fn feedback(ssrc: u32, losses: &[(u8, u16, u8)]) -> Vec<u8> {
    let mut b = vec![0x8F, 206];
    b.extend_from_slice(&((4 + losses.len()) as u16).to_be_bytes());
    b.extend_from_slice(&100_002u32.to_be_bytes());
    b.extend_from_slice(&ssrc.to_be_bytes());
    b.extend_from_slice(b"CAST");
    b.push(0);
    b.push(losses.len() as u8);
    b.extend_from_slice(&150u16.to_be_bytes());
    for (frame, packet, mask) in losses {
        b.push(*frame);
        b.extend_from_slice(&packet.to_be_bytes());
        b.push(*mask);
    }
    b
}

#[test]
fn feedback_reaches_the_stream_it_is_about() {
    let ssrcs = [100_001, 100_003];
    let mut packet = vec![0x81, 206, 0, 2];
    packet.resize(12, 0);
    packet.extend(feedback(100_003, &[(4, 2, 0)]));
    let received = receive(&packet, &ssrcs);
    assert!(received.alive);
    assert!(received.wants_key_frame);
    let (stream, nacks) = received.lost.unwrap();
    assert_eq!(stream, 1);
    assert_eq!(nacks, vec![Nack { frame_id: 4, packet_id: 2, bitmask: 0 }]);

    // Of two streams with one SSRC, the later one is asked.
    let twice = [100_003, 100_001, 100_003];
    assert_eq!(receive(&packet, &twice).lost.unwrap().0, 2);

    assert!(receive(&feedback(5, &[(4, 2, 0)]), &ssrcs).lost.is_none());
    assert!(receive(&feedback(100_001, &[]), &ssrcs).lost.is_none());
    assert!(!receive(&[0x80, 101, 0, 0, 0, 0, 0, 0], &ssrcs).alive);
}

#[test]
fn a_silent_receiver_ends_the_session() {
    let mut liveness = Liveness::new(0, 0);
    // One that never spoke is not given up on.
    assert!(liveness.observe(0, 60_000 * MS).is_ok());
    assert!(liveness.observe(3, 60_000 * MS).is_ok());
    assert!(liveness.observe(3, 68_000 * MS).is_ok());
    let error = liveness.observe(3, 68_001 * MS).unwrap_err();
    assert_eq!(error.message(), "protocol: the receiver stopped responding");
}

#[test]
fn a_request_that_came_too_late_restarts_the_picture() {
    let mut work = SenderLoop::new(video_sender(), 0, 0);
    let gone = Nack { frame_id: 9, packet_id: 0, bitmask: 0 };
    let turn = work.begin_turn(&[gone], false, 1, MS);
    assert_eq!(turn.resend.expired, 1);
    assert!(turn.force_key_frame);
    assert!(!turn.key_requested, "the request has been served");
    assert!(turn.end.is_none());

    let session = negotiated(vec![0, 1]);
    let audio = StreamSender::new(session.audio().unwrap(), AUDIO_TIME_BASE, false, 0);
    let mut work = SenderLoop::new(audio, 1, 0);
    let turn = work.begin_turn(&[gone], true, 1, MS);
    assert!(!turn.force_key_frame, "a key frame makes no sense for audio");
    assert!(turn.key_requested, "it is left to the video");

    let turn = work.begin_turn(&[], false, 1, 8_001 * MS);
    assert!(turn.end.is_some());
}

#[test]
fn pulling_frames_drives_the_sender() {
    let mut work = SenderLoop::new(video_sender(), 0, 0);
    assert_eq!(work.take_frame(Pulled::Nothing, 0), AfterPull::Nothing);
    let frame = Pulled::Frame { data: &[1, 2, 3], is_key: true, pts_ns: 0 };
    assert_eq!(work.take_frame(frame, MS), AfterPull::Send);
    assert_eq!(work.sender.history.len(), 1);
    assert_eq!(work.take_frame(Pulled::EndOfStream, 2 * MS), AfterPull::Ended);
    assert!(work.stats_due(4_999 * MS).is_none());
    assert_eq!(work.stats_due(5_000 * MS), Some((1, 0, 0, 0)));
    assert!(work.stats_due(5_001 * MS).is_none());
}

#[test]
fn only_failures_of_the_stream_are_failures_of_the_session() {
    assert!(outcome(SessionEnd::Cancelled).is_ok());
    assert!(outcome(SessionEnd::Pipeline(None)).is_ok());
    assert!(outcome(SessionEnd::Pipeline(Some(PipelineEvent::Eos))).is_ok());
    let event = PipelineEvent::Error { message: "boom".into(), debug: "x".into() };
    let error = outcome(SessionEnd::Pipeline(Some(event))).unwrap_err();
    assert_eq!(error.message(), "gstreamer: boom");
    let error = outcome(SessionEnd::Sender(Err(NdError::Cancelled))).unwrap_err();
    assert_eq!(error.message(), "cancelled");
    assert_eq!(
        element_error("mirror-video", false).message(),
        "gstreamer: element mirror-video not found"
    );
    assert_eq!(
        element_error("mirror-video", true).message(),
        "gstreamer: mirror-video is not an appsink"
    );
}

#[test]
fn a_round_of_requests_is_limited() {
    assert!(gather_more(256));
    assert!(!gather_more(257));
}

#[test]
fn ids_stay_unique_over_a_long_session() {
    let mut sender = video_sender();
    for i in 0..600u64 {
        sender.pump(&[0], i == 0, i * 5 * MS, i * 5 * MS);
    }
    assert_eq!(sender.history.len(), 200);
    let mut ids: Vec<u8> = sender.history.iter().map(|e| e.id).collect();
    ids.sort();
    ids.dedup();
    assert_eq!(ids.len(), 200);
}

#[test]
fn a_frame_arrives_whole() {
    let mut sender = video_sender();
    for (is_key, header) in [(true, 18), (false, 19)] {
        let data: Vec<u8> = (0..4000u32).map(|i| (i % 251) as u8).collect();
        let frame_id = sender.frame_id;
        sender.pump(&data, is_key, 0, 0);
        let packets = &sender.history.back().unwrap().packets;
        assert_eq!(packets.len(), 3);
        let received: Vec<u8> = packets
            .iter()
            .flat_map(|packet| packet[header..].to_vec())
            .collect();
        assert_ne!(received, data);
        let frame = encrypt_frame(&sender.keys.key, &sender.keys.iv_mask, frame_id, &received);
        assert_eq!(frame, data);
    }
}

#[test]
fn a_new_sender_has_seen_nothing() {
    assert_eq!(video_sender().flow, FlowWatch::new());
}
