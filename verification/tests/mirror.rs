use bignetscreen::address::Address;
use bignetscreen::error::NdError;
use bignetscreen::latency::{self, Latency, Profile};
use bignetscreen::mirror::{
    build_offer, hex, negotiate, parse_answer, target_delay_ms, Answer, MirrorConfig, Negotiated,
    NegotiationEvent, StreamKeys, NS_WEBRTC, RTP_PAYLOAD_H264,
};
use serde_json::Value;

fn json(text: &str) -> Value {
    serde_json::from_str(text).unwrap()
}

fn keys(seed: u8) -> StreamKeys {
    StreamKeys::random([seed; 16], [seed ^ 0x5A; 16])
}

#[test]
fn offer_has_the_fields_the_receiver_requires() {
    let (payload, offer) = build_offer(&MirrorConfig::default(&Latency::new()), 7, keys(1), keys(2));
    assert_eq!(payload["type"], "OFFER");
    assert_eq!(payload["seqNum"], 7);
    assert_eq!(payload["offer"]["castMode"], "mirroring");

    let streams = payload["offer"]["supportedStreams"].as_array().unwrap();
    assert_eq!(streams.len(), 2, "video + audio");

    let video = &streams[0];
    assert_eq!(video["type"], "video_source");
    assert_eq!(video["codecName"], "h264");
    assert_eq!(video["rtpProfile"], "cast");
    assert_eq!(video["rtpPayloadType"], RTP_PAYLOAD_H264);
    assert_eq!(video["timeBase"], "1/90000");

    let audio = &streams[1];
    assert_eq!(audio["type"], "audio_source");
    assert_eq!(audio["codecName"], "opus");
    assert_eq!(audio["timeBase"], "1/48000");

    assert_eq!(offer.streams.len(), 2);
    assert!(offer.streams[0].is_video);
    assert!(!offer.streams[1].is_video);
}

#[test]
fn offer_can_be_video_only() {
    let cfg = MirrorConfig { with_audio: false, ..MirrorConfig::default(&Latency::new()) };
    let (payload, offer) = build_offer(&cfg, 1, keys(1), keys(2));
    assert_eq!(
        payload["offer"]["supportedStreams"].as_array().unwrap().len(),
        1
    );
    assert_eq!(offer.streams.len(), 1);
}

#[test]
fn aes_material_is_hex_and_unique_per_stream() {
    let (payload, _) = build_offer(&MirrorConfig::default(&Latency::new()), 1, keys(1), keys(2));
    let streams = payload["offer"]["supportedStreams"].as_array().unwrap();
    for stream in streams {
        for field in ["aesKey", "aesIvMask"] {
            let value = stream[field].as_str().unwrap();
            assert_eq!(value.len(), 32, "{field} must be 16 bytes in hex");
            assert!(value.chars().all(|c| c.is_ascii_hexdigit()), "{value}");
        }
    }
    // Video and audio must not share a key.
    assert_ne!(streams[0]["aesKey"], streams[1]["aesKey"]);
}

#[test]
fn keys_are_not_leaked_in_debug_output() {
    let keys = StreamKeys::random([0xAB; 16], [0xCD; 16]);
    let printed = keys.describe();
    assert!(
        !printed.contains(&hex(&keys.key)),
        "the key leaked: {printed}"
    );
}

/// A real ANSWER, in the format the receiver returns.
fn answer_json(seq: i64) -> Value {
    json(&format!(
        "{{\"type\": \"ANSWER\", \"seqNum\": {seq}, \"result\": \"ok\", \"answer\": {{\
         \"castMode\": \"mirroring\", \"udpPort\": 51810, \"sendIndexes\": [0, 1], \
         \"ssrcs\": [100002, 100004], \"receiverGetStatus\": true}}}}"
    ))
}

#[test]
fn parses_a_well_formed_answer() {
    let answer = parse_answer(&answer_json(1), 1).unwrap();
    assert_eq!(answer.udp_port, 51810);
    assert_eq!(answer.send_indexes, vec![0, 1]);
    assert_eq!(answer.ssrcs, vec![100_002, 100_004]);
}

#[test]
fn rejects_an_answer_from_another_negotiation() {
    let err = parse_answer(&answer_json(9), 1).unwrap_err().message();
    assert!(err.contains("another negotiation"), "{err}");
}

#[test]
fn rejects_a_refused_offer() {
    let payload = json(r#"{"type": "ANSWER", "seqNum": 1, "result": "error"}"#);
    assert!(parse_answer(&payload, 1).is_err());
}

#[test]
fn rejects_an_answer_without_a_usable_port() {
    let payload = json(
        r#"{"type": "ANSWER", "seqNum": 1, "result": "ok",
            "answer": {"udpPort": 0, "sendIndexes": [0]}}"#,
    );
    let err = parse_answer(&payload, 1).unwrap_err().message();
    assert!(err.contains("no valid UDP port"), "{err}");
}

#[test]
fn rejects_an_answer_that_accepts_nothing() {
    let payload = json(
        r#"{"type": "ANSWER", "seqNum": 1, "result": "ok",
            "answer": {"udpPort": 51810, "sendIndexes": []}}"#,
    );
    let err = parse_answer(&payload, 1).unwrap_err().message();
    assert!(err.contains("none of the offered streams"), "{err}");
}

#[test]
fn negotiated_exposes_only_accepted_streams() {
    let (_, offer) = build_offer(&MirrorConfig::default(&Latency::new()), 1, keys(1), keys(2));
    let negotiated = Negotiated {
        receiver_ip: Address::V4(0xC0A8_0002),
        // The receiver accepted video only.
        answer: Answer { udp_port: 51810, send_indexes: vec![0], ssrcs: vec![100_002] },
        offer,
    };
    assert!(negotiated.video().is_some());
    assert!(negotiated.audio().is_none(), "audio was not accepted");
    assert_eq!(negotiated.target().1, 51810);
}

#[test]
fn an_offer_is_written_as_the_receiver_reads_it() {
    let cfg = MirrorConfig {
        width: 1280,
        height: 720,
        fps: 30,
        max_bitrate: 9_000_000,
        target_delay_ms: 150,
        with_audio: false,
    };
    let (payload, _) = build_offer(&cfg, 3, keys(0x1F), keys(2));
    let video = &payload["offer"]["supportedStreams"][0];
    assert_eq!(video["index"], 0);
    assert_eq!(video["ssrc"], 100_001);
    assert_eq!(video["targetDelay"], 150);
    assert_eq!(video["maxBitRate"], 9_000_000);
    assert_eq!(video["aesKey"], "1F".repeat(16));
    assert_eq!(video["resolutions"][0]["width"], 1280);
}

#[test]
fn negotiation_waits_for_the_answer_among_other_messages() {
    let other = json(r#"{"type": "RECEIVER_STATUS"}"#);
    assert!(negotiate(NegotiationEvent::Message { namespace: "x", payload: &other }, 1).is_none());
    assert!(
        negotiate(NegotiationEvent::Message { namespace: NS_WEBRTC, payload: &other }, 1).is_none()
    );

    let answer = answer_json(1);
    let event = NegotiationEvent::Message { namespace: NS_WEBRTC, payload: &answer };
    assert_eq!(negotiate(event, 1).unwrap().unwrap().udp_port, 51810);

    let refusal = json(r#"{"type":"INVALID"}"#);
    let event = NegotiationEvent::Message { namespace: NS_WEBRTC, payload: &refusal };
    let err = negotiate(event, 1).unwrap().unwrap_err();
    assert!(matches!(err, NdError::Unsupported(_)));
    assert_eq!(
        err.message(),
        "unsupported: the receiver refused the mirroring offer: {\"type\":\"INVALID\"}"
    );

    assert_eq!(
        negotiate(NegotiationEvent::TimedOut, 1).unwrap().unwrap_err().message(),
        "unsupported: the receiver did not answer the offer within 15s"
    );
    assert_eq!(
        negotiate(NegotiationEvent::Closed, 1).unwrap().unwrap_err().message(),
        "protocol: the channel closed during the negotiation"
    );
}

#[test]
fn film_asks_for_a_longer_playout_delay() {
    let mut latency = Latency::new();
    assert_eq!(target_delay_ms(&latency), 150);
    latency::set(&mut latency, Profile::Film);
    assert_eq!(target_delay_ms(&latency), 400);
    assert_eq!(MirrorConfig::default(&latency).target_delay_ms, 400);
    assert_eq!(MirrorConfig::default(&Latency::new()).target_delay_ms, 150);
}
