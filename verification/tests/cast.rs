use bignetscreen::cast::{
    address_message, frame_message, launch, launch_request,
    load_file, load_media, load_outcome, message_length, no_reply_error, read_payload,
    request_text, send_json, status, stop_app, LaunchedApp, NoReply, Requests, Route, MAX_MESSAGE_BYTES, NS_HEARTBEAT, NS_MEDIA, NS_RECEIVER,
};
use bignetscreen::certificate::{
    verdict_on, verify_server_cert, CertificateError, ChainCheck,
};
use bignetscreen::error::NdError;
use bignetscreen::file_server::MediaFile;
use serde_json::Value;

fn json(text: &str) -> Value {
    serde_json::from_str(text).unwrap()
}

fn app() -> LaunchedApp {
    LaunchedApp { transport_id: "t".into(), session_id: "s".into() }
}

#[test]
fn oversized_length_prefix_is_rejected_before_allocating() {
    // Allocating what a length coming off the network asks for allowed up to 4 GiB
    // from a 4-byte header.
    assert!(MAX_MESSAGE_BYTES < 1024 * 1024);
    let claimed = u32::MAX as usize;
    assert!(claimed > MAX_MESSAGE_BYTES);
    assert_eq!(
        message_length(&u32::MAX.to_be_bytes()).unwrap_err().message(),
        "protocol: mensagem Cast de 4294967295 bytes excede o limite de 65536"
    );
}

#[test]
fn request_ids_are_unique_and_increasing() {
    let mut requests = Requests::new();
    let a = requests.next_request_id();
    let b = requests.next_request_id();
    assert!(b > a);
    assert_eq!((a, b), (1, 2));
}

#[test]
fn a_framed_message_is_read_back() {
    let framed = frame_message(b"hello").unwrap();
    assert_eq!(framed, b"\0\0\0\x05hello".to_vec());
    let prefix: [u8; 4] = framed[..4].try_into().unwrap();
    assert_eq!(message_length(&prefix).unwrap(), 5);
    assert_eq!(frame_message(&vec![0; 65_536]).unwrap().len(), 65_540);
    assert_eq!(
        frame_message(&vec![0; 65_537]).unwrap_err().message(),
        "protocol: Cast message too large"
    );
}

#[test]
fn a_reply_reaches_whoever_asked_once() {
    let mut requests = Requests::new();
    let id = requests.register();
    let reply = json(&format!("{{\"requestId\": {id}}}"));
    assert_eq!(requests.route(NS_RECEIVER, &reply), Route::Reply(id));
    assert_eq!(requests.route(NS_RECEIVER, &reply), Route::Event);
    assert_eq!(requests.route(NS_MEDIA, &json("{}")), Route::Event);
    let id = requests.register();
    assert!(requests.forget(id));
    assert!(!requests.forget(id));
    let id = requests.register();
    requests.clear();
    let reply = json(&format!("{{\"requestId\": {id}}}"));
    assert_eq!(requests.route(NS_RECEIVER, &reply), Route::Event);
}

#[test]
fn a_ping_is_answered_whatever_is_awaited() {
    let mut requests = Requests::new();
    requests.register();
    let ping = json(r#"{"type": "PING", "requestId": 1}"#);
    assert_eq!(requests.route(NS_HEARTBEAT, &ping), Route::Pong);
    assert_eq!(
        requests.route(NS_HEARTBEAT, &json(r#"{"type": "PONG"}"#)),
        Route::Ignore
    );
    // The low 32 bits of an id decide.
    let wrapped = json(&format!("{{\"requestId\": {}}}", (1i64 << 32) + 1));
    assert_eq!(requests.route(NS_RECEIVER, &wrapped), Route::Reply(1));
}

#[test]
fn payloads_carry_what_the_receiver_reads() {
    assert_eq!(status(), json(r#"{"type": "GET_STATUS"}"#));
    assert_eq!(
        launch_request("CC1AD845"),
        json(r#"{"type": "LAUNCH", "appId": "CC1AD845"}"#)
    );
    assert_eq!(stop_app(&app()), json(r#"{"type": "STOP", "sessionId": "s"}"#));
    assert_eq!(
        load_media(&app(), "http://h/x", "video/x-matroska"),
        json(
            r#"{"type": "LOAD", "sessionId": "s", "autoplay": true, "currentTime": 0,
                "media": {"contentId": "http://h/x", "contentType": "video/x-matroska",
                          "streamType": "LIVE"}}"#
        )
    );
    let file = MediaFile::inspect("/tmp/Sunset.jpg", 10).unwrap();
    let load = load_file(&app(), "http://h/0", &file, "Studio");
    assert_eq!(load["media"]["streamType"], "BUFFERED");
    assert_eq!(load["media"]["contentType"], "image/jpeg");
    assert_eq!(load["media"]["metadata"]["title"], "Sunset");
    assert_eq!(load["media"]["metadata"]["subtitle"], "Studio");
    assert_eq!(
        request_text(status(), 12),
        r#"{"requestId":12,"type":"GET_STATUS"}"#
    );
    assert_eq!(send_json(&json("[1, true, null]")), "[1,true,null]");
    let message = address_message(NS_MEDIA, "receiver-0", "{}");
    assert_eq!(message.source_id, "sender-0");
    assert_eq!(message.payload_utf8.as_deref(), Some("{}"));
}

#[test]
fn a_launch_gives_the_app_or_says_why_not() {
    let reply = json(
        r#"{"status": {"applications": [{"appId": "X"},
            {"appId": "CC1AD845", "transportId": "web-1", "sessionId": "abc"}]}}"#,
    );
    let app = launch(&reply, "CC1AD845").unwrap();
    assert_eq!((app.transport_id.as_str(), app.session_id.as_str()), ("web-1", "abc"));
    assert_eq!(
        launch(&reply, "X").unwrap_err().message(),
        "protocol: reply without a transportId"
    );
    assert_eq!(
        launch(&reply, "Y").unwrap_err().message(),
        "unsupported: app Y did not appear in the receiver's status"
    );
    let refused = json(r#"{"type": "LAUNCH_ERROR", "reason": "NOT_FOUND"}"#);
    assert_eq!(
        launch(&refused, "Y").unwrap_err().message(),
        "unsupported: the receiver refused to start app Y: NOT_FOUND"
    );
    let refused = json(r#"{"type": "LAUNCH_ERROR"}"#);
    assert!(launch(&refused, "Y").unwrap_err().message().ends_with("no reason given"));
}

#[test]
fn a_refused_file_is_an_error() {
    assert!(load_outcome(&json(r#"{"type": "MEDIA_STATUS"}"#)).is_ok());
    assert_eq!(
        load_outcome(&json(r#"{"type": "LOAD_FAILED", "detailedErrorCode": 104}"#))
            .unwrap_err()
            .message(),
        "unsupported: the receiver could not play this file (error 104)"
    );
    let error = load_outcome(&json(r#"{"type": "LOAD_FAILED"}"#)).unwrap_err();
    assert!(matches!(error, NdError::Unsupported(_)));
    assert!(error.message().contains("no reason given"));
}

#[test]
fn a_request_without_a_reply_says_why() {
    assert_eq!(
        no_reply_error(NoReply::TimedOut(45)).message(),
        "protocol: the receiver did not reply within 45s"
    );
    assert_eq!(
        no_reply_error(NoReply::Closed).message(),
        "protocol: the Cast channel closed before the reply"
    );
}

#[test]
fn a_payload_that_is_no_json_is_null() {
    assert_eq!(read_payload(None), Value::Null);
    assert_eq!(read_payload(Some("{")), Value::Null);
    assert_eq!(read_payload(Some("{\"a\": 1}")), json("{\"a\": 1}"));
}

fn bytes(hex: &str) -> Vec<u8> {
    (0..hex.len() / 2)
        .map(|i| u8::from_str_radix(&hex[2 * i..2 * i + 2], 16).unwrap())
        .collect()
}

/// A root that is valid until 2040.
const ROOT: &str = "\
     3082011f3081c6a003020102020101300a06082a8648ce3d040302300f310d300b06035504030c04526f6f74\
     301e170d3130303130313030303030305a170d3430303130313030303030305a300f310d300b06035504030c\
     04526f6f743059301306072a8648ce3d020106082a8648ce3d0301070342000410b49d391861cee0c9743d06\
     b83f27bbad1bac834af0cedf57d54363b1ab11eb0b8cd1bebce9475da1d9c00978b729e04ce828d9fefcd3bb\
     fe477b7ff967dd11a3133011300f0603551d130101ff040530030101ff300a06082a8648ce3d040302034800\
     304502205b1cf09e52e8944e0088c8c780b52bfca6adc29c3745ea363d9bafce051b8639022100dcbcf5f43c\
     002637bbc8633049126669ca713628c07ec434c957c959fd029059\
     ";

/// A receiver's certificate, issued by the root, valid in 2020 and 2021.
const RECEIVER: &str = "\
     308201313081d8a003020102020102300a06082a8648ce3d040302300f310d300b06035504030c04526f6f74\
     301e170d3230303130313030303030305a170d3232303130313030303030305a300f310d300b06035504030c\
     04436173743059301306072a8648ce3d020106082a8648ce3d03010703420004073b812614d67176d4cde12d\
     b3f7d4a7052991411997d57b008dee920772278a9b33509ab00fb3f156916ba3568341cf0612eb94e588d98e\
     be92136ff084ee9ba3253023300c0603551d130101ff0402300030130603551d25040c300a06082b06010505\
     070301300a06082a8648ce3d0403020348003045022016d5bf615ad4d9a0372e83d109bea4619d8271b5b3d0\
     6617c6432828887e946902210093c87451e39e4c81d1955262347a05bb4ca0f590c34cacd6f9bf934841d3e8\
     b5\
     ";

const IN_2019: u64 = 1_546_300_800;
const IN_2021: u64 = 1_609_459_200;
const IN_2023: u64 = 1_672_531_200;

#[test]
fn expired_certificate_is_rejected() {
    // Invalid DER has to be rejected too (never blindly accepted).
    assert_eq!(
        verify_server_cert(&[0x30, 0x00], &[], IN_2021),
        Err(CertificateError::BadEncoding)
    );

    let receiver = bytes(RECEIVER);
    let presented = [bytes(ROOT)];
    assert_eq!(verify_server_cert(&receiver, &presented, IN_2021), Ok(()));
    assert_eq!(
        verify_server_cert(&receiver, &presented, IN_2023),
        Err(CertificateError::Expired)
    );
    assert_eq!(
        verify_server_cert(&receiver, &presented, IN_2019),
        Err(CertificateError::Expired)
    );
}

#[test]
fn the_root_of_the_chain_becomes_the_anchor() {
    // With an anchor that cannot be read, or that did not sign the certificate,
    // nothing is accepted.
    let receiver = bytes(RECEIVER);
    assert_eq!(
        verify_server_cert(&receiver, &[bytes(ROOT), vec![1, 2, 3]], IN_2021),
        Err(CertificateError::BadEncoding)
    );
    assert_eq!(
        verify_server_cert(&receiver, &[bytes(ROOT), bytes(RECEIVER)], IN_2021),
        Err(CertificateError::BadSignature)
    );
    let mut forged = bytes(RECEIVER);
    let last = forged.len() - 1;
    forged[last] ^= 1;
    assert_eq!(
        verify_server_cert(&forged, &[bytes(ROOT)], IN_2021),
        Err(CertificateError::BadSignature)
    );
}

#[test]
fn every_finding_has_its_verdict() {
    assert_eq!(verdict_on(ChainCheck::Valid), Ok(()));
    assert_eq!(verdict_on(ChainCheck::PastValidity), Err(CertificateError::Expired));
    assert_eq!(verdict_on(ChainCheck::BeforeValidity), Err(CertificateError::Expired));
    assert_eq!(verdict_on(ChainCheck::Rejected), Err(CertificateError::BadSignature));
}
