use bignetscreen::address::Address;
use bignetscreen::file_server::{
    admits, file_response, not_found, parse_range, parse_target, read_file_request, url,
    FileRequest, MediaFile, Transfer,
};
use bignetscreen::http::{
    random_token, read_request, response_headers, triage, AfterHandOver, RequestProgress,
    StreamServer, Verdict, CONTENT_TYPE,
};
use bignetscreen::media::MediaKind;

const CAST: Address = Address::V4(0xC0A8_0032);
const INTRUDER: Address = Address::V4(0xC0A8_0063);

fn get(path: &str) -> String {
    format!("GET {path} HTTP/1.1\r\nHost: x\r\n\r\n")
}

#[test]
fn token_is_128_bits_of_hex() {
    let token = random_token(&[0x0F; 16]);
    assert_eq!(token.len(), 32);
    assert!(token.chars().all(|c| c.is_ascii_hexdigit()));
    assert_eq!(token, "0f".repeat(16));
    // Two tokens in a row must not coincide.
    assert_ne!(token, random_token(&[0x10; 16]));
}

#[test]
fn serves_the_receiver_on_the_right_path() {
    assert_eq!(
        triage(&get("/segredo"), "/segredo", CAST, CAST),
        Verdict::Stream
    );
}

#[test]
fn wrong_path_is_404_not_403() {
    // Answering 403 would confirm the server's existence to a portscan.
    assert_eq!(
        triage(&get("/chute"), "/segredo", CAST, CAST),
        Verdict::NotFound
    );
    // Including for those already on the allowlist.
    assert_eq!(triage(&get("/"), "/segredo", CAST, CAST), Verdict::NotFound);
}

#[test]
fn right_path_from_another_host_is_rejected() {
    // Defence in depth: even with the token leaked, only the session's receiver is
    // served.
    assert_eq!(
        triage(&get("/segredo"), "/segredo", CAST, INTRUDER),
        Verdict::Forbidden
    );
}

#[test]
fn query_string_is_not_part_of_the_secret() {
    assert_eq!(
        triage(&get("/segredo?x=1"), "/segredo", CAST, CAST),
        Verdict::Stream
    );
}

#[test]
fn head_probe_is_answered_without_a_body() {
    let request = "HEAD /segredo HTTP/1.1\r\nHost: x\r\n\r\n";
    assert_eq!(triage(request, "/segredo", CAST, CAST), Verdict::HeadOnly);
}

#[test]
fn other_methods_are_refused() {
    let request = "POST /segredo HTTP/1.1\r\nHost: x\r\n\r\n";
    assert_eq!(
        triage(request, "/segredo", CAST, CAST),
        Verdict::MethodNotAllowed
    );
}

#[test]
fn malformed_requests_do_not_panic() {
    for raw in ["", "\r\n", "LIXO", "GET", "GET  \r\n"] {
        let verdict = triage(raw, "/segredo", CAST, CAST);
        assert_ne!(verdict, Verdict::Stream, "accepted {raw:?}");
    }
    assert_eq!(triage("", "/segredo", CAST, CAST), Verdict::BadRequest);
}

#[test]
fn stream_response_has_no_length_so_it_can_run_forever() {
    let headers = response_headers(Verdict::Stream);
    assert!(headers.contains("200 OK"), "{headers}");
    assert!(headers.contains(CONTENT_TYPE), "{headers}");
    assert!(!headers.contains("Content-Length"), "{headers}");
    assert!(!headers.contains("Transfer-Encoding"), "{headers}");
    assert!(headers.contains("Connection: close"), "{headers}");
    assert!(headers.ends_with("\r\n\r\n"), "{headers}");
}

#[test]
fn error_responses_close_cleanly() {
    for verdict in [
        Verdict::NotFound,
        Verdict::Forbidden,
        Verdict::MethodNotAllowed,
        Verdict::BadRequest,
    ] {
        let headers = response_headers(verdict);
        assert!(headers.contains("Content-Length: 0"), "{headers}");
    }
}

#[test]
fn url_carries_host_port_and_token() {
    let token = random_token(&[7; 16]);
    let server = StreamServer::bind(&token, CAST);
    let url = server.url("127.0.0.1", false, 4711);
    assert!(url.starts_with("http://"), "{url}");
    assert!(url.contains("4711"), "{url}");
    // 32 hex characters after the last slash.
    let token = url.rsplit('/').next().unwrap();
    assert_eq!(token.len(), 32, "{url}");
    assert!(server.url("fe80::1", true, 80).starts_with("http://[fe80::1]:80/"));
}

#[test]
fn refuses_a_request_on_the_wrong_path() {
    let server = StreamServer::bind(&random_token(&[7; 16]), CAST);
    let request = "GET /nada HTTP/1.1\r\nHost: x\r\n\r\n";
    let verdict = server.serve(Some(request), CAST);
    let response = response_headers(verdict);
    assert!(response.starts_with("HTTP/1.1 404"), "{response}");
    assert_eq!(server.serve(None, CAST), Verdict::BadRequest);
}

#[test]
fn a_wrong_token_gets_nothing() {
    let server = StreamServer::bind(&random_token(&[7; 16]), CAST);
    assert_eq!(server.serve(Some(&get("/token-errado")), CAST), Verdict::NotFound);
    assert_eq!(server.serve(Some(&get(&server.path)), CAST), Verdict::Stream);
}

#[test]
fn the_pipeline_plays_once_a_client_is_there() {
    let mut server = StreamServer::bind("t", CAST);
    assert_eq!(server.handed_over(), AfterHandOver::StartPlaying);
    assert_eq!(server.handed_over(), AfterHandOver::Continue);
    // Serving anew, the next client is the first again.
    server.begin_serving();
    assert_eq!(server.path, "/t");
    assert_eq!(server.handed_over(), AfterHandOver::StartPlaying);
    assert_eq!(server.handed_over(), AfterHandOver::Continue);
}

#[test]
fn a_request_is_read_up_to_its_blank_line() {
    assert_eq!(read_request(b"GET / HTTP/1.1\r\n"), RequestProgress::Incomplete);
    assert_eq!(read_request(b"GET / HTTP/1.1\r\n\r\n"), RequestProgress::Complete);
    assert_eq!(read_request(&vec![b'a'; 8192]), RequestProgress::Incomplete);
    assert_eq!(read_request(&vec![b'a'; 8193]), RequestProgress::TooLarge);
    assert_eq!(read_request(b""), RequestProgress::Incomplete);
}

#[test]
fn only_the_right_token_gets_a_file() {
    assert_eq!(parse_target("/abc123/2", "abc123"), Some(2));
    assert_eq!(parse_target("/wrong/2", "abc123"), None);
    assert_eq!(parse_target("/abc123", "abc123"), None);
    assert_eq!(parse_target("/", "abc123"), None);
}

#[test]
fn a_path_cannot_be_asked_for_only_an_index() {
    // The point of indexing: there is no filename to escape from. Each of these is
    // simply not a number, so it addresses nothing.
    for attack in [
        "/abc123/../../etc/passwd",
        "/abc123/%2e%2e%2fetc%2fpasswd",
        "/abc123//etc/passwd",
        "/abc123/~/.ssh/id_rsa",
    ] {
        assert_eq!(
            parse_target(attack, "abc123"),
            None,
            "{attack} must not address anything"
        );
    }
}

#[test]
fn a_query_string_does_not_confuse_the_index() {
    // Receivers append cache-busting parameters.
    assert_eq!(parse_target("/abc123/0?t=1699", "abc123"), Some(0));
}

#[test]
fn seeking_asks_for_the_rest_of_the_file() {
    assert_eq!(parse_range("bytes=0-99", 1000), Some((0, 99)));
    assert_eq!(parse_range("bytes=500-", 1000), Some((500, 999)));
    // Beyond the end, backwards, or against an unknown size: no range, which makes
    // the server answer 200 with the whole file rather than a nonsensical 206.
    assert_eq!(parse_range("bytes=2000-3000", 1000), None);
    assert_eq!(parse_range("bytes=900-100", 1000), None);
    assert_eq!(parse_range("bytes=0-10", 0), None);
    assert_eq!(parse_range("items=0-10", 1000), None);
    // Clamped to the file rather than refused: a receiver asking for more than
    // there is should get what there is.
    assert_eq!(parse_range("bytes=0-9999", 1000), Some((0, 999)));
}

#[test]
fn a_file_is_classified_by_what_the_receiver_can_play() {
    assert_eq!(
        MediaFile::inspect("/tmp/holiday.JPG", 0).unwrap().kind,
        MediaKind::Photo,
        "the extension's case must not matter"
    );
    assert_eq!(
        MediaFile::inspect("/tmp/film.mp4", 0).unwrap().kind,
        MediaKind::Video
    );
    assert_eq!(
        MediaFile::inspect("/tmp/song.flac", 0).unwrap().kind,
        MediaKind::Music
    );
    // Refused here so the interface can say why, instead of the receiver going
    // black with no explanation.
    assert!(MediaFile::inspect("/tmp/film.mkv", 0).is_err());
    assert!(MediaFile::inspect("/tmp/notes", 0).is_err());
    assert_eq!(
        MediaFile::inspect("/tmp/film.mkv", 0).unwrap_err(),
        ".mkv is not a format this receiver plays"
    );
    assert_eq!(
        MediaFile::inspect("/tmp/.mp4", 0).unwrap_err(),
        "a file with no extension"
    );
}

#[test]
fn the_title_is_the_name_without_the_extension() {
    let file = MediaFile::inspect("/tmp/Sunset at the lake.jpg", 0).unwrap();
    assert_eq!(file.title(), "Sunset at the lake");
    assert_eq!(MediaFile::inspect("/tmp/a.b.mp4/", 0).unwrap().title(), "a.b");
    let mut file = file;
    file.path = "/tmp/..".to_string();
    assert_eq!(file.title(), "File");
}

fn files() -> Vec<MediaFile> {
    vec![
        MediaFile::inspect("/tmp/a.mp4", 1000).unwrap(),
        MediaFile::inspect("/tmp/b.mp3", 50).unwrap(),
    ]
}

#[test]
fn a_request_addresses_a_file_and_a_range() {
    let request = "GET /tok/0 HTTP/1.1\r\nHost: x\r\nrAnGe:  bytes=500- \r\n\r\n";
    assert_eq!(
        read_file_request(request, &files(), "tok"),
        FileRequest::File { index: 0, range: Some((500, 999)), head_only: false }
    );
    assert_eq!(
        read_file_request("head /tok/1 HTTP/1.1\r\n\r\n", &files(), "tok"),
        FileRequest::File { index: 1, range: None, head_only: true }
    );
    // A wrong token and an index past the list are answered alike.
    for target in ["/tok/2", "/other/0", "/tok", ""] {
        let request = format!("GET {target} HTTP/1.1\r\n\r\n");
        assert_eq!(read_file_request(&request, &files(), "tok"), FileRequest::NotFound);
    }
    assert_eq!(read_file_request("", &files(), "tok"), FileRequest::NotFound);
    assert_eq!(not_found(), "HTTP/1.1 404 Not Found\r\nContent-Length: 0\r\n\r\n");
    assert_eq!(url("h:1", "tok", 3), "http://h:1/tok/3");
}

#[test]
fn a_response_announces_what_it_sends() {
    let partial = file_response(Some((500, 999)), 1000, "video/mp4");
    assert_eq!((partial.start, partial.length), (500, 500));
    assert_eq!(
        partial.headers,
        "HTTP/1.1 206 Partial Content\r\nContent-Type: video/mp4\r\nContent-Length: 500\r\n\
         Content-Range: bytes 500-999/1000\r\nAccept-Ranges: bytes\r\nConnection: close\r\n\r\n"
    );
    let whole = file_response(None, 1000, "video/mp4");
    assert_eq!((whole.start, whole.length), (0, 1000));
    assert!(whole.headers.starts_with("HTTP/1.1 200 OK\r\n"));
    assert!(whole.headers.contains("Content-Length: 1000\r\n"));
}

#[test]
fn a_transfer_is_sent_in_chunks() {
    let mut transfer = Transfer::new(70_000);
    assert_eq!(transfer.want(), 65_536);
    transfer.sent(65_536);
    assert_eq!(transfer.want(), 4_464);
    transfer.sent(0);
    assert_eq!(transfer.want(), 0);
    assert!(admits(CAST, CAST));
    assert!(!admits(CAST, INTRUDER));
}

#[test]
fn the_longest_range_is_answered() {
    let response = file_response(Some((1, u64::MAX)), u64::MAX, "video/mp4");
    assert_eq!((response.start, response.length), (1, u64::MAX));
    assert!(response
        .headers
        .contains("Content-Range: bytes 1-18446744073709551615/18446744073709551615\r\n"));
}
