//! The HTTP server that delivers the stream to a Chromecast.
//!
//! The stream is the user's screen. Two barriers stand before it: a random
//! 128-bit token in the path, and an allowlist for the receiver's IP. A wrong
//! path gives `404` (not `403`), so as not to even confirm that the server
//! exists.
use crate::address::Address;
use crate::text::{chars_of, copied, is_text, next_line, next_word, number_text, same, to_hex, up_to};
use vstd::prelude::*;

verus! {

use crate::text::{
    a_text_begins_with_its_first_word, before, decimal, first_index_unique, first_line, first_word,
    has_part, hex_is_hex, hex_text, is_hex_digit, is_space, is_word, part_stands_at,
    starts_with_part,
};

/// MIME type of the container served (H.264 + AAC in Matroska).
pub const CONTENT_TYPE: &'static str = "video/x-matroska";

/// Cap on a request's header size.
pub const MAX_REQUEST_BYTES: usize = 8192;

/// How long the client gets to finish sending the request, in seconds.
pub const REQUEST_TIMEOUT_SECS: u64 = 10;

/// A 128-bit token in hexadecimal, from bytes drawn at random.
pub fn random_token(bytes: &[u8; 16]) -> (res: String)
    ensures
        res@ == hex_text(bytes@, false),
{
    to_hex(bytes.as_slice(), false)
}

/// A token is 128 bits of hexadecimal, whatever was drawn.
pub proof fn a_token_is_128_bits_of_hex(bytes: Seq<u8>)
    requires
        bytes.len() == 16,
    ensures
        hex_text(bytes, false).len() == 32,
        forall|i: int| 0 <= i < 32 ==> is_hex_digit(#[trigger] hex_text(bytes, false)[i]),
{
    hex_is_hex(bytes, false);
}

/// The outcome of triaging a request.
#[derive(Clone, Copy, Debug, PartialEq, Eq, Structural)]
pub enum Verdict {
    /// Serve the stream.
    Stream,
    /// Headers only (the receiver sometimes probes with `HEAD`).
    HeadOnly,
    /// Unknown path: `404`, without revealing that a server is here.
    NotFound,
    /// Correct token, but from another origin: `403`.
    Forbidden,
    /// Unsupported method.
    MethodNotAllowed,
    /// Malformed or oversized request.
    BadRequest,
}

/// The status of a response.
pub open spec fn status_of(verdict: Verdict) -> Seq<char> {
    match verdict {
        Verdict::Stream => "200 OK"@,
        Verdict::HeadOnly => "200 OK"@,
        Verdict::NotFound => "404 Not Found"@,
        Verdict::Forbidden => "403 Forbidden"@,
        Verdict::MethodNotAllowed => "405 Method Not Allowed"@,
        Verdict::BadRequest => "400 Bad Request"@,
    }
}

impl Verdict {
    /// The status of the response.
    pub fn status_line(self) -> (res: &'static str)
        ensures
            res@ == status_of(self),
    {
        match self {
            Verdict::Stream | Verdict::HeadOnly => "200 OK",
            Verdict::NotFound => "404 Not Found",
            Verdict::Forbidden => "403 Forbidden",
            Verdict::MethodNotAllowed => "405 Method Not Allowed",
            Verdict::BadRequest => "400 Bad Request",
        }
    }
}

/// The method and the path of a request, where its first line has both. The
/// query string is not part of the path.
pub open spec fn asked_for(request: Seq<char>) -> Option<(Seq<char>, Seq<char>)> {
    if request.len() == 0 {
        None
    } else {
        match first_word(first_line(request).0) {
            Some((method, rest)) => match first_word(rest) {
                Some((path, _)) => Some((method, before(path, '?'))),
                None => None,
            },
            None => None,
        }
    }
}

/// The verdict on a request.
pub open spec fn verdict_on(
    request: Seq<char>,
    expected_path: Seq<char>,
    allowed: Address,
    from: Address,
) -> Verdict {
    match asked_for(request) {
        None => Verdict::BadRequest,
        Some((method, path)) => if path != expected_path {
            Verdict::NotFound
        } else if from != allowed {
            Verdict::Forbidden
        } else if method == "GET"@ {
            Verdict::Stream
        } else if method == "HEAD"@ {
            Verdict::HeadOnly
        } else {
            Verdict::MethodNotAllowed
        },
    }
}

/// Decides what to do with an already-read request.
pub fn triage(request: &str, expected_path: &str, allowed: Address, from: Address) -> (res: Verdict)
    ensures
        res == verdict_on(request@, expected_path@, allowed, from),
{
    let chars = chars_of(request);
    let expected = chars_of(expected_path);
    let line = match next_line(chars.as_slice()) {
        Some((line, _)) => line,
        None => {
            return Verdict::BadRequest;
        },
    };
    let (method, rest) = match next_word(line) {
        Some(parts) => parts,
        None => {
            return Verdict::BadRequest;
        },
    };
    let target = match next_word(rest) {
        Some((target, _)) => target,
        None => {
            return Verdict::BadRequest;
        },
    };
    // The path is checked BEFORE the origin: answering 403 to an invalid path
    // would confirm the server's existence to a mere portscan.
    if !same(up_to(target, '?'), expected.as_slice()) {
        return Verdict::NotFound;
    }
    if from != allowed {
        return Verdict::Forbidden;
    }
    if is_text(method, "GET") {
        Verdict::Stream
    } else if is_text(method, "HEAD") {
        Verdict::HeadOnly
    } else {
        Verdict::MethodNotAllowed
    }
}

/// A wrong path is a `404` whoever asks and however, and never reveals whether
/// they would have been let in.
pub proof fn a_wrong_path_is_not_found(
    request: Seq<char>,
    expected_path: Seq<char>,
    allowed: Address,
    from: Address,
)
    requires
        asked_for(request) matches Some((method, path)) && path != expected_path,
    ensures
        verdict_on(request, expected_path, allowed, from) == Verdict::NotFound,
{
}

/// The stream is served only to the receiver, on the secret path.
pub proof fn only_the_receiver_is_served(
    request: Seq<char>,
    expected_path: Seq<char>,
    allowed: Address,
    from: Address,
)
    requires
        ({
            let verdict = verdict_on(request, expected_path, allowed, from);
            verdict == Verdict::Stream || verdict == Verdict::HeadOnly
        }),
    ensures
        from == allowed,
        asked_for(request) matches Some((method, path)) && path == expected_path,
{
}

/// The header block of a response. The stream's has no length: its body ends
/// when the connection closes.
pub open spec fn headers_text(verdict: Verdict) -> Seq<char> {
    if verdict == Verdict::Stream || verdict == Verdict::HeadOnly {
        "HTTP/1.1 "@ + status_of(verdict)
            + "\r\nContent-Type: video/x-matroska\r\nCache-Control: no-cache, no-store, must-revalidate\r\nPragma: no-cache\r\nConnection: close\r\nServer: BigNetScreen\r\n\r\n"@
    } else {
        "HTTP/1.1 "@ + status_of(verdict)
            + "\r\nContent-Length: 0\r\nConnection: close\r\nServer: BigNetScreen\r\n\r\n"@
    }
}

/// Builds the response's header block.
pub fn response_headers(verdict: Verdict) -> (res: String)
    ensures
        res@ == headers_text(verdict),
{
    let start = copied("HTTP/1.1 ").concat(verdict.status_line());
    match verdict {
        Verdict::Stream | Verdict::HeadOnly => start.concat(
            "\r\nContent-Type: video/x-matroska\r\nCache-Control: no-cache, no-store, must-revalidate\r\nPragma: no-cache\r\nConnection: close\r\nServer: BigNetScreen\r\n\r\n",
        ),
        _ => start.concat(
            "\r\nContent-Length: 0\r\nConnection: close\r\nServer: BigNetScreen\r\n\r\n",
        ),
    }
}

/// How reading a request stands.
#[derive(Clone, Copy, Debug, PartialEq, Eq, Structural)]
pub enum RequestProgress {
    /// The blank line has arrived.
    Complete,
    /// More has arrived than any request needs.
    TooLarge,
    /// Read on.
    Incomplete,
}

/// Whether a blank line ends the headers somewhere in `bytes`.
pub open spec fn holds_blank_line(bytes: Seq<u8>) -> bool {
    exists|i: int| ends_headers(bytes, i)
}

/// Whether a blank line begins at `i`.
pub open spec fn ends_headers(bytes: Seq<u8>, i: int) -> bool {
    &&& 0 <= i
    &&& i + 4 <= bytes.len()
    &&& bytes[i] == 13
    &&& bytes[i + 1] == 10
    &&& bytes[i + 2] == 13
    &&& bytes[i + 3] == 10
}

/// How reading stands after `bytes`.
pub open spec fn progress_of(bytes: Seq<u8>) -> RequestProgress {
    if holds_blank_line(bytes) {
        RequestProgress::Complete
    } else if bytes.len() > MAX_REQUEST_BYTES {
        RequestProgress::TooLarge
    } else {
        RequestProgress::Incomplete
    }
}

/// Says whether a request has been read up to its blank line, with a cap: the
/// header comes off the network and must not grow unbounded.
pub fn read_request(buffer: &[u8]) -> (res: RequestProgress)
    ensures
        res == progress_of(buffer@),
{
    let mut i: usize = 0;
    while buffer.len() >= 4 && i <= buffer.len() - 4
        invariant
            buffer@.len() == buffer.len(),
            forall|j: int| 0 <= j < i ==> !ends_headers(buffer@, j),
            i <= buffer.len(),
        decreases buffer.len() - i,
    {
        if buffer[i] == 13 && buffer[i + 1] == 10 && buffer[i + 2] == 13 && buffer[i + 3] == 10 {
            assert(ends_headers(buffer@, i as int));
            return RequestProgress::Complete;
        }
        i += 1;
    }
    assert(!holds_blank_line(buffer@)) by {
        if holds_blank_line(buffer@) {
            let j = choose|j: int| ends_headers(buffer@, j);
            assert(j < i);
        }
    }
    if buffer.len() > MAX_REQUEST_BYTES {
        RequestProgress::TooLarge
    } else {
        RequestProgress::Incomplete
    }
}

/// The stream server for one cast session: what it serves, and to whom.
#[derive(Debug)]
pub struct StreamServer {
    /// The secret path, leading slash included.
    pub path: String,
    /// The only IP allowed to fetch the stream.
    pub allowed: Address,
    /// Whether any client has been handed to the pipeline since serving began.
    pub served_any: bool,
}

/// What the pipeline does once a client's socket has been handed to it.
#[derive(Clone, Copy, Debug, PartialEq, Eq, Structural)]
pub enum AfterHandOver {
    /// It was the first: start playing. Before that there is nowhere to write.
    StartPlaying,
    /// Nothing more.
    Continue,
}

/// The URL of a path on a host. An IPv6 host stands in brackets.
pub open spec fn url_text(host: Seq<char>, is_v6: bool, port: u16, path: Seq<char>) -> Seq<char> {
    "http://"@ + (if is_v6 {
        "["@ + host + "]"@
    } else {
        host
    }) + ":"@ + decimal(port as nat) + path
}

/// What follows handing a client over, by whether one was before.
pub open spec fn after_hand_over(served_any: bool) -> AfterHandOver {
    if served_any {
        AfterHandOver::Continue
    } else {
        AfterHandOver::StartPlaying
    }
}

impl StreamServer {
    /// A server on a secret path for one receiver.
    pub fn bind(token: &str, receiver: Address) -> (res: Self)
        ensures
            res.path@ == "/"@ + token@,
            res.allowed == receiver,
            !res.served_any,
    {
        StreamServer { path: copied("/").concat(token), allowed: receiver, served_any: false }
    }

    /// The URL to hand the receiver. An IPv6 host stands in brackets.
    pub fn url(&self, host: &str, is_v6: bool, port: u16) -> (res: String)
        ensures
            res@ == url_text(host@, is_v6, port, self.path@),
    {
        let host = if is_v6 {
            copied("[").concat(host).concat("]")
        } else {
            copied(host)
        };
        let port = number_text(port as u64);
        copied("http://").concat(host.as_str()).concat(":").concat(port.as_str()).concat(
            self.path.as_str(),
        )
    }

    /// Begins to serve: the next client handed to the pipeline is the first.
    pub fn begin_serving(&mut self)
        ensures
            !final(self).served_any,
            final(self).path == old(self).path,
            final(self).allowed == old(self).allowed,
    {
        self.served_any = false;
    }

    /// The verdict on a connection: on its request, where one could be read.
    pub fn serve(&self, request: Option<&str>, from: Address) -> (res: Verdict)
        ensures
            res == (match request {
                Some(text) => verdict_on(text@, self.path@, self.allowed, from),
                None => Verdict::BadRequest,
            }),
    {
        match request {
            Some(text) => triage(text, self.path.as_str(), self.allowed, from),
            None => Verdict::BadRequest,
        }
    }

    /// Records that a client's socket went to the pipeline.
    pub fn handed_over(&mut self) -> (res: AfterHandOver)
        ensures
            res == after_hand_over(old(self).served_any),
            final(self).served_any,
            final(self).path == old(self).path,
            final(self).allowed == old(self).allowed,
    {
        if self.served_any {
            AfterHandOver::Continue
        } else {
            self.served_any = true;
            AfterHandOver::StartPlaying
        }
    }
}

/// A request is read as it is written: the method and the path are the first two
/// words of its first line, whatever follows them, and a query is not part of the
/// path.
pub proof fn a_request_is_read_as_written(
    method: Seq<char>,
    path: Seq<char>,
    query: Seq<char>,
    rest: Seq<char>,
)
    requires
        is_word(method),
        is_word(path),
        forall|i: int| 0 <= i < path.len() ==> path[i] != '?',
        forall|i: int| 0 <= i < query.len() ==> !is_space(#[trigger] query[i]),
    ensures
        asked_for(method + " "@ + path + " HTTP/1.1\r\n"@ + rest) == Some((method, path)),
        asked_for(method + " "@ + path + "?"@ + query + " HTTP/1.1\r\n"@ + rest) == Some(
            (method, path),
        ),
{
    reveal_strlit("?");
    first_index_unique(path, '?', path.len() as int);
    assert(path.take(path.len() as int) =~= path);
    asked_with(method, path, path, rest);
    let target = path + "?"@ + query;
    assert forall|i: int| 0 <= i < target.len() implies !is_space(#[trigger] target[i]) by {
        if i < path.len() {
            assert(target[i] == path[i]);
        } else if i > path.len() {
            assert(target[i] == query[i - path.len() - 1]);
        }
    }
    assert(target[path.len() as int] == '?');
    first_index_unique(target, '?', path.len() as int);
    assert(target.take(path.len() as int) =~= path);
    asked_with(method, target, path, rest);
    assert(method + " "@ + path + "?"@ + query + " HTTP/1.1\r\n"@ + rest =~= method + " "@ + target
        + " HTTP/1.1\r\n"@ + rest);
}

proof fn asked_with(method: Seq<char>, target: Seq<char>, path: Seq<char>, rest: Seq<char>)
    requires
        is_word(method),
        is_word(target),
        path == before(target, '?'),
    ensures
        asked_for(method + " "@ + target + " HTTP/1.1\r\n"@ + rest) == Some((method, path)),
{
    reveal_strlit(" ");
    reveal_strlit(" HTTP/1.1\r\n");
    let request = method + " "@ + target + " HTTP/1.1\r\n"@ + rest;
    let line = method + " "@ + target + " HTTP/1.1\r"@;
    reveal_strlit(" HTTP/1.1\r");
    reveal_strlit(" HTTP/1.1");
    let at = method.len() + target.len() + 11;
    assert(request[at as int] == '\n');
    assert forall|i: int| 0 <= i < at implies request[i] != '\n' by {
        if i < method.len() {
            assert(request[i] == method[i]);
            assert(!is_space(method[i]));
        } else if i > method.len() && i < method.len() + 1 + target.len() {
            assert(request[i] == target[i - method.len() - 1]);
            assert(!is_space(target[i - method.len() - 1]));
        }
    }
    first_index_unique(request, '\n', at as int);
    assert(request.take(at as int) =~= line);
    let shown = method + (" "@ + target + " HTTP/1.1"@);
    assert(line.drop_last() =~= shown);
    let after = " "@ + target + " HTTP/1.1"@;
    assert(after[0] == ' ');
    a_text_begins_with_its_first_word(' ', method, after);
    let version = " HTTP/1.1"@;
    assert(after =~= seq![' '] + target + version);
    a_text_begins_with_its_first_word(' ', target, version);
}

/// On the secret path the receiver gets the stream for a `GET` and its headers for
/// a `HEAD`, and is refused any other method; anyone else is forbidden, whatever
/// the method.
pub proof fn the_method_decides_for_the_receiver(
    request: Seq<char>,
    method: Seq<char>,
    path: Seq<char>,
    allowed: Address,
    from: Address,
)
    requires
        asked_for(request) == Some((method, path)),
    ensures
        method == "GET"@ ==> verdict_on(request, path, allowed, allowed) == Verdict::Stream,
        method == "HEAD"@ ==> verdict_on(request, path, allowed, allowed) == Verdict::HeadOnly,
        method != "GET"@ && method != "HEAD"@ ==> verdict_on(request, path, allowed, allowed)
            == Verdict::MethodNotAllowed,
        from != allowed ==> verdict_on(request, path, allowed, from) == Verdict::Forbidden,
{
    reveal_strlit("GET");
    reveal_strlit("HEAD");
    assert("GET"@.len() != "HEAD"@.len());
}

/// A response begins with its status and ends its headers; only the stream is
/// announced as one, and must not be kept, while every refusal is empty.
pub proof fn a_response_says_its_verdict(verdict: Verdict)
    ensures
        ({
            let text = headers_text(verdict);
            &&& has_part(text, "HTTP/1.1 200 OK"@) || !(verdict == Verdict::Stream || verdict
                == Verdict::HeadOnly)
            &&& verdict == Verdict::NotFound ==> has_part(text, "HTTP/1.1 404 Not Found"@)
            &&& verdict == Verdict::Forbidden ==> has_part(text, "HTTP/1.1 403 Forbidden"@)
            &&& verdict == Verdict::MethodNotAllowed ==> has_part(
                text,
                "HTTP/1.1 405 Method Not Allowed"@,
            )
            &&& verdict == Verdict::BadRequest ==> has_part(text, "HTTP/1.1 400 Bad Request"@)
            &&& verdict == Verdict::Stream || verdict == Verdict::HeadOnly ==> has_part(
                text,
                "\r\nContent-Type: video/x-matroska\r\nCache-Control: no-cache, no-store, must-revalidate\r\n"@,
            )
            &&& verdict != Verdict::Stream && verdict != Verdict::HeadOnly ==> has_part(
                text,
                "\r\nContent-Length: 0\r\n"@,
            )
            &&& text.len() >= 4 && text.skip(text.len() - 4) == "\r\n\r\n"@
        }),
{
    let text = headers_text(verdict);
    reveal_strlit("HTTP/1.1 ");
    reveal_strlit("200 OK");
    reveal_strlit("HTTP/1.1 200 OK");
    reveal_strlit("404 Not Found");
    reveal_strlit("HTTP/1.1 404 Not Found");
    reveal_strlit("403 Forbidden");
    reveal_strlit("HTTP/1.1 403 Forbidden");
    reveal_strlit("405 Method Not Allowed");
    reveal_strlit("HTTP/1.1 405 Method Not Allowed");
    reveal_strlit("400 Bad Request");
    reveal_strlit("HTTP/1.1 400 Bad Request");
    reveal_strlit("\r\n\r\n");
    reveal_strlit("\r\nContent-Length: 0\r\nConnection: close\r\nServer: BigNetScreen\r\n\r\n");
    reveal_strlit("\r\nContent-Length: 0\r\n");
    reveal_strlit(
        "\r\nContent-Type: video/x-matroska\r\nCache-Control: no-cache, no-store, must-revalidate\r\nPragma: no-cache\r\nConnection: close\r\nServer: BigNetScreen\r\n\r\n",
    );
    reveal_strlit(
        "\r\nContent-Type: video/x-matroska\r\nCache-Control: no-cache, no-store, must-revalidate\r\n",
    );
    assert(text.skip(text.len() - 4) =~= "\r\n\r\n"@);
    let at = 9 + status_of(verdict).len() as int;
    match verdict {
        Verdict::Stream | Verdict::HeadOnly => {
            starts_with_part(text, "HTTP/1.1 200 OK"@);
            part_stands_at(
                text,
                "\r\nContent-Type: video/x-matroska\r\nCache-Control: no-cache, no-store, must-revalidate\r\n"@,
                at,
            );
        },
        Verdict::NotFound => {
            starts_with_part(text, "HTTP/1.1 404 Not Found"@);
            part_stands_at(text, "\r\nContent-Length: 0\r\n"@, at);
        },
        Verdict::Forbidden => {
            starts_with_part(text, "HTTP/1.1 403 Forbidden"@);
            part_stands_at(text, "\r\nContent-Length: 0\r\n"@, at);
        },
        Verdict::MethodNotAllowed => {
            starts_with_part(text, "HTTP/1.1 405 Method Not Allowed"@);
            part_stands_at(text, "\r\nContent-Length: 0\r\n"@, at);
        },
        Verdict::BadRequest => {
            starts_with_part(text, "HTTP/1.1 400 Bad Request"@);
            part_stands_at(text, "\r\nContent-Length: 0\r\n"@, at);
        },
    }
}

/// A request is complete once its blank line has arrived, whatever came before it
/// or comes after; without one it is read on, up to 8 KiB and no further.
pub proof fn a_blank_line_completes_a_request(before: Seq<u8>, after: Seq<u8>)
    ensures
        progress_of(before + seq![13u8, 10, 13, 10] + after) == RequestProgress::Complete,
        (forall|i: int| 0 <= i < before.len() ==> before[i] != 10) ==> progress_of(before) == (
        if before.len() > 8192 {
            RequestProgress::TooLarge
        } else {
            RequestProgress::Incomplete
        }),
{
    let bytes = before + seq![13u8, 10, 13, 10] + after;
    let at = before.len() as int;
    assert(bytes[at] == 13 && bytes[at + 1] == 10 && bytes[at + 2] == 13 && bytes[at + 3] == 10);
    assert(ends_headers(bytes, at));
    if forall|i: int| 0 <= i < before.len() ==> before[i] != 10 {
        if holds_blank_line(before) {
            let i = choose|i: int| ends_headers(before, i);
            assert(before[i + 1] == 10);
        }
    }
}

/// A URL leads back to what it was made of: the host, in brackets where it is an
/// IPv6 one and only there, then the port, and the path to its very end.
pub proof fn a_url_leads_to_its_path(host: Seq<char>, port: u16, path: Seq<char>)
    ensures
        ({
            let v4 = url_text(host, false, port, path);
            let v6 = url_text(host, true, port, path);
            &&& v4 == "http://"@ + host + ":"@ + decimal(port as nat) + path
            &&& v6 == "http://["@ + host + "]:"@ + decimal(port as nat) + path
            &&& v4.skip(v4.len() - path.len()) == path
            &&& v6.skip(v6.len() - path.len()) == path
        }),
{
    reveal_strlit("http://");
    reveal_strlit("http://[");
    reveal_strlit("[");
    reveal_strlit("]");
    reveal_strlit(":");
    reveal_strlit("]:");
    let v4 = url_text(host, false, port, path);
    let v6 = url_text(host, true, port, path);
    assert(v6 =~= "http://["@ + host + "]:"@ + decimal(port as nat) + path);
    assert(v4.skip(v4.len() - path.len()) =~= path);
    assert(v6.skip(v6.len() - path.len()) =~= path);
}

/// The first client starts the playing, and no other does.
pub proof fn only_the_first_client_starts_the_playing(served_any: bool)
    ensures
        after_hand_over(served_any) == AfterHandOver::StartPlaying <==> !served_any,
{
}

} // verus!
