//! The Google Cast (CASTV2) control channel.
//!
//! Every message is prefixed by 4 length bytes (big-endian) and carries JSON,
//! organised by *namespace*: `connection` (CONNECT), `heartbeat` (PING/PONG),
//! `receiver` (LAUNCH/GET_STATUS) and `media` (LOAD/PLAY). Replies are
//! correlated by `requestId`; PINGs are answered on their own.
use crate::bytes::{push_all, push_be32, read_be32};
use crate::error::{protocol_error, NdError};
use crate::file_server::MediaFile;
use crate::json;
use crate::text::{copied, number_text, same_text};
use serde_json::Value;
use vstd::prelude::*;

verus! {

use crate::bytes::{be32, be32_round_trip, from_be32};
use crate::error::ErrorView;
use crate::file_server::title_of;
use crate::json::{
    json_read, json_text, json_tree, member, members, no_members, number_member, takes_members,
    text_member, trees, JsonTree,
};
use crate::text::{
    decimal, has_part, part_of_first, part_of_itself, part_of_second, part_stands_at,
};

/// The control port. Public because it is also the address the interface
/// measures the link against.
pub const PORT: u16 = 8009;

/// The sender's id on the channel.
pub const SOURCE_ID: &'static str = "sender-0";

/// The receiver platform's id on the channel.
pub const PLATFORM_DEST: &'static str = "receiver-0";

/// The namespace of CONNECT.
pub const NS_CONNECTION: &'static str = "urn:x-cast:com.google.cast.tp.connection";

/// The namespace of PING and PONG.
pub const NS_HEARTBEAT: &'static str = "urn:x-cast:com.google.cast.tp.heartbeat";

/// The namespace of LAUNCH, STOP and GET_STATUS.
pub const NS_RECEIVER: &'static str = "urn:x-cast:com.google.cast.receiver";

/// The media namespace (LOAD/PLAY/STOP on the receiver app).
pub const NS_MEDIA: &'static str = "urn:x-cast:com.google.cast.media";

/// The Default Media Receiver's app ID (plays media from an HTTP URL).
pub const DEFAULT_MEDIA_RECEIVER: &'static str = "CC1AD845";

/// What opens a virtual connection.
pub const CONNECT_PAYLOAD: &'static str = "{\"type\":\"CONNECT\"}";

/// What keeps the channel alive.
pub const PING_PAYLOAD: &'static str = "{\"type\":\"PING\"}";

/// What answers a PING.
pub const PONG_PAYLOAD: &'static str = "{\"type\":\"PONG\"}";

/// The message size cap.
///
/// The 4-byte prefix is controlled by the other end: with no cap, a single
/// header could ask for up to 4 GiB. The protocol does not use large messages.
pub const MAX_MESSAGE_BYTES: usize = 65536;

/// How long to allow for establishing TCP and TLS, in seconds.
pub const CONNECT_TIMEOUT_SECS: u64 = 8;

/// How long to wait for an ordinary request's reply, in seconds.
pub const REQUEST_TIMEOUT_SECS: u64 = 10;

/// How long to allow the receiver to **start an application**, in seconds. Far
/// more generous: a freshly switched-on device takes several.
pub const LAUNCH_TIMEOUT_SECS: u64 = 45;

/// The interval between the PINGs we send, in seconds.
pub const PING_INTERVAL_SECS: u64 = 5;

/// One message of the channel.
#[derive(Debug)]
pub struct CastMessage {
    pub source_id: String,
    pub destination_id: String,
    pub namespace: String,
    pub payload_utf8: Option<String>,
}

/// Addresses a payload to a destination of the receiver.
pub fn address_message(namespace: &str, destination: &str, payload: &str) -> (res: CastMessage)
    ensures
        res.source_id@ == SOURCE_ID@,
        res.destination_id@ == destination@,
        res.namespace@ == namespace@,
        res.payload_utf8 matches Some(text) && text@ == payload@,
{
    CastMessage {
        source_id: copied(SOURCE_ID),
        destination_id: copied(destination),
        namespace: copied(namespace),
        payload_utf8: Some(copied(payload)),
    }
}

/// An encoded message as it goes on the wire: its length, then itself.
pub open spec fn framed(message: Seq<u8>) -> Seq<u8> {
    be32(message.len() as u32) + message
}

/// Frames an encoded message, refusing one over the cap.
pub fn frame_message(message: &[u8]) -> (res: Result<Vec<u8>, NdError>)
    ensures
        match res {
            Ok(bytes) => message@.len() <= MAX_MESSAGE_BYTES && bytes@ == framed(message@),
            Err(error) => message@.len() > MAX_MESSAGE_BYTES && error@ == ErrorView::Protocol(
                "Cast message too large"@,
            ),
        },
{
    if message.len() > MAX_MESSAGE_BYTES {
        return Err(protocol_error("Cast message too large"));
    }
    let mut bytes: Vec<u8> = Vec::new();
    push_be32(&mut bytes, message.len() as u32);
    push_all(&mut bytes, message);
    assert(bytes@ =~= framed(message@));
    Ok(bytes)
}

/// The length that a prefix declares.
pub open spec fn declared_length(prefix: Seq<u8>) -> u32 {
    from_be32(prefix[0], prefix[1], prefix[2], prefix[3])
}

/// Reads the length of the message that follows, refusing one over the cap
/// before anything is allocated for it.
pub fn message_length(prefix: &[u8; 4]) -> (res: Result<usize, NdError>)
    ensures
        match res {
            Ok(len) => len == declared_length(prefix@) && len <= MAX_MESSAGE_BYTES,
            Err(error) => declared_length(prefix@) > MAX_MESSAGE_BYTES && error@
                == ErrorView::Protocol(
                "mensagem Cast de "@ + decimal(declared_length(prefix@) as nat)
                    + " bytes excede o limite de "@ + decimal(MAX_MESSAGE_BYTES as nat),
            ),
        },
{
    let len: u32 = read_be32(prefix[0], prefix[1], prefix[2], prefix[3]);
    if len as usize > MAX_MESSAGE_BYTES {
        let declared = number_text(len as u64);
        let cap = number_text(MAX_MESSAGE_BYTES as u64);
        return Err(
            NdError::Protocol(
                copied("mensagem Cast de ").concat(declared.as_str()).concat(
                    " bytes excede o limite de ",
                ).concat(cap.as_str()),
            ),
        );
    }
    Ok(len as usize)
}

/// What is framed is read back: the prefix declares the length of what follows
/// it, and what follows is the message.
pub proof fn framing_round_trip(message: Seq<u8>)
    requires
        message.len() <= MAX_MESSAGE_BYTES,
    ensures
        declared_length(framed(message).take(4)) == message.len(),
        framed(message).skip(4) == message,
{
    be32_round_trip(message.len() as u32);
    assert(framed(message).take(4) =~= be32(message.len() as u32));
    assert(framed(message).skip(4) =~= message);
}

/// What a payload holds: null where there is none, or where it is no JSON.
pub open spec fn payload_tree(payload: Option<Seq<char>>) -> JsonTree {
    match payload {
        Some(text) => match json_read(text) {
            Some(tree) => tree,
            None => JsonTree::Null,
        },
        None => JsonTree::Null,
    }
}

/// Reads a payload.
pub fn read_payload(payload: Option<&str>) -> (res: Value)
    ensures
        json_tree(res) == payload_tree(
            match payload {
                Some(text) => Some(text@),
                None => None,
            },
        ),
{
    match payload {
        Some(text) => match json::read(text) {
            Some(value) => value,
            None => json::null(),
        },
        None => json::null(),
    }
}

/// A spontaneous message from the receiver (not a reply to a request).
#[derive(Debug)]
pub struct CastEvent {
    pub namespace: String,
    pub payload: Value,
}

/// What to do with a message that arrived.
#[derive(Clone, Copy, Debug, PartialEq, Eq, Structural)]
pub enum Route {
    /// Answer the PING.
    Pong,
    /// Nothing: a heartbeat that asks for no answer.
    Ignore,
    /// Hand it to whoever waits for the reply to this request.
    Reply(i32),
    /// Hand it on as a spontaneous message.
    Event,
}

/// The requests of a channel: the next id, and those still waiting for a reply.
#[derive(Debug)]
pub struct Requests {
    next_id: i32,
    waiting: Vec<i32>,
}

/// The contents of [`Requests`].
pub ghost struct RequestsView {
    pub next_id: i32,
    pub waiting: Set<i32>,
}

impl View for Requests {
    type V = RequestsView;

    closed spec fn view(&self) -> RequestsView {
        RequestsView { next_id: self.next_id, waiting: self.waiting@.to_set() }
    }
}

/// `n` as 32 bits hold it.
pub open spec fn wrapped(n: int) -> i32 {
    let low = n % 0x1_0000_0000;
    (if low >= 0x8000_0000 {
        low - 0x1_0000_0000
    } else {
        low
    }) as i32
}

/// The request that a payload replies to.
pub open spec fn replied_id(payload: JsonTree) -> Option<i32> {
    match number_member(payload, "requestId"@, i64::MIN as int, i64::MAX as int) {
        Some(n) => Some(wrapped(n)),
        None => None,
    }
}

/// Where a message goes.
pub open spec fn route_of(waiting: Set<i32>, namespace: Seq<char>, payload: JsonTree) -> Route {
    if namespace == NS_HEARTBEAT@ {
        if text_member(payload, "type"@) == Some("PING"@) {
            Route::Pong
        } else {
            Route::Ignore
        }
    } else {
        match replied_id(payload) {
            Some(id) => if waiting.contains(id) {
                Route::Reply(id)
            } else {
                Route::Event
            },
            None => Route::Event,
        }
    }
}

/// `n` as an `i32` of the same low bits.
fn wrap(n: i64) -> (res: i32)
    ensures
        res == wrapped(n as int),
{
    // For a negative number, -(n + 1) is not, and its low bits are the
    // complement of those of `n`.
    let low: i64 = if n >= 0 {
        n % 0x1_0000_0000
    } else {
        0xFFFF_FFFF - (-(n + 1)) % 0x1_0000_0000
    };
    if low >= 0x8000_0000 {
        (low - 0x1_0000_0000) as i32
    } else {
        low as i32
    }
}

proof fn removal_keeps_the_rest(waiting: Seq<i32>, at: int)
    requires
        0 <= at < waiting.len(),
        waiting.no_duplicates(),
    ensures
        waiting.remove(at).no_duplicates(),
        waiting.remove(at).to_set() == waiting.to_set().remove(waiting[at]),
{
    let after = waiting.remove(at);
    assert forall|i: int, j: int| 0 <= i < after.len() && 0 <= j < after.len() && i
        != j implies after[i] != after[j] by {
        let a = if i < at { i } else { i + 1 };
        let b = if j < at { j } else { j + 1 };
        assert(after[i] == waiting[a] && after[j] == waiting[b]);
    }
    assert forall|x: i32| after.to_set().contains(x) <==> waiting.to_set().remove(
        waiting[at],
    ).contains(x) by {
        if after.contains(x) {
            let i = choose|i: int| 0 <= i < after.len() && after[i] == x;
            let a = if i < at { i } else { i + 1 };
            assert(waiting[a] == x);
        }
        if waiting.contains(x) && x != waiting[at] {
            let a = choose|a: int| 0 <= a < waiting.len() && waiting[a] == x;
            let i = if a < at { a } else { a - 1 };
            assert(after[i] == x);
        }
    }
    assert(after.to_set() =~= waiting.to_set().remove(waiting[at]));
}

impl Requests {
    #[verifier::type_invariant]
    spec fn wf(self) -> bool {
        self.waiting@.no_duplicates()
    }

    /// A channel that has asked nothing.
    pub fn new() -> (res: Self)
        ensures
            res@.next_id == 1,
            res@.waiting == Set::<i32>::empty(),
    {
        let waiting: Vec<i32> = Vec::new();
        assert(waiting@.to_set() =~= Set::<i32>::empty());
        Requests { next_id: 1, waiting }
    }

    fn position(&self, id: i32) -> (res: Option<usize>)
        ensures
            match res {
                Some(at) => at < self.waiting@.len() && self.waiting@[at as int] == id,
                None => !self.waiting@.contains(id),
            },
    {
        let mut i: usize = 0;
        while i < self.waiting.len()
            invariant
                i <= self.waiting@.len(),
                forall|j: int| 0 <= j < i ==> self.waiting@[j] != id,
            decreases self.waiting@.len() - i,
        {
            if self.waiting[i] == id {
                return Some(i);
            }
            i += 1;
        }
        None
    }

    /// The next request id. Ids increase by one, and wrap at 32 bits.
    pub fn next_request_id(&mut self) -> (res: i32)
        ensures
            res == old(self)@.next_id,
            final(self)@.next_id == wrapped(old(self)@.next_id + 1),
            final(self)@.waiting == old(self)@.waiting,
    {
        proof {
            use_type_invariant(&*self);
        }
        let id: i32 = self.next_id;
        self.next_id = if id == i32::MAX { i32::MIN } else { id + 1 };
        id
    }

    /// Draws an id for a request, and waits for its reply.
    pub fn register(&mut self) -> (res: i32)
        ensures
            res == old(self)@.next_id,
            final(self)@.next_id == wrapped(old(self)@.next_id + 1),
            final(self)@.waiting == old(self)@.waiting.insert(res),
    {
        let id: i32 = self.next_request_id();
        proof {
            use_type_invariant(&*self);
        }
        if self.position(id).is_none() {
            let mut waiting: Vec<i32> = Vec::new();
            std::mem::swap(&mut waiting, &mut self.waiting);
            let ghost before = waiting@;
            waiting.push(id);
            assert(waiting@.no_duplicates()) by {
                assert forall|i: int, j: int| 0 <= i < waiting@.len() && 0 <= j < waiting@.len()
                    && i != j implies waiting@[i] != waiting@[j] by {
                    if i < before.len() && j < before.len() {
                        assert(before[i] != before[j]);
                    } else if i < before.len() {
                        assert(before.contains(before[i]));
                    } else if j < before.len() {
                        assert(before.contains(before[j]));
                    }
                }
            }
            assert(waiting@.to_set() =~= before.to_set().insert(id)) by {
                assert forall|x: i32| waiting@.to_set().contains(x) <==> before.to_set().insert(
                    id,
                ).contains(x) by {
                    if before.contains(x) {
                        let i = choose|i: int| 0 <= i < before.len() && before[i] == x;
                        assert(waiting@[i] == x);
                    }
                    assert(waiting@[before.len() as int] == id);
                }
            }
            self.waiting = waiting;
        } else {
            assert(self@.waiting =~= old(self)@.waiting.insert(id)) by {
                assert(self.waiting@.contains(id));
            }
        }
        id
    }

    /// Stops waiting for a reply. Says whether it was still awaited.
    pub fn forget(&mut self, id: i32) -> (res: bool)
        ensures
            res == old(self)@.waiting.contains(id),
            final(self)@.waiting == old(self)@.waiting.remove(id),
            final(self)@.next_id == old(self)@.next_id,
    {
        proof {
            use_type_invariant(&*self);
        }
        match self.position(id) {
            Some(at) => {
                let mut waiting: Vec<i32> = Vec::new();
                std::mem::swap(&mut waiting, &mut self.waiting);
                proof {
                    removal_keeps_the_rest(waiting@, at as int);
                    assert(waiting@.contains(id));
                }
                let _ = waiting.remove(at);
                self.waiting = waiting;
                true
            },
            None => {
                assert(self@.waiting =~= old(self)@.waiting.remove(id));
                false
            },
        }
    }

    /// Stops waiting for anything: the channel closed.
    pub fn clear(&mut self)
        ensures
            final(self)@.waiting == Set::<i32>::empty(),
            final(self)@.next_id == old(self)@.next_id,
    {
        let waiting: Vec<i32> = Vec::new();
        assert(waiting@.to_set() =~= Set::<i32>::empty());
        self.waiting = waiting;
    }

    /// Decides where a message that arrived goes. A reply is awaited no longer.
    pub fn route(&mut self, namespace: &str, payload: &Value) -> (res: Route)
        ensures
            res == route_of(old(self)@.waiting, namespace@, json_tree(*payload)),
            final(self)@.next_id == old(self)@.next_id,
            final(self)@.waiting == (match res {
                Route::Reply(id) => old(self)@.waiting.remove(id),
                _ => old(self)@.waiting,
            }),
    {
        if same_text(namespace, NS_HEARTBEAT) {
            let is_ping = match json::get_text(payload, "type") {
                Some(kind) => same_text(kind, "PING"),
                None => false,
            };
            return if is_ping {
                Route::Pong
            } else {
                Route::Ignore
            };
        }
        let asked = match json::get(payload, "requestId") {
            Some(found) => json::as_i64(found),
            None => None,
        };
        if let Some(n) = asked {
            let id: i32 = wrap(n);
            if self.forget(id) {
                return Route::Reply(id);
            }
            assert(self@.waiting =~= old(self)@.waiting);
        }
        Route::Event
    }
}

/// The id drawn after `drawn` others.
pub open spec fn id_after(first: i32, drawn: int) -> i32 {
    wrapped(first + drawn)
}

/// Request ids are unique: no two of as many as 32 bits can tell apart are the
/// same.
pub proof fn request_ids_are_unique(first: i32, a: int, b: int)
    requires
        0 <= a < b,
        b - a < 0x1_0000_0000,
    ensures
        id_after(first, a) != id_after(first, b),
{
}

/// The id after `drawn` draws is the one before it, plus one.
pub proof fn request_ids_follow_each_other(first: i32, drawn: int)
    requires
        0 <= drawn,
    ensures
        wrapped(id_after(first, drawn) + 1) == id_after(first, drawn + 1),
{
}

/// A PING is always answered, whatever else is awaited.
pub proof fn a_ping_is_always_answered(waiting: Set<i32>, payload: JsonTree)
    requires
        text_member(payload, "type"@) == Some("PING"@),
    ensures
        route_of(waiting, NS_HEARTBEAT@, payload) == Route::Pong,
{
}

/// A reply reaches whoever asked, once: the same reply again is an event.
pub proof fn a_reply_arrives_once(
    waiting: Set<i32>,
    namespace: Seq<char>,
    payload: JsonTree,
    id: i32,
)
    requires
        namespace != NS_HEARTBEAT@,
        replied_id(payload) == Some(id),
        waiting.contains(id),
    ensures
        route_of(waiting, namespace, payload) == Route::Reply(id),
        route_of(waiting.remove(id), namespace, payload) == Route::Event,
{
}

/// A payload with its request id.
pub open spec fn request_tree(payload: JsonTree, id: i32) -> JsonTree {
    JsonTree::Object(members(payload).insert("requestId"@, JsonTree::Number(id as int)))
}

/// Gives a payload its request id, and writes it.
pub fn request_text(payload: Value, id: i32) -> (res: String)
    requires
        takes_members(json_tree(payload)),
    ensures
        res@ == json_text(request_tree(json_tree(payload), id)),
{
    let mut payload = payload;
    json::put_number(&mut payload, "requestId", id as i64);
    json::write(&payload)
}

/// Writes a payload that asks for no correlated reply.
pub fn send_json(payload: &Value) -> (res: String)
    ensures
        res@ == json_text(json_tree(*payload)),
{
    json::write(payload)
}

/// How waiting for a reply can end without one.
#[derive(Clone, Copy, Debug, PartialEq, Eq, Structural)]
pub enum NoReply {
    /// The channel closed.
    Closed,
    /// These seconds went by.
    TimedOut(u64),
}

/// The failure of a request that got no reply.
pub fn no_reply_error(why: NoReply) -> (res: NdError)
    ensures
        res@ == ErrorView::Protocol(
            match why {
                NoReply::Closed => "the Cast channel closed before the reply"@,
                NoReply::TimedOut(secs) => "the receiver did not reply within "@ + decimal(
                    secs as nat,
                ) + "s"@,
            },
        ),
{
    match why {
        NoReply::Closed => protocol_error("the Cast channel closed before the reply"),
        NoReply::TimedOut(secs) => {
            let text = number_text(secs);
            NdError::Protocol(
                copied("the receiver did not reply within ").concat(text.as_str()).concat("s"),
            )
        },
    }
}

/// A running receiver app.
#[derive(Debug)]
pub struct LaunchedApp {
    /// Where messages addressed to the app go.
    pub transport_id: String,
    pub session_id: String,
}

impl Clone for LaunchedApp {
    fn clone(&self) -> (res: Self)
        ensures
            res@ == self@,
    {
        LaunchedApp {
            transport_id: self.transport_id.clone(),
            session_id: self.session_id.clone(),
        }
    }
}

/// The contents of a [`LaunchedApp`].
pub ghost struct LaunchedView {
    pub transport_id: Seq<char>,
    pub session_id: Seq<char>,
}

impl View for LaunchedApp {
    type V = LaunchedView;

    open spec fn view(&self) -> LaunchedView {
        LaunchedView { transport_id: self.transport_id@, session_id: self.session_id@ }
    }
}

/// The request for the receiver's status (running apps, volume, and so on).
pub fn status() -> (res: Value)
    ensures
        json_tree(res) == JsonTree::Object(
            no_members().insert("type"@, JsonTree::Text("GET_STATUS"@)),
        ),
{
    let mut payload = json::object();
    json::put_text(&mut payload, "type", "GET_STATUS");
    payload
}

/// A LAUNCH of an application.
pub open spec fn launch_tree(app_id: Seq<char>) -> JsonTree {
    JsonTree::Object(
        no_members().insert("type"@, JsonTree::Text("LAUNCH"@)).insert(
            "appId"@,
            JsonTree::Text(app_id),
        ),
    )
}

/// The request to start an application.
pub fn launch_request(app_id: &str) -> (res: Value)
    ensures
        json_tree(res) == launch_tree(app_id@),
{
    let mut payload = json::object();
    json::put_text(&mut payload, "type", "LAUNCH");
    json::put_text(&mut payload, "appId", app_id);
    payload
}

/// The first application of that id.
pub open spec fn app_named(apps: Seq<JsonTree>, app_id: Seq<char>) -> Option<JsonTree>
    decreases apps.len(),
{
    if apps.len() == 0 {
        None
    } else if text_member(apps[0], "appId"@) == Some(app_id) {
        Some(apps[0])
    } else {
        app_named(apps.skip(1), app_id)
    }
}

/// The applications that a status reply lists.
pub open spec fn listed_apps(response: JsonTree) -> Seq<JsonTree> {
    match member(response, "status"@) {
        Some(status) => match member(status, "applications"@) {
            Some(JsonTree::Array(apps)) => apps,
            _ => Seq::empty(),
        },
        None => Seq::empty(),
    }
}

/// What the reply to a LAUNCH says: the session created, or why there is none. A
/// receiver that refuses simply does not have the application.
pub open spec fn launch_outcome(response: JsonTree, app_id: Seq<char>) -> Result<
    LaunchedView,
    ErrorView,
> {
    if text_member(response, "type"@) == Some("LAUNCH_ERROR"@) {
        Err(
            ErrorView::Unsupported(
                "the receiver refused to start app "@ + app_id + ": "@ + (match text_member(
                    response,
                    "reason"@,
                ) {
                    Some(reason) => reason,
                    None => "no reason given"@,
                }),
            ),
        )
    } else {
        match app_named(listed_apps(response), app_id) {
            None => Err(
                ErrorView::Unsupported(
                    "app "@ + app_id + " did not appear in the receiver's status"@,
                ),
            ),
            Some(app) => match text_member(app, "transportId"@) {
                None => Err(ErrorView::Protocol("reply without a transportId"@)),
                Some(transport_id) => Ok(
                    LaunchedView {
                        transport_id,
                        session_id: match text_member(app, "sessionId"@) {
                            Some(id) => id,
                            None => ""@,
                        },
                    },
                ),
            },
        }
    }
}

fn find_app<'a>(apps: &'a Vec<Value>, app_id: &str) -> (res: Option<&'a Value>)
    ensures
        match res {
            Some(app) => app_named(trees(apps@), app_id@) == Some(json_tree(*app)),
            None => app_named(trees(apps@), app_id@) is None,
        },
{
    let ghost all = trees(apps@);
    let mut i: usize = 0;
    assert(all.skip(0) =~= all);
    while i < apps.len()
        invariant
            i <= apps@.len(),
            all == trees(apps@),
            app_named(all, app_id@) == app_named(all.skip(i as int), app_id@),
        decreases apps@.len() - i,
    {
        assert(all.skip(i as int).skip(1) =~= all.skip(i + 1));
        let named = match json::get_text(&apps[i], "appId") {
            Some(id) => same_text(id, app_id),
            None => false,
        };
        if named {
            return Some(&apps[i]);
        }
        i += 1;
    }
    None
}

fn find_launched<'a>(response: &'a Value, app_id: &str) -> (res: Option<&'a Value>)
    ensures
        match res {
            Some(app) => app_named(listed_apps(json_tree(*response)), app_id@) == Some(
                json_tree(*app),
            ),
            None => app_named(listed_apps(json_tree(*response)), app_id@) is None,
        },
{
    let status = match json::get(response, "status") {
        Some(status) => status,
        None => {
            return None;
        },
    };
    let list = match json::get(status, "applications") {
        Some(list) => list,
        None => {
            return None;
        },
    };
    match json::as_array(list) {
        Some(apps) => find_app(apps, app_id),
        None => None,
    }
}

/// Reads the reply to a LAUNCH.
///
/// Fails with a descriptive error if the receiver refuses (`LAUNCH_ERROR`). An
/// explicit CONNECT to the app is required before talking to it.
pub fn launch(response: &Value, app_id: &str) -> (res: Result<LaunchedApp, NdError>)
    ensures
        match res {
            Ok(app) => launch_outcome(json_tree(*response), app_id@) == Ok::<
                LaunchedView,
                ErrorView,
            >(app@),
            Err(error) => launch_outcome(json_tree(*response), app_id@) == Err::<
                LaunchedView,
                ErrorView,
            >(error@),
        },
{
    let refused = match json::get_text(response, "type") {
        Some(kind) => same_text(kind, "LAUNCH_ERROR"),
        None => false,
    };
    if refused {
        let reason = match json::get_text(response, "reason") {
            Some(reason) => reason,
            None => "no reason given",
        };
        return Err(
            NdError::Unsupported(
                copied("the receiver refused to start app ").concat(app_id).concat(": ").concat(
                    reason,
                ),
            ),
        );
    }
    let app = match find_launched(response, app_id) {
        Some(app) => app,
        None => {
            return Err(
                NdError::Unsupported(
                    copied("app ").concat(app_id).concat(
                        " did not appear in the receiver's status",
                    ),
                ),
            );
        },
    };
    let transport_id = match json::get_text(app, "transportId") {
        Some(id) => copied(id),
        None => {
            return Err(protocol_error("reply without a transportId"));
        },
    };
    let session_id = match json::get_text(app, "sessionId") {
        Some(id) => copied(id),
        None => copied(""),
    };
    Ok(LaunchedApp { transport_id, session_id })
}

/// A LOAD of some media.
pub open spec fn load_tree(session_id: Seq<char>, media: JsonTree) -> JsonTree {
    JsonTree::Object(
        no_members().insert("type"@, JsonTree::Text("LOAD"@)).insert(
            "sessionId"@,
            JsonTree::Text(session_id),
        ).insert("autoplay"@, JsonTree::Bool(true)).insert("currentTime"@, JsonTree::Number(0)).insert(
            "media"@,
            media,
        ),
    )
}

fn load_request(app: &LaunchedApp, media: Value) -> (res: Value)
    ensures
        json_tree(res) == load_tree(app.session_id@, json_tree(media)),
{
    let mut payload = json::object();
    json::put_text(&mut payload, "type", "LOAD");
    json::put_text(&mut payload, "sessionId", app.session_id.as_str());
    json::put_bool(&mut payload, "autoplay", true);
    json::put_number(&mut payload, "currentTime", 0);
    json::put(&mut payload, "media", media);
    payload
}

/// The description of a live stream.
pub open spec fn live_tree(url: Seq<char>, content_type: Seq<char>) -> JsonTree {
    JsonTree::Object(
        no_members().insert("contentId"@, JsonTree::Text(url)).insert(
            "contentType"@,
            JsonTree::Text(content_type),
        ).insert("streamType"@, JsonTree::Text("LIVE"@)),
    )
}

/// Tells the receiver app to load a media URL (our HTTP stream). Mirroring is
/// live: declared otherwise the receiver buffers it like a film.
pub fn load_media(app: &LaunchedApp, url: &str, content_type: &str) -> (res: Value)
    ensures
        json_tree(res) == load_tree(app.session_id@, live_tree(url@, content_type@)),
{
    let mut media = json::object();
    json::put_text(&mut media, "contentId", url);
    json::put_text(&mut media, "contentType", content_type);
    json::put_text(&mut media, "streamType", "LIVE");
    load_request(app, media)
}

/// The description of a file.
pub open spec fn buffered_tree(
    url: Seq<char>,
    content_type: Seq<char>,
    title: Seq<char>,
    subtitle: Seq<char>,
) -> JsonTree {
    JsonTree::Object(
        no_members().insert("contentId"@, JsonTree::Text(url)).insert(
            "contentType"@,
            JsonTree::Text(content_type),
        ).insert("streamType"@, JsonTree::Text("BUFFERED"@)).insert(
            "metadata"@,
            JsonTree::Object(
                no_members().insert("metadataType"@, JsonTree::Number(0)).insert(
                    "title"@,
                    JsonTree::Text(title),
                ).insert("subtitle"@, JsonTree::Text(subtitle)),
            ),
        ),
    )
}

/// Tells the receiver app to play a **file** from this computer.
///
/// A file has a beginning and an end, so the receiver may buffer ahead and offer
/// a position bar; and it is shown by its title rather than by its URL.
pub fn load_file(app: &LaunchedApp, url: &str, file: &MediaFile, sender_name: &str) -> (res: Value)
    ensures
        json_tree(res) == load_tree(
            app.session_id@,
            buffered_tree(url@, file.content_type@, title_of(file.path@), sender_name@),
        ),
{
    let title = file.title();
    let mut metadata = json::object();
    json::put_number(&mut metadata, "metadataType", 0);
    json::put_text(&mut metadata, "title", title.as_str());
    json::put_text(&mut metadata, "subtitle", sender_name);
    let mut media = json::object();
    json::put_text(&mut media, "contentId", url);
    json::put_text(&mut media, "contentType", file.content_type);
    json::put_text(&mut media, "streamType", "BUFFERED");
    json::put(&mut media, "metadata", metadata);
    load_request(app, media)
}

/// Why a LOAD was refused, where it was.
pub open spec fn load_refusal(response: JsonTree) -> Option<ErrorView> {
    if text_member(response, "type"@) == Some("LOAD_FAILED"@) {
        Some(
            ErrorView::Unsupported(
                "the receiver could not play this file (error "@ + (match member(
                    response,
                    "detailedErrorCode"@,
                ) {
                    Some(code) => json_text(code),
                    None => "no reason given"@,
                }) + ")"@,
            ),
        )
    } else {
        None
    }
}

/// Reads the reply to a LOAD of a file. A refusal comes back as a message, not as
/// a transport error: without this the queue would move on believing the item
/// was playing.
pub fn load_outcome(response: &Value) -> (res: Result<(), NdError>)
    ensures
        match res {
            Ok(()) => load_refusal(json_tree(*response)) is None,
            Err(error) => load_refusal(json_tree(*response)) == Some(error@),
        },
{
    let refused = match json::get_text(response, "type") {
        Some(kind) => same_text(kind, "LOAD_FAILED"),
        None => false,
    };
    if !refused {
        return Ok(());
    }
    let reason = match json::get(response, "detailedErrorCode") {
        Some(code) => json::write(code),
        None => copied("no reason given"),
    };
    Err(
        NdError::Unsupported(
            copied("the receiver could not play this file (error ").concat(
                reason.as_str(),
            ).concat(")"),
        ),
    )
}

/// A STOP of a session.
pub open spec fn stop_tree(session_id: Seq<char>) -> JsonTree {
    JsonTree::Object(
        no_members().insert("type"@, JsonTree::Text("STOP"@)).insert(
            "sessionId"@,
            JsonTree::Text(session_id),
        ),
    )
}

/// The request to shut down the app running on the receiver.
pub fn stop_app(app: &LaunchedApp) -> (res: Value)
    ensures
        json_tree(res) == stop_tree(app.session_id@),
{
    let mut payload = json::object();
    json::put_text(&mut payload, "type", "STOP");
    json::put_text(&mut payload, "sessionId", app.session_id.as_str());
    payload
}

/// A request gets its own reply: whatever it asks, it carries the id drawn for it
/// beside all it carried before, and the reply that carries the same id back goes
/// to whoever waits for it, and to nobody else.
pub proof fn a_request_gets_its_own_reply(
    payload: JsonTree,
    id: i32,
    reply: JsonTree,
    waiting: Set<i32>,
    namespace: Seq<char>,
    key: Seq<char>,
)
    requires
        namespace != NS_HEARTBEAT@,
        member(reply, "requestId"@) == member(request_tree(payload, id), "requestId"@),
    ensures
        member(request_tree(payload, id), "requestId"@) == Some(JsonTree::Number(id as int)),
        payload is Object && key != "requestId"@ ==> member(request_tree(payload, id), key)
            == member(payload, key),
        waiting.contains(id) ==> route_of(waiting, namespace, reply) == Route::Reply(id),
        !waiting.contains(id) ==> route_of(waiting, namespace, reply) == Route::Event,
{
}

/// A message that replies to nothing is an event, and a heartbeat is none: the
/// PING is answered and everything else under its namespace is dropped.
pub proof fn what_replies_to_nothing_is_an_event(
    waiting: Set<i32>,
    namespace: Seq<char>,
    payload: JsonTree,
)
    ensures
        namespace != NS_HEARTBEAT@ && member(payload, "requestId"@) is None ==> route_of(
            waiting,
            namespace,
            payload,
        ) == Route::Event,
        namespace == NS_HEARTBEAT@ ==> (route_of(waiting, namespace, payload) == Route::Pong <==> member(
            payload,
            "type"@,
        ) == Some(JsonTree::Text("PING"@))),
        namespace == NS_HEARTBEAT@ && member(payload, "type"@) != Some(JsonTree::Text("PING"@))
            ==> route_of(waiting, namespace, payload) == Route::Ignore,
{
}

proof fn the_app_found_is_listed(apps: Seq<JsonTree>, app_id: Seq<char>)
    ensures
        match app_named(apps, app_id) {
            Some(app) => apps.contains(app) && member(app, "appId"@) == Some(
                JsonTree::Text(app_id),
            ),
            None => forall|i: int|
                0 <= i < apps.len() ==> member(#[trigger] apps[i], "appId"@) != Some(
                    JsonTree::Text(app_id),
                ),
        },
    decreases apps.len(),
{
    if apps.len() > 0 {
        let rest = apps.skip(1);
        the_app_found_is_listed(rest, app_id);
        if text_member(apps[0], "appId"@) == Some(app_id) {
            assert(apps.contains(apps[0]));
        } else if let Some(app) = app_named(rest, app_id) {
            let i = choose|i: int| 0 <= i < rest.len() && rest[i] == app;
            assert(apps[i + 1] == app);
        } else {
            assert forall|i: int| 0 <= i < apps.len() implies member(
                #[trigger] apps[i],
                "appId"@,
            ) != Some(JsonTree::Text(app_id)) by {
                if i > 0 {
                    assert(rest[i - 1] == apps[i]);
                }
            }
        }
    }
}

/// A launched application is the one that was asked for: its addresses come from
/// an application of that id in the receiver's list. Where the list holds none
/// the launch fails, and so it does where the receiver refuses, whatever its list
/// holds.
pub proof fn a_launch_gives_the_app_asked_for(
    response: JsonTree,
    status: JsonTree,
    apps: Seq<JsonTree>,
    app_id: Seq<char>,
)
    requires
        member(response, "status"@) == Some(status),
        member(status, "applications"@) == Some(JsonTree::Array(apps)),
    ensures
        launch_outcome(response, app_id) matches Ok(launched) ==> {
            &&& member(response, "type"@) != Some(JsonTree::Text("LAUNCH_ERROR"@))
            &&& exists|i: int|
                0 <= i < apps.len() && {
                    &&& member(#[trigger] apps[i], "appId"@) == Some(JsonTree::Text(app_id))
                    &&& member(apps[i], "transportId"@) == Some(
                        JsonTree::Text(launched.transport_id),
                    )
                    &&& member(apps[i], "sessionId"@) matches Some(JsonTree::Text(id))
                        ==> launched.session_id == id
                }
        },
        member(response, "type"@) == Some(JsonTree::Text("LAUNCH_ERROR"@)) ==> (launch_outcome(
            response,
            app_id,
        ) matches Err(ErrorView::Unsupported(_))),
        (forall|i: int|
            0 <= i < apps.len() ==> member(#[trigger] apps[i], "appId"@) != Some(
                JsonTree::Text(app_id),
            )) ==> (launch_outcome(response, app_id) matches Err(ErrorView::Unsupported(_))),
        forall|transport: Seq<char>, session: Seq<char>|
            apps.len() > 0 && member(apps[0], "appId"@) == Some(JsonTree::Text(app_id)) && member(
                apps[0],
                "transportId"@,
            ) == Some(JsonTree::Text(transport)) && member(apps[0], "sessionId"@) == Some(
                JsonTree::Text(session),
            ) && member(response, "type"@) != Some(JsonTree::Text("LAUNCH_ERROR"@))
                ==> #[trigger] launch_outcome(response, app_id) == Ok::<LaunchedView, ErrorView>(
                #[trigger] addresses(transport, session),
            ),
{
    the_app_found_is_listed(apps, app_id);
    assert(listed_apps(response) == apps);
}

/// The addresses of an application.
pub open spec fn addresses(transport_id: Seq<char>, session_id: Seq<char>) -> LaunchedView {
    LaunchedView { transport_id, session_id }
}

proof fn media_members_differ()
    ensures
        "type"@.len() == 4,
        "sessionId"@.len() == 9,
        "autoplay"@.len() == 8,
        "currentTime"@.len() == 11,
        "media"@.len() == 5,
        "contentId"@.len() == 9,
        "contentType"@.len() == 11,
        "streamType"@.len() == 10,
        "metadata"@.len() == 8,
        "metadataType"@.len() == 12,
        "title"@.len() == 5,
        "subtitle"@.len() == 8,
        "appId"@.len() == 5,
{
    reveal_strlit("type");
    reveal_strlit("sessionId");
    reveal_strlit("autoplay");
    reveal_strlit("currentTime");
    reveal_strlit("media");
    reveal_strlit("contentId");
    reveal_strlit("contentType");
    reveal_strlit("streamType");
    reveal_strlit("metadata");
    reveal_strlit("metadataType");
    reveal_strlit("title");
    reveal_strlit("subtitle");
    reveal_strlit("appId");
}

/// A LOAD plays at once, from the start, in the session it is given; a live stream
/// is announced as one, a file as one that may be buffered, each under its own URL
/// and type, and a file under its title and the sender's name.
pub proof fn a_load_names_what_it_plays(
    session: Seq<char>,
    url: Seq<char>,
    kind: Seq<char>,
    title: Seq<char>,
    sender: Seq<char>,
)
    ensures
        ({
            let live = live_tree(url, kind);
            let file = buffered_tree(url, kind, title, sender);
            &&& loads(load_tree(session, live), session, live)
            &&& loads(load_tree(session, file), session, file)
            &&& member(live, "contentId"@) == Some(JsonTree::Text(url))
            &&& member(live, "contentType"@) == Some(JsonTree::Text(kind))
            &&& member(live, "streamType"@) == Some(JsonTree::Text("LIVE"@))
            &&& member(file, "contentId"@) == Some(JsonTree::Text(url))
            &&& member(file, "contentType"@) == Some(JsonTree::Text(kind))
            &&& member(file, "streamType"@) == Some(JsonTree::Text("BUFFERED"@))
            &&& member(file, "metadata"@) matches Some(shown) && member(shown, "title"@) == Some(
                JsonTree::Text(title),
            ) && member(shown, "subtitle"@) == Some(JsonTree::Text(sender))
        }),
{
    media_members_differ();
}

/// Whether a message loads some media into a session, to be played at once from
/// the start.
pub open spec fn loads(tree: JsonTree, session: Seq<char>, media: JsonTree) -> bool {
    &&& member(tree, "type"@) == Some(JsonTree::Text("LOAD"@))
    &&& member(tree, "sessionId"@) == Some(JsonTree::Text(session))
    &&& member(tree, "media"@) == Some(media)
    &&& member(tree, "autoplay"@) == Some(JsonTree::Bool(true))
    &&& member(tree, "currentTime"@) == Some(JsonTree::Number(0))
}

/// A LAUNCH names the application to start, a STOP the session to end.
pub proof fn launch_and_stop_name_their_subject(app_id: Seq<char>, session: Seq<char>)
    ensures
        member(launch_tree(app_id), "type"@) == Some(JsonTree::Text("LAUNCH"@)),
        member(launch_tree(app_id), "appId"@) == Some(JsonTree::Text(app_id)),
        member(stop_tree(session), "type"@) == Some(JsonTree::Text("STOP"@)),
        member(stop_tree(session), "sessionId"@) == Some(JsonTree::Text(session)),
{
    media_members_differ();
}

/// A LOAD has failed exactly where the reply says so, and the failure tells the
/// code that the receiver gave.
pub proof fn only_a_reported_failure_refuses_a_load(response: JsonTree)
    ensures
        load_refusal(response) is Some <==> member(response, "type"@) == Some(
            JsonTree::Text("LOAD_FAILED"@),
        ),
        load_refusal(response) matches Some(error) ==> (member(response, "detailedErrorCode"@)
            matches Some(code) ==> (error matches ErrorView::Unsupported(text) && has_part(
            text,
            json_text(code),
        ))),
{
    broadcast use {part_of_first, part_of_itself, part_of_second};

}

/// A receiver that refuses to start an application does not have it: the error says
/// which one, and the reason it gave.
pub proof fn a_refused_launch_names_its_app(response: JsonTree, app_id: Seq<char>)
    requires
        text_member(response, "type"@) == Some("LAUNCH_ERROR"@),
    ensures
        launch_outcome(response, app_id) matches Err(ErrorView::Unsupported(message)) && has_part(
            message,
            " app "@ + app_id + ": "@,
        ) && (text_member(response, "reason"@) matches Some(reason) ==> has_part(message, reason)),
{
    let reason = match text_member(response, "reason"@) {
        Some(reason) => reason,
        None => "no reason given"@,
    };
    reveal_strlit("the receiver refused to start app ");
    reveal_strlit(" app ");
    let start = "the receiver refused to start app "@ + app_id + ": "@;
    part_stands_at(start, " app "@ + app_id + ": "@, 29);
    part_of_first(start, reason, " app "@ + app_id + ": "@);
    part_of_itself(reason);
    part_of_second(start, reason, reason);
}

} // verus!
