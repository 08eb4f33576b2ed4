//! Cast Streaming — the Chromecast **mirroring** path.
//!
//! Unlike the Default Media Receiver, which is a file player and pre-buffers for
//! seconds, here we talk to the mirroring app built into the device:
//!
//! ```text
//!   LAUNCH 0F5096E8 ("Chrome Mirroring")
//!   OFFER  (urn:x-cast:com.google.cast.webrtc) — codecs, SSRCs, AES keys
//!   ANSWER — the receiver's UDP port and its SSRCs
//!   RTP/UDP with an AES-CTR-128 encrypted payload
//! ```
use crate::address::Address;
use crate::error::{protocol_error, NdError};
use crate::json;
use crate::latency::{is_film, Latency, FILM_PLAYOUT_DELAY_MS};
use crate::text::{copied, number_text, same_text, signed_text, to_hex};
use serde_json::Value;
use vstd::prelude::*;

verus! {

use crate::error::ErrorView;
use crate::json::{
    json_text, json_tree, member, no_members, number_member, text_member, trees, JsonTree,
};
use crate::latency::Profile;
use crate::text::{decimal, hex_is_hex, hex_is_injective, hex_text, is_hex_digit, signed_decimal};

/// The mirroring app built into Cast devices ("Chrome Mirroring").
pub const MIRRORING_APP_ID: &'static str = "0F5096E8";

/// Namespace of the OFFER/ANSWER negotiation.
pub const NS_WEBRTC: &'static str = "urn:x-cast:com.google.cast.webrtc";

/// RTP payload type of H.264 in Cast.
pub const RTP_PAYLOAD_H264: u8 = 101;

/// RTP payload type of Opus.
pub const RTP_PAYLOAD_OPUS: u8 = 96;

/// The video time base: 90 kHz, like all video RTP.
pub const VIDEO_TIME_BASE: u32 = 90_000;

/// The Opus audio time base.
pub const AUDIO_TIME_BASE: u32 = 48_000;

/// How long to wait for the receiver's ANSWER, in seconds.
pub const ANSWER_TIMEOUT_SECS: u64 = 15;

/// The playout delay requested from the receiver, in milliseconds: the jitter
/// buffer on the other end.
pub const DEFAULT_TARGET_DELAY_MS: u32 = 150;

/// The SSRC of the video stream.
pub const VIDEO_SSRC: u32 = 100_001;

/// The SSRC of the audio stream.
pub const AUDIO_SSRC: u32 = 100_003;

/// The playout delay that a profile asks for.
pub open spec fn delay_under(profile: Profile) -> u32 {
    if profile == Profile::Film {
        FILM_PLAYOUT_DELAY_MS
    } else {
        DEFAULT_TARGET_DELAY_MS
    }
}

/// The playout delay to request, given the latency profile.
///
/// The receiver holds frames for this long before showing them, which is what
/// smooths out uneven arrival — and what delays the pointer by the same amount.
pub fn target_delay_ms(latency: &Latency) -> (res: u32)
    ensures
        res == delay_under(latency.profile),
{
    if is_film(latency) {
        FILM_PLAYOUT_DELAY_MS
    } else {
        DEFAULT_TARGET_DELAY_MS
    }
}

/// A stream's keys (the receiver decrypts with what we sent in the OFFER).
///
/// They do not print: key material must not reach a log.
#[derive(Clone, Copy)]
pub struct StreamKeys {
    pub key: [u8; 16],
    pub iv_mask: [u8; 16],
}

/// Writes bytes in hexadecimal, two upper-case digits each.
pub fn hex(bytes: &[u8]) -> (res: String)
    ensures
        res@ == hex_text(bytes@, true),
{
    to_hex(bytes, true)
}

impl StreamKeys {
    /// A key and a mask from bytes drawn at random.
    pub fn random(key: [u8; 16], iv_mask: [u8; 16]) -> (res: Self)
        ensures
            res.key@ == key@,
            res.iv_mask@ == iv_mask@,
    {
        StreamKeys { key, iv_mask }
    }

    /// The key as the OFFER carries it.
    pub fn key_hex(&self) -> (res: String)
        ensures
            res@ == hex_text(self.key@, true),
    {
        hex(self.key.as_slice())
    }

    /// The mask as the OFFER carries it.
    pub fn iv_hex(&self) -> (res: String)
        ensures
            res@ == hex_text(self.iv_mask@, true),
    {
        hex(self.iv_mask.as_slice())
    }

    /// What a log shows in place of the keys: the same for any of them.
    pub fn describe(&self) -> (res: &'static str)
        ensures
            res@ == "StreamKeys(<oculto>)"@,
    {
        "StreamKeys(<oculto>)"
    }
}

/// The key material of an offer is 16 bytes in hexadecimal, and different keys
/// are written differently.
pub proof fn aes_material_is_hex_and_unique(a: StreamKeys, b: StreamKeys)
    ensures
        hex_text(a.key@, true).len() == 32,
        forall|i: int| 0 <= i < 32 ==> is_hex_digit(#[trigger] hex_text(a.key@, true)[i]),
        a.key@ != b.key@ ==> hex_text(a.key@, true) != hex_text(b.key@, true),
{
    hex_is_hex(a.key@, true);
    if hex_text(a.key@, true) == hex_text(b.key@, true) {
        hex_is_injective(a.key@, b.key@, true);
    }
}

/// The parameters of what we are going to offer the receiver.
#[derive(Clone, Copy, Debug)]
pub struct MirrorConfig {
    pub width: u32,
    pub height: u32,
    pub fps: u32,
    pub max_bitrate: u32,
    /// The requested playout delay, in ms.
    pub target_delay_ms: u32,
    /// Include the audio track in the offer.
    pub with_audio: bool,
}

impl MirrorConfig {
    /// The usual parameters, with the delay that the latency profile asks for.
    pub fn default(latency: &Latency) -> (res: Self)
        ensures
            res == (MirrorConfig {
                width: 1920,
                height: 1080,
                fps: 30,
                max_bitrate: 10_000_000,
                target_delay_ms: delay_under(latency.profile),
                with_audio: true,
            }),
    {
        MirrorConfig {
            width: 1920,
            height: 1080,
            fps: 30,
            max_bitrate: 10_000_000,
            target_delay_ms: target_delay_ms(latency),
            with_audio: true,
        }
    }
}

/// One offered stream.
#[derive(Clone, Copy)]
pub struct OfferedStream {
    pub index: u32,
    pub ssrc: u32,
    pub payload_type: u8,
    pub keys: StreamKeys,
    pub is_video: bool,
}

/// The offer we sent, kept so it can be matched against the ANSWER.
#[derive(Clone)]
pub struct Offer {
    pub seq_num: i64,
    pub streams: Vec<OfferedStream>,
}

/// What the receiver answered.
#[derive(Clone, Debug)]
pub struct Answer {
    /// The UDP port where it expects the RTP.
    pub udp_port: u16,
    /// Indices of the streams it accepted.
    pub send_indexes: Vec<u32>,
    /// **Its** SSRCs (one per accepted stream), used by RTCP.
    pub ssrcs: Vec<u32>,
}

/// The contents of an [`Answer`].
pub ghost struct AnswerView {
    pub udp_port: u16,
    pub send_indexes: Seq<u32>,
    pub ssrcs: Seq<u32>,
}

impl View for Answer {
    type V = AnswerView;

    open spec fn view(&self) -> AnswerView {
        AnswerView {
            udp_port: self.udp_port,
            send_indexes: self.send_indexes@,
            ssrcs: self.ssrcs@,
        }
    }
}

/// A negotiated session, ready to receive packets.
#[derive(Clone)]
pub struct Negotiated {
    pub receiver_ip: Address,
    pub answer: Answer,
    pub offer: Offer,
}

/// Whether a stream was accepted: its index is among those answered.
pub open spec fn is_accepted(answer: AnswerView, stream: OfferedStream) -> bool {
    answer.send_indexes.contains(stream.index)
}

/// The first accepted stream of a kind.
pub open spec fn first_accepted(
    streams: Seq<OfferedStream>,
    answer: AnswerView,
    is_video: bool,
) -> Option<OfferedStream>
    decreases streams.len(),
{
    if streams.len() == 0 {
        None
    } else if is_accepted(answer, streams[0]) && streams[0].is_video == is_video {
        Some(streams[0])
    } else {
        first_accepted(streams.skip(1), answer, is_video)
    }
}

fn holds(indexes: &Vec<u32>, index: u32) -> (res: bool)
    ensures
        res == indexes@.contains(index),
{
    let mut i: usize = 0;
    while i < indexes.len()
        invariant
            i <= indexes@.len(),
            forall|j: int| 0 <= j < i ==> indexes@[j] != index,
        decreases indexes@.len() - i,
    {
        if indexes[i] == index {
            assert(indexes@[i as int] == index);
            return true;
        }
        i += 1;
    }
    false
}

impl Negotiated {
    fn accepted(&self, is_video: bool) -> (res: Option<&OfferedStream>)
        ensures
            match res {
                Some(stream) => first_accepted(self.offer.streams@, self.answer@, is_video)
                    == Some(*stream),
                None => first_accepted(self.offer.streams@, self.answer@, is_video) is None,
            },
    {
        let ghost all = self.offer.streams@;
        let mut i: usize = 0;
        assert(all.skip(0) =~= all);
        while i < self.offer.streams.len()
            invariant
                i <= all.len(),
                all == self.offer.streams@,
                first_accepted(all, self.answer@, is_video) == first_accepted(
                    all.skip(i as int),
                    self.answer@,
                    is_video,
                ),
            decreases all.len() - i,
        {
            assert(all.skip(i as int).skip(1) =~= all.skip(i + 1));
            let stream = &self.offer.streams[i];
            if holds(&self.answer.send_indexes, stream.index) && stream.is_video == is_video {
                return Some(stream);
            }
            i += 1;
        }
        None
    }

    /// The accepted video stream, if any.
    pub fn video(&self) -> (res: Option<&OfferedStream>)
        ensures
            match res {
                Some(stream) => first_accepted(self.offer.streams@, self.answer@, true) == Some(
                    *stream,
                ),
                None => first_accepted(self.offer.streams@, self.answer@, true) is None,
            },
    {
        self.accepted(true)
    }

    /// The accepted audio stream, if any.
    pub fn audio(&self) -> (res: Option<&OfferedStream>)
        ensures
            match res {
                Some(stream) => first_accepted(self.offer.streams@, self.answer@, false) == Some(
                    *stream,
                ),
                None => first_accepted(self.offer.streams@, self.answer@, false) is None,
            },
    {
        self.accepted(false)
    }

    /// Where to send the RTP.
    pub fn target(&self) -> (res: (Address, u16))
        ensures
            res == (self.receiver_ip, self.answer.udp_port),
    {
        (self.receiver_ip, self.answer.udp_port)
    }
}

/// A session exposes only accepted streams: what is given out was offered, is of
/// the kind asked for, and its index was answered.
pub proof fn only_accepted_streams_are_exposed(
    streams: Seq<OfferedStream>,
    answer: AnswerView,
    is_video: bool,
)
    ensures
        match first_accepted(streams, answer, is_video) {
            Some(stream) => streams.contains(stream) && stream.is_video == is_video && is_accepted(
                answer,
                stream,
            ),
            None => forall|i: int|
                0 <= i < streams.len() && (#[trigger] streams[i]).is_video == is_video
                    ==> !is_accepted(answer, streams[i]),
        },
    decreases streams.len(),
{
    if streams.len() > 0 {
        let rest = streams.skip(1);
        only_accepted_streams_are_exposed(rest, answer, is_video);
        if is_accepted(answer, streams[0]) && streams[0].is_video == is_video {
            assert(streams.contains(streams[0]));
        } else if let Some(stream) = first_accepted(streams, answer, is_video) {
            let j = choose|j: int| 0 <= j < rest.len() && rest[j] == stream;
            assert(streams[j + 1] == stream);
        } else {
            assert forall|i: int|
                0 <= i < streams.len() && (#[trigger] streams[i]).is_video
                    == is_video implies !is_accepted(answer, streams[i]) by {
                if i > 0 {
                    assert(rest[i - 1] == streams[i]);
                }
            }
        }
    }
}

/// The extension list of an offered stream.
pub open spec fn extensions_tree() -> JsonTree {
    JsonTree::Array(seq![JsonTree::Text("adaptive_playout_delay"@)])
}

/// The offered video stream, as the OFFER carries it.
pub open spec fn video_tree(cfg: MirrorConfig, keys: StreamKeys) -> JsonTree {
    JsonTree::Object(
        no_members().insert("index"@, JsonTree::Number(0)).insert(
            "type"@,
            JsonTree::Text("video_source"@),
        ).insert("codecName"@, JsonTree::Text("h264"@)).insert(
            "rtpProfile"@,
            JsonTree::Text("cast"@),
        ).insert("rtpPayloadType"@, JsonTree::Number(RTP_PAYLOAD_H264 as int)).insert(
            "ssrc"@,
            JsonTree::Number(VIDEO_SSRC as int),
        ).insert("targetDelay"@, JsonTree::Number(cfg.target_delay_ms as int)).insert(
            "aesKey"@,
            JsonTree::Text(hex_text(keys.key@, true)),
        ).insert("aesIvMask"@, JsonTree::Text(hex_text(keys.iv_mask@, true))).insert(
            "timeBase"@,
            JsonTree::Text("1/90000"@),
        ).insert("maxFrameRate"@, JsonTree::Text(decimal(cfg.fps as nat) + "/1"@)).insert(
            "maxBitRate"@,
            JsonTree::Number(cfg.max_bitrate as int),
        ).insert("receiverRtcpEventLog"@, JsonTree::Bool(true)).insert(
            "rtpExtensions"@,
            extensions_tree(),
        ).insert("resolutions"@, JsonTree::Array(seq![size_tree(cfg.width, cfg.height)])),
    )
}

/// A picture size, as the OFFER carries it.
pub open spec fn size_tree(width: u32, height: u32) -> JsonTree {
    JsonTree::Object(
        no_members().insert("width"@, JsonTree::Number(width as int)).insert(
            "height"@,
            JsonTree::Number(height as int),
        ),
    )
}

/// The offered audio stream, as the OFFER carries it.
pub open spec fn audio_tree(cfg: MirrorConfig, keys: StreamKeys) -> JsonTree {
    JsonTree::Object(
        no_members().insert("index"@, JsonTree::Number(1)).insert(
            "type"@,
            JsonTree::Text("audio_source"@),
        ).insert("codecName"@, JsonTree::Text("opus"@)).insert(
            "rtpProfile"@,
            JsonTree::Text("cast"@),
        ).insert("rtpPayloadType"@, JsonTree::Number(RTP_PAYLOAD_OPUS as int)).insert(
            "ssrc"@,
            JsonTree::Number(AUDIO_SSRC as int),
        ).insert("targetDelay"@, JsonTree::Number(cfg.target_delay_ms as int)).insert(
            "aesKey"@,
            JsonTree::Text(hex_text(keys.key@, true)),
        ).insert("aesIvMask"@, JsonTree::Text(hex_text(keys.iv_mask@, true))).insert(
            "timeBase"@,
            JsonTree::Text("1/48000"@),
        ).insert("receiverRtcpEventLog"@, JsonTree::Bool(true)).insert(
            "rtpExtensions"@,
            extensions_tree(),
        ).insert("bitRate"@, JsonTree::Number(128_000)).insert(
            "channels"@,
            JsonTree::Number(2),
        ).insert("sampleRate"@, JsonTree::Number(AUDIO_TIME_BASE as int)),
    )
}

/// The streams of an OFFER.
pub open spec fn offered_trees(
    cfg: MirrorConfig,
    video_keys: StreamKeys,
    audio_keys: StreamKeys,
) -> Seq<JsonTree> {
    if cfg.with_audio {
        seq![video_tree(cfg, video_keys), audio_tree(cfg, audio_keys)]
    } else {
        seq![video_tree(cfg, video_keys)]
    }
}

/// The OFFER.
pub open spec fn offer_tree(
    cfg: MirrorConfig,
    seq_num: i64,
    video_keys: StreamKeys,
    audio_keys: StreamKeys,
) -> JsonTree {
    JsonTree::Object(
        no_members().insert("type"@, JsonTree::Text("OFFER"@)).insert(
            "seqNum"@,
            JsonTree::Number(seq_num as int),
        ).insert(
            "offer"@,
            JsonTree::Object(
                no_members().insert("castMode"@, JsonTree::Text("mirroring"@)).insert(
                    "receiverGetStatus"@,
                    JsonTree::Bool(true),
                ).insert(
                    "supportedStreams"@,
                    JsonTree::Array(offered_trees(cfg, video_keys, audio_keys)),
                ),
            ),
        ),
    )
}

/// The offered video stream.
pub open spec fn video_stream(keys: StreamKeys) -> OfferedStream {
    OfferedStream {
        index: 0,
        ssrc: VIDEO_SSRC,
        payload_type: RTP_PAYLOAD_H264,
        keys,
        is_video: true,
    }
}

/// The offered audio stream.
pub open spec fn audio_stream(keys: StreamKeys) -> OfferedStream {
    OfferedStream {
        index: 1,
        ssrc: AUDIO_SSRC,
        payload_type: RTP_PAYLOAD_OPUS,
        keys,
        is_video: false,
    }
}

/// The streams that go with an OFFER.
pub open spec fn offered_streams(
    cfg: MirrorConfig,
    video_keys: StreamKeys,
    audio_keys: StreamKeys,
) -> Seq<OfferedStream> {
    if cfg.with_audio {
        seq![video_stream(video_keys), audio_stream(audio_keys)]
    } else {
        seq![video_stream(video_keys)]
    }
}

fn extensions() -> (res: Value)
    ensures
        json_tree(res) == extensions_tree(),
{
    let mut items: Vec<Value> = Vec::new();
    items.push(json::text("adaptive_playout_delay"));
    assert(trees(items@) =~= seq![JsonTree::Text("adaptive_playout_delay"@)]);
    json::array(items)
}

fn resolutions(width: u32, height: u32) -> (res: Value)
    ensures
        json_tree(res) == JsonTree::Array(seq![size_tree(width, height)]),
{
    let mut size = json::object();
    json::put_number(&mut size, "width", width as i64);
    json::put_number(&mut size, "height", height as i64);
    let mut items: Vec<Value> = Vec::new();
    items.push(size);
    assert(trees(items@) =~= seq![size_tree(width, height)]);
    json::array(items)
}

fn video_value(cfg: &MirrorConfig, keys: &StreamKeys) -> (res: Value)
    ensures
        json_tree(res) == video_tree(*cfg, *keys),
{
    let key = keys.key_hex();
    let iv = keys.iv_hex();
    let rate = number_text(cfg.fps as u64).concat("/1");
    let mut stream = json::object();
    json::put_number(&mut stream, "index", 0);
    json::put_text(&mut stream, "type", "video_source");
    json::put_text(&mut stream, "codecName", "h264");
    json::put_text(&mut stream, "rtpProfile", "cast");
    json::put_number(&mut stream, "rtpPayloadType", RTP_PAYLOAD_H264 as i64);
    json::put_number(&mut stream, "ssrc", VIDEO_SSRC as i64);
    json::put_number(&mut stream, "targetDelay", cfg.target_delay_ms as i64);
    json::put_text(&mut stream, "aesKey", key.as_str());
    json::put_text(&mut stream, "aesIvMask", iv.as_str());
    json::put_text(&mut stream, "timeBase", "1/90000");
    json::put_text(&mut stream, "maxFrameRate", rate.as_str());
    json::put_number(&mut stream, "maxBitRate", cfg.max_bitrate as i64);
    json::put_bool(&mut stream, "receiverRtcpEventLog", true);
    json::put(&mut stream, "rtpExtensions", extensions());
    json::put(&mut stream, "resolutions", resolutions(cfg.width, cfg.height));
    stream
}

fn audio_value(cfg: &MirrorConfig, keys: &StreamKeys) -> (res: Value)
    ensures
        json_tree(res) == audio_tree(*cfg, *keys),
{
    let key = keys.key_hex();
    let iv = keys.iv_hex();
    let mut stream = json::object();
    json::put_number(&mut stream, "index", 1);
    json::put_text(&mut stream, "type", "audio_source");
    json::put_text(&mut stream, "codecName", "opus");
    json::put_text(&mut stream, "rtpProfile", "cast");
    json::put_number(&mut stream, "rtpPayloadType", RTP_PAYLOAD_OPUS as i64);
    json::put_number(&mut stream, "ssrc", AUDIO_SSRC as i64);
    json::put_number(&mut stream, "targetDelay", cfg.target_delay_ms as i64);
    json::put_text(&mut stream, "aesKey", key.as_str());
    json::put_text(&mut stream, "aesIvMask", iv.as_str());
    json::put_text(&mut stream, "timeBase", "1/48000");
    json::put_bool(&mut stream, "receiverRtcpEventLog", true);
    json::put(&mut stream, "rtpExtensions", extensions());
    json::put_number(&mut stream, "bitRate", 128_000);
    json::put_number(&mut stream, "channels", 2);
    json::put_number(&mut stream, "sampleRate", AUDIO_TIME_BASE as i64);
    stream
}

/// Builds the offer's JSON, with the keys for each stream. The audio keys are
/// used only where audio is offered.
///
/// The receiver is picky about the field names and silently ignores a malformed
/// offer.
pub fn build_offer(
    cfg: &MirrorConfig,
    seq_num: i64,
    video_keys: StreamKeys,
    audio_keys: StreamKeys,
) -> (res: (Value, Offer))
    ensures
        json_tree(res.0) == offer_tree(*cfg, seq_num, video_keys, audio_keys),
        res.1.seq_num == seq_num,
        res.1.streams@ == offered_streams(*cfg, video_keys, audio_keys),
{
    let mut streams: Vec<OfferedStream> = Vec::new();
    let mut items: Vec<Value> = Vec::new();
    items.push(video_value(cfg, &video_keys));
    streams.push(
        OfferedStream {
            index: 0,
            ssrc: VIDEO_SSRC,
            payload_type: RTP_PAYLOAD_H264,
            keys: video_keys,
            is_video: true,
        },
    );
    if cfg.with_audio {
        items.push(audio_value(cfg, &audio_keys));
        streams.push(
            OfferedStream {
                index: 1,
                ssrc: AUDIO_SSRC,
                payload_type: RTP_PAYLOAD_OPUS,
                keys: audio_keys,
                is_video: false,
            },
        );
    }
    assert(trees(items@) =~= offered_trees(*cfg, video_keys, audio_keys));
    let mut offer = json::object();
    json::put_text(&mut offer, "castMode", "mirroring");
    json::put_bool(&mut offer, "receiverGetStatus", true);
    json::put(&mut offer, "supportedStreams", json::array(items));
    let mut payload = json::object();
    json::put_text(&mut payload, "type", "OFFER");
    json::put_number(&mut payload, "seqNum", seq_num);
    json::put(&mut payload, "offer", offer);
    (payload, Offer { seq_num, streams })
}

/// Whether what an OFFER carries of a stream is what was kept of it for sending:
/// where it goes, what it carries, and the keys that it is encrypted with.
pub open spec fn announces(tree: JsonTree, stream: OfferedStream) -> bool {
    &&& member(tree, "index"@) == Some(JsonTree::Number(stream.index as int))
    &&& member(tree, "ssrc"@) == Some(JsonTree::Number(stream.ssrc as int))
    &&& member(tree, "rtpPayloadType"@) == Some(JsonTree::Number(stream.payload_type as int))
    &&& member(tree, "aesKey"@) == Some(JsonTree::Text(hex_text(stream.keys.key@, true)))
    &&& member(tree, "aesIvMask"@) == Some(JsonTree::Text(hex_text(stream.keys.iv_mask@, true)))
    &&& member(tree, "type"@) == Some(
        JsonTree::Text(
            if stream.is_video {
                "video_source"@
            } else {
                "audio_source"@
            },
        ),
    )
    &&& member(tree, "codecName"@) == Some(
        JsonTree::Text(
            if stream.is_video {
                "h264"@
            } else {
                "opus"@
            },
        ),
    )
    &&& member(tree, "timeBase"@) == Some(
        JsonTree::Text(
            if stream.is_video {
                "1/90000"@
            } else {
                "1/48000"@
            },
        ),
    )
    &&& member(tree, "rtpProfile"@) == Some(JsonTree::Text("cast"@))
}

/// The items of the list of streams that an OFFER carries.
pub open spec fn announced(offer: JsonTree) -> Option<Seq<JsonTree>> {
    match member(offer, "offer"@) {
        Some(inner) => match member(inner, "supportedStreams"@) {
            Some(JsonTree::Array(items)) => Some(items),
            _ => None,
        },
        None => None,
    }
}

proof fn stream_members_differ()
    ensures
        "index"@.len() == 5,
        "type"@.len() == 4,
        "codecName"@.len() == 9,
        "rtpProfile"@.len() == 10,
        "rtpPayloadType"@.len() == 14,
        "ssrc"@.len() == 4,
        "targetDelay"@.len() == 11,
        "aesKey"@.len() == 6,
        "aesIvMask"@.len() == 9,
        "timeBase"@.len() == 8,
        "maxFrameRate"@.len() == 12,
        "maxBitRate"@.len() == 10,
        "receiverRtcpEventLog"@.len() == 20,
        "rtpExtensions"@.len() == 13,
        "resolutions"@.len() == 11,
        "bitRate"@.len() == 7,
        "channels"@.len() == 8,
        "sampleRate"@.len() == 10,
        "type"@[0] != "ssrc"@[0],
        "codecName"@[0] != "aesIvMask"@[0],
        "rtpProfile"@[0] != "maxBitRate"@[0],
        "rtpProfile"@[0] != "sampleRate"@[0],
        "targetDelay"@[0] != "resolutions"@[0],
        "timeBase"@[0] != "channels"@[0],
        "maxBitRate"@[0] != "sampleRate"@[0],
{
    reveal_strlit("index");
    reveal_strlit("type");
    reveal_strlit("codecName");
    reveal_strlit("rtpProfile");
    reveal_strlit("rtpPayloadType");
    reveal_strlit("ssrc");
    reveal_strlit("targetDelay");
    reveal_strlit("aesKey");
    reveal_strlit("aesIvMask");
    reveal_strlit("timeBase");
    reveal_strlit("maxFrameRate");
    reveal_strlit("maxBitRate");
    reveal_strlit("receiverRtcpEventLog");
    reveal_strlit("rtpExtensions");
    reveal_strlit("resolutions");
    reveal_strlit("bitRate");
    reveal_strlit("channels");
    reveal_strlit("sampleRate");
}

/// An OFFER tells the receiver what will be sent: it carries the streams kept for
/// sending, in their order, each with the index, the source, the payload type and
/// the keys that were kept. There is one video stream, first, under the keys given
/// for it, and one audio stream after it where audio is asked for. No two have
/// the same index, source or payload type.
pub proof fn an_offer_announces_what_is_sent(
    cfg: MirrorConfig,
    seq_num: i64,
    video_keys: StreamKeys,
    audio_keys: StreamKeys,
)
    ensures
        ({
            let offer = offer_tree(cfg, seq_num, video_keys, audio_keys);
            let streams = offered_streams(cfg, video_keys, audio_keys);
            &&& member(offer, "type"@) == Some(JsonTree::Text("OFFER"@))
            &&& member(offer, "seqNum"@) == Some(JsonTree::Number(seq_num as int))
            &&& streams.len() == (if cfg.with_audio {
                2int
            } else {
                1
            })
            &&& streams[0].is_video && streams[0].keys == video_keys
            &&& cfg.with_audio ==> !streams[1].is_video && streams[1].keys == audio_keys
            &&& announced(offer) matches Some(items) && items.len() == streams.len() && forall|
                i: int,
            |
                0 <= i < streams.len() ==> announces(#[trigger] items[i], streams[i])
            &&& forall|i: int, j: int|
                0 <= i < j < streams.len() ==> {
                    &&& #[trigger] streams[i].index != #[trigger] streams[j].index
                    &&& streams[i].ssrc != streams[j].ssrc
                    &&& streams[i].payload_type != streams[j].payload_type
                }
        }),
{
    stream_members_differ();
    reveal_strlit("offer");
    reveal_strlit("seqNum");
    reveal_strlit("castMode");
    reveal_strlit("receiverGetStatus");
    reveal_strlit("supportedStreams");
    assert("offer"@.len() != "seqNum"@.len());
    assert(announces(video_tree(cfg, video_keys), video_stream(video_keys)));
    assert(announces(audio_tree(cfg, audio_keys), audio_stream(audio_keys)));
    let offer = offer_tree(cfg, seq_num, video_keys, audio_keys);
    let streams = offered_streams(cfg, video_keys, audio_keys);
    let items = offered_trees(cfg, video_keys, audio_keys);
    assert(announced(offer) == Some(items));
    assert forall|i: int| 0 <= i < streams.len() implies announces(
        #[trigger] items[i],
        streams[i],
    ) by {
        assert(i == 0 || i == 1);
    }
}

/// An OFFER asks for the picture that was configured, its size, rate and bitrate,
/// and of every stream for the same delay: the one configured.
pub proof fn an_offer_asks_for_what_was_configured(
    cfg: MirrorConfig,
    seq_num: i64,
    video_keys: StreamKeys,
    audio_keys: StreamKeys,
)
    ensures
        announced(offer_tree(cfg, seq_num, video_keys, audio_keys)) matches Some(items) ==> {
            &&& forall|i: int|
                0 <= i < items.len() ==> member(#[trigger] items[i], "targetDelay"@) == Some(
                    JsonTree::Number(cfg.target_delay_ms as int),
                )
            &&& member(items[0], "maxBitRate"@) == Some(JsonTree::Number(cfg.max_bitrate as int))
            &&& member(items[0], "maxFrameRate"@) == Some(
                JsonTree::Text(decimal(cfg.fps as nat) + "/1"@),
            )
            &&& member(items[0], "resolutions"@) matches Some(JsonTree::Array(sizes))
                && sizes.len() == 1 && member(sizes[0], "width"@) == Some(
                JsonTree::Number(cfg.width as int),
            ) && member(sizes[0], "height"@) == Some(JsonTree::Number(cfg.height as int))
        },
{
    stream_members_differ();
    reveal_strlit("offer");
    reveal_strlit("supportedStreams");
    reveal_strlit("width");
    reveal_strlit("height");
    assert("width"@.len() != "height"@.len());
    let offer = offer_tree(cfg, seq_num, video_keys, audio_keys);
    assert(announced(offer) == Some(offered_trees(cfg, video_keys, audio_keys)));
    assert(member(video_tree(cfg, video_keys), "targetDelay"@) == Some(
        JsonTree::Number(cfg.target_delay_ms as int),
    ));
    assert(member(audio_tree(cfg, audio_keys), "targetDelay"@) == Some(
        JsonTree::Number(cfg.target_delay_ms as int),
    ));
    assert(member(video_tree(cfg, video_keys), "resolutions"@) == Some(
        JsonTree::Array(seq![size_tree(cfg.width, cfg.height)]),
    ));
}

/// The whole numbers of a list, as 32-bit ones: what does not fit is cut to its
/// low bits, what is no such number is left out.
pub open spec fn whole_numbers(items: Seq<JsonTree>) -> Seq<u32>
    decreases items.len(),
{
    if items.len() == 0 {
        Seq::empty()
    } else {
        let before = whole_numbers(items.drop_last());
        match items.last() {
            JsonTree::Number(n) => if 0 <= n <= u64::MAX {
                before.push((n % 0x1_0000_0000) as u32)
            } else {
                before
            },
            _ => before,
        }
    }
}

/// The list of whole numbers under a key; empty where there is none.
pub open spec fn number_list(tree: JsonTree, key: Seq<char>) -> Seq<u32> {
    match member(tree, key) {
        Some(JsonTree::Array(items)) => whole_numbers(items),
        _ => Seq::empty(),
    }
}

fn read_number_list(value: &Value, key: &str) -> (res: Vec<u32>)
    ensures
        res@ == number_list(json_tree(*value), key@),
{
    let mut res: Vec<u32> = Vec::new();
    let found = match json::get(value, key) {
        Some(found) => found,
        None => {
            return res;
        },
    };
    if let Some(items) = json::as_array(found) {
        let ghost all = trees(items@);
        let mut i: usize = 0;
        assert(whole_numbers(all.take(0)) =~= Seq::<u32>::empty());
        while i < items.len()
            invariant
                i <= items@.len(),
                all == trees(items@),
                res@ == whole_numbers(all.take(i as int)),
            decreases items@.len() - i,
        {
            assert(all.take(i + 1).drop_last() =~= all.take(i as int));
            if let Some(n) = json::as_u64(&items[i]) {
                res.push((n % 0x1_0000_0000) as u32);
            }
            i += 1;
        }
        assert(all.take(i as int) =~= all);
    }
    res
}

/// The text under a key, empty where there is none.
pub open spec fn text_or_empty(tree: JsonTree, key: Seq<char>) -> Seq<char> {
    match text_member(tree, key) {
        Some(text) => text,
        None => ""@,
    }
}

/// What an ANSWER to offer `seq_num` says: the receiver's port and what it
/// accepted, or why it cannot be used.
pub open spec fn answer_of(payload: JsonTree, seq_num: i64) -> Result<AnswerView, ErrorView> {
    let kind = text_or_empty(payload, "type"@);
    let seq = number_member(payload, "seqNum"@, i64::MIN as int, i64::MAX as int);
    let result = text_member(payload, "result"@);
    if kind != "ANSWER"@ {
        Err(
            ErrorView::Protocol(
                "esperava ANSWER, veio "@ + kind + ": "@ + json_text(payload),
            ),
        )
    } else if seq is Some && seq != Some(seq_num as int) {
        Err(
            ErrorView::Protocol(
                "ANSWER from another negotiation (seqNum "@ + signed_decimal(seq->0)
                    + ", expected "@ + signed_decimal(seq_num as int) + ")"@,
            ),
        )
    } else if result != Some("ok"@) {
        Err(
            ErrorView::Unsupported(
                "the receiver refused the offer ("@ + (match result {
                    Some(text) => text,
                    None => "no result"@,
                }) + "): "@ + json_text(payload),
            ),
        )
    } else {
        match member(payload, "answer"@) {
            None => Err(ErrorView::Protocol("ANSWER without the `answer` field"@)),
            Some(answer) => match number_member(answer, "udpPort"@, 1, u16::MAX as int) {
                None => Err(
                    ErrorView::Protocol("ANSWER with no valid UDP port: "@ + json_text(answer)),
                ),
                Some(port) => if number_list(answer, "sendIndexes"@).len() == 0 {
                    Err(
                        ErrorView::Protocol("the receiver accepted none of the offered streams"@),
                    )
                } else {
                    Ok(
                        AnswerView {
                            udp_port: port as u16,
                            send_indexes: number_list(answer, "sendIndexes"@),
                            ssrcs: number_list(answer, "ssrcs"@),
                        },
                    )
                },
            },
        }
    }
}

fn read_port(answer: &Value) -> (res: Option<u16>)
    ensures
        res == (match number_member(json_tree(*answer), "udpPort"@, 1, u16::MAX as int) {
            Some(port) => Some(port as u16),
            None => None,
        }),
{
    match json::get(answer, "udpPort") {
        Some(found) => match json::as_u64(found) {
            Some(port) => if 1 <= port && port <= u16::MAX as u64 {
                Some(port as u16)
            } else {
                None
            },
            None => None,
        },
        None => None,
    }
}

/// Parses the receiver's ANSWER.
pub fn parse_answer(payload: &Value, seq_num: i64) -> (res: Result<Answer, NdError>)
    ensures
        match res {
            Ok(answer) => answer_of(json_tree(*payload), seq_num) == Ok::<AnswerView, ErrorView>(
                answer@,
            ),
            Err(error) => answer_of(json_tree(*payload), seq_num) == Err::<AnswerView, ErrorView>(
                error@,
            ),
        },
{
    let kind = match json::get_text(payload, "type") {
        Some(kind) => kind,
        None => "",
    };
    if !same_text(kind, "ANSWER") {
        let text = json::write(payload);
        return Err(
            NdError::Protocol(
                copied("esperava ANSWER, veio ").concat(kind).concat(": ").concat(text.as_str()),
            ),
        );
    }
    let seq = match json::get(payload, "seqNum") {
        Some(found) => json::as_i64(found),
        None => None,
    };
    if let Some(seq) = seq {
        if seq != seq_num {
            let theirs = signed_text(seq);
            let ours = signed_text(seq_num);
            return Err(
                NdError::Protocol(
                    copied("ANSWER from another negotiation (seqNum ").concat(
                        theirs.as_str(),
                    ).concat(", expected ").concat(ours.as_str()).concat(")"),
                ),
            );
        }
    }
    let result = json::get_text(payload, "result");
    let accepted = match result {
        Some(text) => same_text(text, "ok"),
        None => false,
    };
    if !accepted {
        // Not a protocol failure: this is how the caller tells "this device has
        // no mirroring" from "the session broke".
        let text = json::write(payload);
        return Err(
            NdError::Unsupported(
                copied("the receiver refused the offer (").concat(
                    match result {
                        Some(text) => text,
                        None => "no result",
                    },
                ).concat("): ").concat(text.as_str()),
            ),
        );
    }
    let answer = match json::get(payload, "answer") {
        Some(answer) => answer,
        None => {
            return Err(protocol_error("ANSWER without the `answer` field"));
        },
    };
    let udp_port = match read_port(answer) {
        Some(port) => port,
        None => {
            let text = json::write(answer);
            return Err(
                NdError::Protocol(
                    copied("ANSWER with no valid UDP port: ").concat(text.as_str()),
                ),
            );
        },
    };
    let send_indexes = read_number_list(answer, "sendIndexes");
    if send_indexes.len() == 0 {
        return Err(protocol_error("the receiver accepted none of the offered streams"));
    }
    let ssrcs = read_number_list(answer, "ssrcs");
    Ok(Answer { udp_port, send_indexes, ssrcs })
}

/// A usable ANSWER always has a port and at least one accepted stream, and is
/// never one to another negotiation.
pub proof fn a_usable_answer_is_complete(payload: JsonTree, seq_num: i64)
    ensures
        answer_of(payload, seq_num) matches Ok(answer) ==> {
            &&& answer.udp_port != 0
            &&& answer.send_indexes.len() > 0
            &&& (number_member(payload, "seqNum"@, i64::MIN as int, i64::MAX as int) matches Some(
                n,
            ) ==> n == seq_num)
        },
{
}

/// What may happen while waiting for the ANSWER.
pub enum NegotiationEvent<'a> {
    /// The time to answer is up.
    TimedOut,
    /// The control channel closed.
    Closed,
    /// The receiver sent something.
    Message { namespace: &'a str, payload: &'a Value },
}

/// What an event decides: `None` to go on waiting.
pub open spec fn negotiation_outcome(event: NegotiationEvent<'_>, seq_num: i64) -> Option<
    Result<AnswerView, ErrorView>,
> {
    match event {
        NegotiationEvent::TimedOut => Some(
            Err(
                ErrorView::Unsupported(
                    "the receiver did not answer the offer within "@ + decimal(
                        ANSWER_TIMEOUT_SECS as nat,
                    ) + "s"@,
                ),
            ),
        ),
        NegotiationEvent::Closed => Some(
            Err(ErrorView::Protocol("the channel closed during the negotiation"@)),
        ),
        NegotiationEvent::Message { namespace, payload } => {
            let tree = json_tree(*payload);
            let kind = text_member(tree, "type"@);
            if namespace@ != NS_WEBRTC@ {
                None
            } else if kind == Some("ANSWER"@) {
                Some(answer_of(tree, seq_num))
            } else if kind == Some("ANSWER_ERROR"@) || kind == Some("ERROR"@) || kind == Some(
                "INVALID"@,
            ) {
                Some(
                    Err(
                        ErrorView::Unsupported(
                            "the receiver refused the mirroring offer: "@ + json_text(tree),
                        ),
                    ),
                )
            } else {
                None
            }
        },
    }
}

/// Decides what an event means to the negotiation. The ANSWER carries no request
/// id, so it arrives among whatever else the receiver says.
pub fn negotiate(event: NegotiationEvent<'_>, seq_num: i64) -> (res: Option<Result<Answer, NdError>>)
    ensures
        match res {
            None => negotiation_outcome(event, seq_num) is None,
            Some(Ok(answer)) => negotiation_outcome(event, seq_num) == Some(
                Ok::<AnswerView, ErrorView>(answer@),
            ),
            Some(Err(error)) => negotiation_outcome(event, seq_num) == Some(
                Err::<AnswerView, ErrorView>(error@),
            ),
        },
{
    match event {
        NegotiationEvent::TimedOut => {
            let secs = number_text(ANSWER_TIMEOUT_SECS);
            Some(
                Err(
                    NdError::Unsupported(
                        copied("the receiver did not answer the offer within ").concat(
                            secs.as_str(),
                        ).concat("s"),
                    ),
                ),
            )
        },
        NegotiationEvent::Closed => Some(
            Err(protocol_error("the channel closed during the negotiation")),
        ),
        NegotiationEvent::Message { namespace, payload } => {
            if !same_text(namespace, NS_WEBRTC) {
                return None;
            }
            let kind = match json::get_text(payload, "type") {
                Some(kind) => kind,
                None => {
                    return None;
                },
            };
            if same_text(kind, "ANSWER") {
                return Some(parse_answer(payload, seq_num));
            }
            // The receiver reports problems here instead of closing the
            // connection.
            if same_text(kind, "ANSWER_ERROR") || same_text(kind, "ERROR") || same_text(
                kind,
                "INVALID",
            ) {
                let text = json::write(payload);
                return Some(
                    Err(
                        NdError::Unsupported(
                            copied("the receiver refused the mirroring offer: ").concat(
                                text.as_str(),
                            ),
                        ),
                    ),
                );
            }
            None
        },
    }
}

/// Numbers as a list carries them.
pub open spec fn numbers(list: Seq<u32>) -> Seq<JsonTree> {
    Seq::new(list.len(), |i: int| JsonTree::Number(list[i] as int))
}

proof fn numbers_read_back(list: Seq<u32>)
    ensures
        whole_numbers(numbers(list)) == list,
    decreases list.len(),
{
    if list.len() == 0 {
        assert(whole_numbers(numbers(list)) =~= list);
    } else {
        numbers_read_back(list.drop_last());
        assert(numbers(list).drop_last() =~= numbers(list.drop_last()));
        assert(list.drop_last().push(list.last()) =~= list);
    }
}

/// An ANSWER is read as it was written: the port, the indexes accepted and the
/// receiver's own sources, each from its own member, in order. It is one to our
/// offer where it numbers it or numbers none.
pub proof fn an_answer_is_read_as_written(
    payload: JsonTree,
    answer: JsonTree,
    seq_num: i64,
    port: u16,
    indexes: Seq<u32>,
    ssrcs: Seq<u32>,
)
    requires
        member(payload, "type"@) == Some(JsonTree::Text("ANSWER"@)),
        member(payload, "seqNum"@) is None || member(payload, "seqNum"@) == Some(
            JsonTree::Number(seq_num as int),
        ),
        member(payload, "result"@) == Some(JsonTree::Text("ok"@)),
        member(payload, "answer"@) == Some(answer),
        member(answer, "udpPort"@) == Some(JsonTree::Number(port as int)),
        port != 0,
        member(answer, "sendIndexes"@) == Some(JsonTree::Array(numbers(indexes))),
        indexes.len() > 0,
        member(answer, "ssrcs"@) == Some(JsonTree::Array(numbers(ssrcs))),
    ensures
        answer_of(payload, seq_num) == Ok::<AnswerView, ErrorView>(
            AnswerView { udp_port: port, send_indexes: indexes, ssrcs },
        ),
{
    numbers_read_back(indexes);
    numbers_read_back(ssrcs);
}

/// An ANSWER is refused where it is none, answers another offer, or does not name
/// a port; and where the receiver says no, that is told apart from a broken
/// exchange.
pub proof fn what_is_no_answer_is_refused(payload: JsonTree, seq_num: i64, number: i64)
    ensures
        member(payload, "type"@) != Some(JsonTree::Text("ANSWER"@)) ==> (answer_of(payload, seq_num)
            matches Err(ErrorView::Protocol(_))),
        member(payload, "type"@) == Some(JsonTree::Text("ANSWER"@)) && member(payload, "seqNum"@)
            == Some(JsonTree::Number(number as int)) && number != seq_num ==> (answer_of(
            payload,
            seq_num,
        ) matches Err(ErrorView::Protocol(_))),
        member(payload, "type"@) == Some(JsonTree::Text("ANSWER"@)) && member(payload, "seqNum"@)
            is None && member(payload, "result"@) != Some(JsonTree::Text("ok"@)) ==> (answer_of(
            payload,
            seq_num,
        ) matches Err(ErrorView::Unsupported(_))),
        member(payload, "answer"@) is None ==> answer_of(payload, seq_num) is Err,
        member(payload, "answer"@) matches Some(answer) ==> {
            let port = member(answer, "udpPort"@);
            &&& port is None ==> answer_of(payload, seq_num) is Err
            &&& port matches Some(JsonTree::Number(n)) ==> (n <= 0 || n > 65_535 ==> answer_of(
                payload,
                seq_num,
            ) is Err)
            &&& member(answer, "sendIndexes"@) is None ==> answer_of(payload, seq_num) is Err
        },
{
    reveal_strlit("ANSWER");
    reveal_strlit("");
    assert("ANSWER"@.len() != ""@.len());
}

/// While an ANSWER is awaited only its own namespace counts: an ANSWER there
/// decides, a refusal there ends the wait as unsupported, and so does the time
/// running out, while anything else is passed over.
pub proof fn only_the_negotiation_decides(
    namespace: &str,
    payload: &Value,
    seq_num: i64,
    kind: Seq<char>,
)
    requires
        member(json_tree(*payload), "type"@) == Some(JsonTree::Text(kind)),
    ensures
        ({
            let outcome = negotiation_outcome(
                NegotiationEvent::Message { namespace, payload },
                seq_num,
            );
            &&& namespace@ != NS_WEBRTC@ ==> outcome is None
            &&& namespace@ == NS_WEBRTC@ && kind == "ANSWER"@ ==> outcome == Some(
                answer_of(json_tree(*payload), seq_num),
            )
            &&& namespace@ == NS_WEBRTC@ && (kind == "ANSWER_ERROR"@ || kind == "ERROR"@ || kind
                == "INVALID"@) ==> (outcome matches Some(Err(ErrorView::Unsupported(_))))
            &&& kind != "ANSWER"@ && kind != "ANSWER_ERROR"@ && kind != "ERROR"@ && kind
                != "INVALID"@ ==> outcome is None
        }),
        negotiation_outcome(NegotiationEvent::TimedOut, seq_num) matches Some(
            Err(ErrorView::Unsupported(_)),
        ),
        negotiation_outcome(NegotiationEvent::Closed, seq_num) matches Some(
            Err(ErrorView::Protocol(_)),
        ),
{
    reveal_strlit("ANSWER");
    reveal_strlit("ANSWER_ERROR");
    reveal_strlit("ERROR");
    reveal_strlit("INVALID");
    assert("ANSWER"@.len() == 6 && "ANSWER_ERROR"@.len() == 12 && "ERROR"@.len() == 5
        && "INVALID"@.len() == 7);
}

/// The first stream of a kind that was accepted is the one given out: one before
/// it of the same kind was not accepted.
pub proof fn the_first_accepted_stream_is_given(
    streams: Seq<OfferedStream>,
    answer: AnswerView,
    is_video: bool,
    i: int,
)
    requires
        0 <= i < streams.len(),
        streams[i].is_video == is_video,
        answer.send_indexes.contains(streams[i].index),
        forall|j: int|
            0 <= j < i && (#[trigger] streams[j]).is_video == is_video
                ==> !answer.send_indexes.contains(streams[j].index),
    ensures
        first_accepted(streams, answer, is_video) == Some(streams[i]),
    decreases streams.len(),
{
    if i > 0 {
        let rest = streams.skip(1);
        assert(!(is_accepted(answer, streams[0]) && streams[0].is_video == is_video));
        assert forall|j: int| 0 <= j < i - 1 && (#[trigger] rest[j]).is_video
            == is_video implies !answer.send_indexes.contains(rest[j].index) by {
            assert(rest[j] == streams[j + 1]);
        }
        the_first_accepted_stream_is_given(rest, answer, is_video, i - 1);
    }
}

/// A film is held back by 400 ms, anything else by 150.
pub proof fn a_film_is_held_back_longer(profile: Profile)
    ensures
        profile == Profile::Film ==> delay_under(profile) == 400,
        profile != Profile::Film ==> delay_under(profile) == 150,
{
}

/// An OFFER is one for mirroring: it says so, goes by the number it was given, and
/// asks the receiver to tell its status.
pub proof fn an_offer_is_one_for_mirroring(
    cfg: MirrorConfig,
    seq_num: i64,
    video_keys: StreamKeys,
    audio_keys: StreamKeys,
)
    ensures
        ({
            let tree = offer_tree(cfg, seq_num, video_keys, audio_keys);
            &&& member(tree, "type"@) == Some(JsonTree::Text("OFFER"@))
            &&& member(tree, "seqNum"@) == Some(JsonTree::Number(seq_num as int))
            &&& member(tree, "offer"@) matches Some(offer) && member(offer, "castMode"@) == Some(
                JsonTree::Text("mirroring"@),
            ) && member(offer, "receiverGetStatus"@) == Some(JsonTree::Bool(true))
        }),
{
    reveal_strlit("type");
    reveal_strlit("seqNum");
    reveal_strlit("offer");
    reveal_strlit("castMode");
    reveal_strlit("receiverGetStatus");
    reveal_strlit("supportedStreams");
    assert("type"@.len() != "seqNum"@.len());
    assert("type"@.len() != "offer"@.len());
    assert("seqNum"@.len() != "offer"@.len());
    assert("castMode"@.len() != "receiverGetStatus"@.len());
    assert("castMode"@.len() != "supportedStreams"@.len());
    assert("receiverGetStatus"@.len() != "supportedStreams"@.len());
}

/// Every stream that is offered lets the receiver set its delay.
pub proof fn every_stream_lets_its_delay_be_set(
    cfg: MirrorConfig,
    seq_num: i64,
    video_keys: StreamKeys,
    audio_keys: StreamKeys,
)
    ensures
        announced(offer_tree(cfg, seq_num, video_keys, audio_keys)) matches Some(items) ==> forall|
            i: int,
        |
            0 <= i < items.len() ==> (member(#[trigger] items[i], "rtpExtensions"@) matches Some(
                JsonTree::Array(extensions),
            ) && extensions.contains(JsonTree::Text("adaptive_playout_delay"@))),
{
    stream_members_differ();
    reveal_strlit("offer");
    reveal_strlit("supportedStreams");
    let offer = offer_tree(cfg, seq_num, video_keys, audio_keys);
    assert(announced(offer) == Some(offered_trees(cfg, video_keys, audio_keys)));
    let extensions = seq![JsonTree::Text("adaptive_playout_delay"@)];
    assert(extensions[0] == JsonTree::Text("adaptive_playout_delay"@));
    assert(member(video_tree(cfg, video_keys), "rtpExtensions"@) == Some(
        JsonTree::Array(extensions),
    ));
    assert(member(audio_tree(cfg, audio_keys), "rtpExtensions"@) == Some(
        JsonTree::Array(extensions),
    ));
}

} // verus!
