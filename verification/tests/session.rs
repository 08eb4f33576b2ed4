use bignetscreen::cast::{CastEvent, NS_MEDIA};
use bignetscreen::error::NdError;
use bignetscreen::http::CONTENT_TYPE;
use bignetscreen::latency::{self, Latency, Profile};
use bignetscreen::pipeline::{
    chromecast_pipeline_description, AudioSource, GpuDriver, H264Encoder, Overrides, PipelineEvent,
    StreamConfig, VideoSource,
};
use bignetscreen::session::{
    configure, detect_gpu_driver, latency_preference, media_error, media_session_id,
    next_setup_step, playback_position, rate_request, set_latency_preference, show_step,
    CastSession, DrainController, DrmEntry, LagMeter, LatencyPreference, PreferenceState,
    SessionEvent, SessionStep, SetupStep, DRAIN_RATE, LAG_STALL_MARGIN_NS, LAG_TARGET_MAX_NS,
    LAG_TARGET_MIN_NS, LAG_TIGHTEN_AFTER, MAX_STALL_PROBES, NORMAL_RATE,
};
use bignetscreen::sink::{SinkState, SinkStatus};
use serde_json::Value;

fn json(text: &str) -> Value {
    serde_json::from_str(text).unwrap()
}

/// Seconds as nanoseconds.
fn ns(seconds: f64) -> i64 {
    (seconds * 1e9).round() as i64
}

fn drain_at(target: f64) -> DrainController {
    DrainController {
        target: ns(target),
        rate: 1.2f64.to_bits(),
        enabled: true,
        stable: 0,
        floor: LAG_TARGET_MIN_NS,
        stalls: 0,
        frozen: false,
    }
}

#[test]
fn drain_accelerates_only_above_the_target() {
    let drain = drain_at(0.9);
    // Well behind: speed up.
    assert_eq!(drain.wanted_rate(ns(2.6) as i128).map(f64::from_bits), Some(1.2));
    // Close enough: back to normal.
    assert_eq!(drain.wanted_rate(ns(0.5) as i128).map(f64::from_bits), Some(1.0));
    // Within the hysteresis: do not flip back and forth for nothing.
    assert_eq!(drain.wanted_rate(ns(1.0) as i128), None);
    assert_eq!(f64::from_bits(DRAIN_RATE), 1.2);
    assert_eq!(f64::from_bits(NORMAL_RATE), 1.0);
}

#[test]
fn drain_backs_off_when_the_receiver_stalls() {
    // Each stall loosens the target: that is how the logic adapts to a device
    // that cannot hold a small buffer.
    let mut drain = drain_at(0.9);
    drain.on_stall();
    assert_eq!(drain.target, ns(1.15));
    // The stall also becomes a floor: nothing below it is tried again.
    assert!(drain.floor > LAG_TARGET_MIN_NS);

    // Successive stalls lead to freezing and then to giving up — at no point does
    // the target run away unbounded.
    for _ in 0..20 {
        drain.on_stall();
    }
    assert!(drain.target <= LAG_TARGET_MAX_NS, "{}", drain.target);
    assert!(!drain.enabled, "it should have given up on draining");
}

#[test]
fn drain_converges_downwards_while_stable() {
    // With no stalls the target tightens on its own — that is how it approaches
    // the device's floor without stuttering along the way.
    let mut drain = drain_at(0.9);
    for _ in 0..LAG_TIGHTEN_AFTER {
        drain.on_stable();
    }
    assert!(drain.target < ns(0.9), "it should have tightened: {}", drain.target);
    assert_eq!(drain.target, ns(0.8));

    // And never below the known floor.
    for _ in 0..500 {
        drain.on_stable();
    }
    assert!(drain.target >= LAG_TARGET_MIN_NS, "{}", drain.target);
}

#[test]
fn a_stall_stops_further_tightening() {
    let mut drain = drain_at(0.7);
    let stalled_at = drain.target;
    drain.on_stall();
    assert!(drain.target > stalled_at, "it should have loosened");

    // Even if stable forever, the target never returns to the value that stalled.
    for _ in 0..500 {
        drain.on_stable();
    }
    assert!(
        drain.target > stalled_at,
        "went back to a target that already stalled ({stalled_at}): {}",
        drain.target
    );
}

#[test]
fn drain_freezes_after_repeated_stalls() {
    let mut drain = drain_at(0.9);
    for _ in 0..MAX_STALL_PROBES {
        drain.on_stall();
    }
    assert!(drain.frozen, "it should have frozen");

    let settled = drain.target;
    for _ in 0..1000 {
        drain.on_stable();
    }
    assert_eq!(drain.target, settled, "once frozen it must not tighten again");
}

#[test]
fn stall_floor_keeps_a_real_margin() {
    // A narrow margin made the target scrape the point that had already failed.
    let mut drain = drain_at(1.0);
    drain.on_stall();
    assert!(
        drain.floor >= ns(1.0) + LAG_STALL_MARGIN_NS,
        "floor with no margin: {}",
        drain.floor
    );
}

#[test]
fn drain_gives_up_when_even_the_frozen_target_stalls() {
    // If not even the final target holds, pushing on would only cause more stutter.
    let mut drain = drain_at(0.9);
    for _ in 0..MAX_STALL_PROBES {
        drain.on_stall();
    }
    assert!(drain.frozen && drain.enabled);

    drain.on_stall();
    assert!(!drain.enabled, "it should have given up on draining");
    assert_eq!(
        drain.wanted_rate(ns(5.0) as i128),
        None,
        "having given up, it must not touch the rate again"
    );
}

#[test]
fn smooth_preference_disables_draining() {
    let mut state = PreferenceState::new();
    let mut latency = Latency::new();
    set_latency_preference(&mut state, LatencyPreference::Smooth);
    let drain = DrainController::new(None, None, true, latency_preference(&state, &latency));
    assert!(
        !drain.enabled,
        "with smoothness prioritised there is no draining"
    );

    set_latency_preference(&mut state, LatencyPreference::Responsive);
    let drain = DrainController::new(None, None, true, latency_preference(&state, &latency));
    assert!(drain.enabled);

    // The film profile decides it too.
    latency::set(&mut latency, Profile::Film);
    assert_eq!(latency_preference(&state, &latency), LatencyPreference::Smooth);
}

#[test]
fn drain_can_be_disabled() {
    let mut drain = drain_at(0.9);
    drain.give_up();
    assert_eq!(drain.wanted_rate(ns(5.0) as i128), None);
    let drain = DrainController::new(Some(7), Some(9), false, LatencyPreference::Responsive);
    assert!(!drain.enabled);
    assert_eq!((drain.target, drain.rate), (7, 9));
}

#[test]
fn extreme_targets_do_not_overflow() {
    let mut drain = drain_at(0.9);
    drain.target = i64::MAX;
    assert_eq!(drain.wanted_rate(i64::MAX as i128), None);
    drain.on_stall();
    assert_eq!(drain.target, LAG_TARGET_MAX_NS);
    let mut drain = drain_at(0.9);
    drain.target = i64::MIN + 5;
    drain.floor = i64::MIN;
    for _ in 0..LAG_TIGHTEN_AFTER {
        drain.on_stable();
    }
    assert_eq!(drain.target, i64::MIN);
}

fn observe(meter: &mut LagMeter, payload: &Value, now: u64) {
    let position = playback_position(payload).map(|bits| ns(f64::from_bits(bits)));
    meter.observe(position, now);
}

#[test]
fn lag_meter_ignores_samples_before_the_stream_starts() {
    // Before the receiver connects there is no stream, and the arithmetic makes no
    // sense.
    let mut meter = LagMeter::new();
    observe(&mut meter, &json(r#"{"status": [{"currentTime": 3.0}]}"#), 0);
    assert!(meter.last().is_none());
}

#[test]
fn lag_meter_detects_a_stall() {
    let mut meter = LagMeter::new();
    let start = 1_000_000_000;
    let now = start + ns(10.0) as u64;
    meter.start(start);
    // First sample: with no earlier reference, there is no stall.
    observe(&mut meter, &json(r#"{"status": [{"currentTime": 8.0}]}"#), now);
    assert!(!meter.stalled);
    assert_eq!(meter.last(), Some(ns(2.0) as i128));

    // A second sample right after, with the position essentially still: the buffer
    // emptied.
    let now = now + ns(0.6) as u64;
    observe(&mut meter, &json(r#"{"status": [{"currentTime": 8.05}]}"#), now);
    assert!(meter.stalled, "a stalled position should register a stall");
    // The stopwatch starts once.
    meter.start(0);
    assert_eq!(meter.started, Some(start));
}

#[test]
fn the_median_resists_the_spikes_at_the_start() {
    let mut meter = LagMeter::new();
    assert_eq!(meter.median(), None);
    meter.samples = vec![9, 1, 2, 3, 100];
    assert_eq!(meter.median(), Some(3));
    meter.samples = vec![4, 1, 3, 2];
    assert_eq!(meter.median(), Some(3));
}

#[test]
fn media_session_id_is_extracted() {
    let payload = json(r#"{"status": [{"mediaSessionId": 7, "currentTime": 1.0}]}"#);
    assert_eq!(media_session_id(&payload), Some(7));
    assert_eq!(media_session_id(&json(r#"{"status": []}"#)), None);
    // A position of nothing, or less, is no position.
    assert_eq!(playback_position(&json(r#"{"status": [{"currentTime": 0}]}"#)), None);
    assert_eq!(playback_position(&json(r#"{"status": [{"currentTime": -1}]}"#)), None);
    assert_eq!(
        playback_position(&json(r#"{"status": [{"currentTime": 4}]}"#)).map(f64::from_bits),
        Some(4.0)
    );
}

fn media_event(payload: &str) -> CastEvent {
    CastEvent { namespace: NS_MEDIA.to_string(), payload: json(payload) }
}

#[test]
fn load_failure_is_reported_as_an_error() {
    let event = media_event(r#"{"type": "LOAD_FAILED", "reason": "MEDIA_UNSUPPORTED"}"#);
    let err = media_error(&event).expect("it should become an error");
    assert!(err.contains("MEDIA_UNSUPPORTED"), "{err}");
    assert_eq!(
        err,
        "the receiver refused the media (LOAD_FAILED: \"MEDIA_UNSUPPORTED\") — the container \
         or the codec is not accepted by this device"
    );
    let event = media_event(r#"{"type": "LOAD_CANCELLED", "detailedErrorCode": 104}"#);
    assert!(media_error(&event).unwrap().contains("(LOAD_CANCELLED: 104)"));
    let event = media_event(r#"{"type": "ERROR"}"#);
    assert!(media_error(&event).unwrap().contains("(ERROR: no detail)"));
}

#[test]
fn ordinary_media_status_is_not_an_error() {
    let event = media_event(r#"{"type": "MEDIA_STATUS", "status": [{"playerState": "PLAYING"}]}"#);
    assert!(media_error(&event).is_none());
    let event = media_event(r#"{"type": "MEDIA_STATUS", "status": [{"idleReason": "ERROR"}]}"#);
    assert_eq!(
        media_error(&event).as_deref(),
        Some("the receiver stopped playback with a media error")
    );
    assert!(media_error(&media_event(r#"{"type": "PONG"}"#)).is_none());
    assert!(media_error(&media_event("null")).is_none());
}

fn entry(name: &str, module: Option<&str>) -> DrmEntry {
    DrmEntry { name: name.into(), module: module.map(|m| m.into()) }
}

#[test]
fn gpu_detection_never_panics() {
    assert_eq!(detect_gpu_driver(&[]), GpuDriver::Unknown);
    // By name, not by the order of the directory; a connector is no card.
    let entries = [
        entry("card1-eDP-1", Some("i915")),
        entry("renderD128", Some("i915")),
        entry("card2", Some("amdgpu")),
        entry("card10", Some("xe")),
        entry("card0", Some("simpledrm")),
        entry("card1", None),
    ];
    assert_eq!(detect_gpu_driver(&entries), GpuDriver::Xe);
}

#[test]
fn content_type_matches_the_muxer() {
    // The pipeline uses matroskamux; the LOAD has to announce the same container,
    // or the Default Media Receiver refuses the media.
    let cfg = StreamConfig::default();
    let desc = chromecast_pipeline_description(&cfg, &VideoSource::Test);
    assert!(desc.contains("matroskamux"), "{desc}");
    assert_eq!(CONTENT_TYPE, "video/x-matroska");
}

fn session() -> CastSession {
    CastSession::new(drain_at(0.9))
}

fn ended(step: SessionStep) -> Result<(), String> {
    match step {
        SessionStep::End(result) => result.map_err(|e| e.message()),
        other => panic!("{other:?}"),
    }
}

#[test]
fn the_deadline_is_for_the_first_client_only() {
    let mut cast = session();
    assert_eq!(
        ended(cast.step(SessionEvent::FirstClientDue, 0)),
        Err(
            "protocol: the receiver did not fetch the stream within 20s — the receiver app ter \
             sido fechado na TV"
                .to_string()
        )
    );
    cast.started = true;
    assert!(matches!(
        cast.step(SessionEvent::FirstClientDue, 0),
        SessionStep::DisarmDeadline
    ));
}

#[test]
fn warnings_do_not_kill_the_session() {
    let mut cast = session();
    let warning = PipelineEvent::Warning { message: "late".into() };
    assert!(matches!(
        cast.step(SessionEvent::Pipeline(Some(warning)), 0),
        SessionStep::Continue
    ));
    assert!(matches!(
        cast.step(SessionEvent::Pipeline(None), 0),
        SessionStep::Continue
    ));
    assert_eq!(ended(cast.step(SessionEvent::Pipeline(Some(PipelineEvent::Eos)), 0)), Ok(()));
    let error = PipelineEvent::Error { message: "boom".into(), debug: "".into() };
    assert_eq!(
        ended(cast.step(SessionEvent::Pipeline(Some(error)), 0)),
        Err("gstreamer: boom".to_string())
    );
    assert_eq!(ended(cast.step(SessionEvent::Cancelled, 0)), Ok(()));
    assert_eq!(
        ended(cast.step(SessionEvent::ChannelClosed, 0)),
        Err("protocol: the receiver closed the control channel".to_string())
    );
    assert_eq!(
        ended(cast.step(SessionEvent::Served(Err(NdError::Cancelled)), 0)),
        Err("cancelled".to_string())
    );
}

#[test]
fn a_report_is_a_sample_of_the_delay() {
    let mut cast = session();
    cast.lag.start(0);
    let event = media_event(r#"{"type": "MEDIA_STATUS"}"#);
    assert!(matches!(
        cast.step(SessionEvent::Receiver(event, Some(ns(1.0))), ns(3.0) as u64),
        SessionStep::Continue
    ));
    assert_eq!(cast.lag.last(), Some(ns(2.0) as i128));
    let event = media_event(r#"{"type": "LOAD_FAILED"}"#);
    assert!(ended(cast.step(SessionEvent::Receiver(event, None), 0)).is_err());
}

#[test]
fn a_probe_asks_for_the_rate_that_drains() {
    let mut cast = session();
    assert!(cast.on_probe(&Err(NdError::Cancelled), None, 0).is_none());
    assert_eq!(cast.drain.stable, 0, "a failed probe changes nothing");
    cast.lag.start(0);
    let status = Ok(json(r#"{"status": [{"mediaSessionId": 4, "currentTime": 1.0}]}"#));
    let change = cast.on_probe(&status, Some(ns(1.0)), ns(4.0) as u64).unwrap();
    assert_eq!(change.session_id, 4);
    assert_eq!(f64::from_bits(change.rate), 1.2);
    assert_eq!(cast.drain.stable, 1);
    // Two seconds later it has hardly advanced: a stall.
    assert!(cast.on_probe(&status, Some(ns(1.1)), ns(6.0) as u64).is_some());
    assert_eq!(cast.drain.stalls, 1);
    assert!(cast.on_probe(&Ok(json("{}")), None, ns(8.0) as u64).is_none());
    assert_eq!(
        rate_request(4),
        json(r#"{"type": "SET_PLAYBACK_RATE", "mediaSessionId": 4}"#)
    );
}

#[test]
fn a_cast_is_configured_within_the_limit() {
    let cfg = configure(
        (3840, 2160),
        (1280, 720),
        60,
        &[H264Encoder::X264],
        AudioSource::Silence,
        Overrides::none(),
    )
    .unwrap();
    assert_eq!((cfg.width, cfg.height, cfg.fps), (1280, 720, 60));
    let error = configure(
        (3840, 2160),
        (1280, 720),
        60,
        &[],
        AudioSource::Silence,
        Overrides::none(),
    )
    .unwrap_err();
    assert_eq!(
        error.message(),
        "unsupported: no H.264 encoder available — install gst-plugins-ugly (x264) ou \
         gst-plugins-bad (openh264/va)"
    );
}

#[test]
fn the_server_listens_before_the_receiver_is_told() {
    let mut status = SinkStatus::new();
    let mut order = vec![];
    let mut states = vec![];
    let mut step = next_setup_step(None);
    while let Some(next) = step {
        show_step(&mut status, next);
        order.push(next);
        states.push(status.state());
        step = next_setup_step(Some(next));
    }
    assert_eq!(
        order,
        vec![
            SetupStep::BindServer,
            SetupStep::BuildPipeline,
            SetupStep::ConnectChannel,
            SetupStep::LaunchApp,
            SetupStep::LoadMedia,
            SetupStep::Serve,
        ]
    );
    assert_eq!(states[0], SinkState::Connecting);
    assert_eq!(states[2], SinkState::WaitSocket);
    assert_eq!(states[5], SinkState::WaitStreaming);
}
