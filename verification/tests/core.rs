use bignetscreen::audio_state::{read_default, Defaults};
use bignetscreen::capture::{
    CaptureSource, CapturedAudio, CapturedVideo, MediaPlayback, SourceType,
};
use bignetscreen::dummy::DummyProvider;
use bignetscreen::error::NdError;
use bignetscreen::latency::{
    current, is_film, Latency, Profile, FILM_PIPELINE_LATENCY_MS, FILM_RTP_LATENCY_MS,
};
use bignetscreen::media::{
    playback_action, MediaCommand, MediaKind, PlaybackAction, PlaybackState,
};
use bignetscreen::pipeline::VideoSource;
use bignetscreen::provider::{opening_event, DiscoveryEvent, MetaProvider};
use bignetscreen::radio::{is_quiet, quiet, Radio};
use bignetscreen::settings::{self, Protocol, Quality, Settings, SettingsStore};
use bignetscreen::sink::{sanitize_name, SinkInfo, SinkKind, SinkState, SinkStatus};

#[test]
fn responsive_is_the_default() {
    let mut latency = Latency::new();
    assert_eq!(current(&latency), Profile::Responsive);
    bignetscreen::latency::set(&mut latency, Profile::Responsive);
    assert_eq!(current(&latency), Profile::Responsive);
    assert!(!is_film(&latency));
    assert_eq!(Profile::default(), Profile::Responsive);
}

#[test]
fn film_can_be_turned_on_and_off() {
    let mut latency = Latency::new();
    bignetscreen::latency::set(&mut latency, Profile::Film);
    assert!(is_film(&latency));
    bignetscreen::latency::set(&mut latency, Profile::Responsive);
    assert!(!is_film(&latency));
}

#[test]
fn film_buffers_enough_to_matter_but_stays_usable() {
    // Below ~150 ms there is not enough slack to absorb Wi-Fi variance, and the
    // profile would cost delay without buying smoothness. Above ~1 s dragging a
    // window onto the screen stops feeling connected to the hand doing it.
    assert!(FILM_PIPELINE_LATENCY_MS >= 150);
    assert!(FILM_PIPELINE_LATENCY_MS <= 1000);
    // The jitter buffer lives inside the pipeline's budget, not beyond it.
    assert!(FILM_RTP_LATENCY_MS < FILM_PIPELINE_LATENCY_MS);
}

#[test]
fn a_song_has_nothing_to_show() {
    assert!(!MediaKind::Music.has_picture());
    assert!(MediaKind::Video.has_picture());
    assert!(MediaKind::Photo.has_picture());
}

#[test]
fn only_a_photo_stands_still() {
    assert!(MediaKind::Photo.is_still());
    assert!(!MediaKind::Video.is_still());
    assert!(!MediaKind::Music.is_still());
}

#[test]
fn a_control_acts_only_where_it_can() {
    let mut state = PlaybackState::default();
    let error = playback_action(&MediaCommand::TogglePause, state.abilities()).unwrap_err();
    assert_eq!(
        error.message(),
        "unsupported: playback control is not available for this item"
    );
    state.can_pause = true;
    assert_eq!(
        playback_action(&MediaCommand::TogglePause, state.abilities()).unwrap(),
        PlaybackAction::Pause
    );
    state.paused = true;
    assert_eq!(
        playback_action(&MediaCommand::TogglePause, state.abilities()).unwrap(),
        PlaybackAction::Play
    );
    assert!(playback_action(&MediaCommand::SeekRelative(7), state.abilities()).is_err());
    state.can_seek = true;
    assert_eq!(
        playback_action(&MediaCommand::SeekRelative(7), state.abilities()).unwrap(),
        PlaybackAction::Seek(7)
    );
    assert!(playback_action(&MediaCommand::Next, state.abilities()).is_err());
}

#[test]
fn failure_becomes_a_visible_event() {
    // Were the failure just a warning, the interface would sit on "Searching…"
    // forever, with no explanation.
    let meta = MetaProvider::new(vec![(
        "failing",
        Some(NdError::Unsupported("no NetworkManager".into())),
    )]);
    let events: Vec<DiscoveryEvent<SinkInfo>> = meta
        .providers()
        .iter()
        .map(|(id, failure)| opening_event(id, failure.as_ref()))
        .collect();
    assert_eq!(events.len(), 1);
    match &events[0] {
        DiscoveryEvent::ProviderUnavailable { provider, reason } => {
            assert_eq!(provider, "failing");
            assert!(reason.contains("NetworkManager"), "{reason}");
        }
        other => panic!("unexpected event: {other:?}"),
    }
}

#[test]
fn healthy_provider_announces_ready_then_sinks() {
    let mut events: Vec<DiscoveryEvent<SinkInfo>> = vec![opening_event("ok", None)];
    events.extend(
        DummyProvider
            .discover()
            .into_iter()
            .map(|sink| DiscoveryEvent::Added(sink.info)),
    );
    match &events[0] {
        DiscoveryEvent::ProviderReady { provider } => assert_eq!(provider, "ok"),
        other => panic!("unexpected event: {other:?}"),
    }
    assert!(matches!(events[1], DiscoveryEvent::Added(_)));
}

#[test]
fn one_failing_provider_does_not_kill_the_others() {
    let meta = MetaProvider::new(vec![
        ("failing", Some(NdError::Unsupported("no NetworkManager".into()))),
        ("ok", None),
    ]);
    assert_eq!(meta.len(), 2);
    assert!(!meta.is_empty());
    let events: Vec<DiscoveryEvent<SinkInfo>> = meta
        .providers()
        .iter()
        .map(|(id, failure)| opening_event(id, failure.as_ref()))
        .collect();
    assert!(events
        .iter()
        .any(|e| matches!(e, DiscoveryEvent::ProviderUnavailable { .. })));
    assert!(events
        .iter()
        .any(|e| matches!(e, DiscoveryEvent::ProviderReady { .. })));
}

#[test]
fn events_read_well_in_a_log() {
    let sink = DummyProvider.discover().remove(0).info;
    assert_eq!(DiscoveryEvent::Added(sink.clone()).describe(), "Added(dummy-cc)");
    assert_eq!(DiscoveryEvent::Updated(sink).describe(), "Updated(dummy-cc)");
    let removed: DiscoveryEvent<SinkInfo> = DiscoveryEvent::Removed("x".into());
    assert_eq!(removed.describe(), "Removed(x)");
    let failed: DiscoveryEvent<SinkInfo> = DiscoveryEvent::ProviderUnavailable {
        provider: "p".into(),
        reason: "r".into(),
    };
    assert_eq!(failed.describe(), "ProviderUnavailable(p: r)");
}

#[test]
fn the_dummy_announces_receivers_and_streams_to_none() {
    assert_eq!((DummyProvider.id(), DummyProvider.display_name()), ("dummy", "Test"));
    let mut sinks = DummyProvider.discover();
    assert_eq!(sinks.len(), 2);
    let sink = &mut sinks[1];
    assert_eq!(sink.info.kind, SinkKind::WfdP2p);
    assert_eq!(
        sink.start_stream().unwrap_err().message(),
        "unsupported: the dummy sink does not stream"
    );
    assert_eq!(sink.status.state(), SinkState::Error);
    sink.stop_stream();
    assert_eq!(sink.status.state(), SinkState::Disconnected);
}

#[test]
fn the_radio_is_free_until_someone_asks_for_silence() {
    let mut radio = Radio::new();
    assert!(!is_quiet(&radio));
    let guard = quiet(&mut radio);
    assert!(is_quiet(&radio));
    radio.release(guard);
    assert!(!is_quiet(&radio));
}

#[test]
fn silence_lasts_while_any_session_is_alive() {
    // Two streams at once: the first one to end must not turn scanning back on and
    // ruin the other.
    let mut radio = Radio::new();
    let a = quiet(&mut radio);
    let b = quiet(&mut radio);
    radio.release(a);
    assert!(is_quiet(&radio), "a stream is still running");
    radio.release(b);
    assert!(!is_quiet(&radio));
}

#[test]
fn custom_resolution_round_trips_and_is_bounded() {
    let settings = Settings::from_file("quality=custom\ncustom_width=3441\ncustom_height=1441");
    assert_eq!(settings.resolution_limit(), (3440, 1440));
    assert_eq!(Settings::from_file(&settings.to_file()), settings);
    assert_eq!(
        Settings::from_file("quality=custom\ncustom_width=0\ncustom_height=99999")
            .resolution_limit(),
        (160, 7680)
    );
    assert_eq!(
        Settings::from_file("quality=1200p").resolution_limit(),
        (1920, 1200)
    );
    assert_eq!(
        Settings::from_file("quality=high").resolution_limit(),
        (1920, 1080)
    );
}

#[test]
fn what_is_written_is_what_is_read() {
    let settings = Settings {
        protocol: Protocol::Miracast,
        quality: Quality::Medium,
        fps: 60,
        system_audio: false,
        microphone: true,
        mic_volume: 42,
        auto_discovery: false,
        film_mode: true,
        device_name: "Tales' laptop".to_string(),
        port: 31789,
        custom_width: 1920,
        custom_height: 1080,
    };
    assert_eq!(Settings::from_file(&settings.to_file()), settings);
}

#[test]
fn a_broken_file_still_starts_the_application() {
    // Everything that could come out of a hand-edited file: an unknown key, a value
    // of the wrong type, a stray line, a comment.
    let text = "# comment\n\
                protocol = telepathy\n\
                fps = plenty\n\
                mic_volume = 900\n\
                nonsense\n\
                future_option = 7\n\
                quality = medium\n";
    let settings = Settings::from_file(text);
    assert_eq!(settings.protocol, Protocol::Auto, "unparseable → default");
    assert_eq!(settings.fps, Settings::default().fps);
    assert_eq!(settings.mic_volume, 100, "clamped, not rejected");
    assert_eq!(settings.quality, Quality::Medium, "the valid key survives");
}

#[test]
fn the_frame_rate_cannot_be_absurd() {
    // A hand-edited 240 would be asked of the encoder verbatim and produce a stream
    // no receiver accepts.
    assert_eq!(Settings::from_file("fps = 240").fps, 60);
    assert_eq!(Settings::from_file("fps = 0").fps, 1);
}

#[test]
fn every_step_is_smaller_than_the_one_above_it() {
    // A "lower" quality that enlarged one side would cost bandwidth instead of
    // saving it, and a step that repeated the one above would be a choice with no
    // effect.
    let ladder = [
        Quality::Max,
        Quality::Ultra,
        Quality::High,
        Quality::Medium,
        Quality::Low,
    ];
    for pair in ladder.windows(2) {
        let (aw, ah) = pair[0].resolution();
        let (bw, bh) = pair[1].resolution();
        assert!(bw < aw && bh < ah, "{:?} vs {:?}", pair[0], pair[1]);
    }
}

#[test]
fn every_quality_survives_the_file() {
    for quality in [
        Quality::Max,
        Quality::Ultra,
        Quality::High,
        Quality::Medium,
        Quality::Low,
    ] {
        let written = Settings { quality, ..Default::default() };
        assert_eq!(Settings::from_file(&written.to_file()).quality, quality);
    }
}

#[test]
fn a_nameless_computer_still_has_something_to_show() {
    let settings = Settings { device_name: "   ".to_string(), ..Default::default() };
    assert!(
        !settings.display_name(None).is_empty(),
        "blank must fall back, never show an empty name on the receiver"
    );
    assert_eq!(settings.display_name(Some(" desk\n")), "desk");
    let named = Settings { device_name: " Studio TV ".to_string(), ..Default::default() };
    assert_eq!(named.display_name(None), "Studio TV");
}

#[test]
fn settings_decide_the_latency_profile() {
    let mut store = SettingsStore::new();
    let mut latency = Latency::new();
    let read = settings::current(&mut store, &mut latency, Some("film_mode = true\nfps = 24"));
    assert_eq!(read.fps, 24);
    assert!(is_film(&latency));
    // Once known, the file is not read again.
    assert_eq!(settings::current(&mut store, &mut latency, Some("fps = 12")).fps, 24);
    let text = settings::reset(&mut store, &mut latency);
    assert!(!is_film(&latency));
    assert_eq!(Settings::from_file(&text), Settings::default());
    let wanted = Settings { film_mode: true, ..Default::default() };
    let text = settings::set(&mut store, &mut latency, wanted);
    assert!(text.contains("film_mode"));
    assert!(is_film(&latency));
    assert_eq!(Protocol::parse("miracast"), Some(Protocol::Miracast));
    assert_eq!(Quality::parse(Quality::Ultra.as_key()), Some(Quality::Ultra));
}

#[test]
fn error_state_is_not_masked_by_disconnect() {
    // What closed overwrote the error and the interface only showed
    // "disconnected", with no cause.
    let mut status = SinkStatus::new();
    status.fail("no route to host");
    status.set(SinkState::Disconnected);
    assert_eq!(status.state(), SinkState::Error);
    assert_eq!(status.message().as_deref(), Some("no route to host"));
}

#[test]
fn reset_clears_the_error() {
    let mut status = SinkStatus::new();
    status.fail("it failed");
    status.reset();
    assert_eq!(status.state(), SinkState::Disconnected);
    assert!(status.message().is_none());
}

#[test]
fn progress_clears_stale_message() {
    let mut status = SinkStatus::new();
    status.set(SinkState::Connecting);
    assert!(status.state().is_busy());
    assert!(status.message().is_none());
    status.fail("x");
    status.set(SinkState::Streaming);
    assert!(status.message().is_none());
}

#[test]
fn sanitize_strips_shell_metacharacters() {
    assert_eq!(sanitize_name("Living Room TV"), "Living Room TV");
    assert_eq!(sanitize_name("evil\"; rm -rf /"), "evil rm -rf /");
    assert_eq!(sanitize_name("line\nbreak"), "linebreak");
    assert_eq!(sanitize_name("   "), "Unnamed receiver");
    assert_eq!(sanitize_name(""), "Unnamed receiver");
    assert_eq!(sanitize_name(&"a".repeat(200)).chars().count(), 64);
}

#[test]
fn airplay_is_discovered_but_not_castable() {
    assert!(!SinkKind::AirPlay.is_castable());
    assert!(SinkKind::Chromecast.is_castable());
    assert!(SinkKind::WfdP2p.is_castable());
    assert_eq!(SinkKind::WfdMice.as_str(), "wfd-mice");
}

#[test]
fn a_source_feeds_the_pipeline_with_what_was_authorised() {
    let screen = CaptureSource {
        pipewire_fd: Some(7),
        node_id: 42,
        source_type: SourceType::Virtual,
        size: Some((1280, 720)),
        media: None,
    };
    match screen.video_source() {
        CapturedVideo::PipeWire { fd, node_id, size } => {
            assert_eq!((fd, node_id, size), (Some(7), 42, Some((1280, 720))));
        }
        other => panic!("{other:?}"),
    }
    assert_eq!(
        screen.screen_source(),
        Some(VideoSource::PipeWire { fd: Some(7), node_id: 42 })
    );
    assert_eq!(screen.audio_source(), CapturedAudio::Detect);
    assert_eq!(screen.size_or((1, 1)), (1280, 720));

    let playback = MediaPlayback {
        path: "/tmp/a.mp4".into(),
        kind: MediaKind::Video,
        title: "a".into(),
    };
    let file = CaptureSource::media_file(playback, (1920, 1080));
    assert!(matches!(file.video_source(), CapturedVideo::MediaFile { .. }));
    assert_eq!(file.audio_source(), CapturedAudio::MediaFile);
    assert!(file.screen_source().is_none());
}

#[test]
fn default_devices_are_read_from_their_names() {
    assert_eq!(read_default(" alsa_output.hdmi \n").as_deref(), Some("alsa_output.hdmi"));
    assert_eq!(read_default("@DEFAULT_SINK@\n"), None);
    assert_eq!(read_default(" \n"), None);
    assert!(Defaults::from_outputs(None, Some("")).is_empty());
    assert!(!Defaults::from_outputs(Some("x"), None).is_empty());
}

#[test]
fn errors_say_which_layer_failed() {
    assert_eq!(NdError::Gst("a".into()).message(), "gstreamer: a");
    assert_eq!(NdError::Capture("a".into()).message(), "capture: a");
    assert_eq!(NdError::Network("a".into()).message(), "network: a");
    assert_eq!(NdError::Cancelled.message(), "cancelled");
    let playback = MediaPlayback { path: "p".into(), kind: MediaKind::Music, title: "t".into() };
    let lost = NdError::SinkNeverConnected {
        capture: Box::new(CaptureSource::media_file(playback, (2, 2))),
        reason: "never came".into(),
    };
    assert_eq!(lost.message(), "protocol: never came");
}

#[test]
fn the_settings_file_follows_xdg() {
    assert_eq!(
        settings::path(Some("/config"), Some("/home/u")).as_deref(),
        Some("/config/bignetscreen/settings.conf")
    );
    assert_eq!(
        settings::path(None, Some("/home/u/")).as_deref(),
        Some("/home/u/.config/bignetscreen/settings.conf")
    );
    assert_eq!(settings::path(None, None), None);
}

#[test]
fn a_value_that_cannot_be_parsed_is_ignored() {
    // What is on by default stays on, what is off stays off.
    assert!(Settings::from_file("system_audio = yes").system_audio);
    assert!(Settings::from_file("auto_discovery = 1").auto_discovery);
    assert!(!Settings::from_file("microphone = yes").microphone);
    assert!(!Settings::from_file("film_mode = TRUE").film_mode);
    assert!(!Settings::from_file("system_audio = false").system_audio);
    assert!(!Settings::from_file("auto_discovery = false").auto_discovery);
    assert!(Settings::from_file("microphone = true").microphone);
    assert!(Settings::from_file("film_mode = true").film_mode);

    // An earlier line that could be read holds.
    let settings = Settings::from_file(
        "protocol = cast\nprotocol = telepathy\nquality = low\nquality = finest\n\
         film_mode = true\nfilm_mode = maybe\nport = 80\nport = 65536",
    );
    assert_eq!(settings.protocol, Protocol::Cast);
    assert_eq!(settings.quality, Quality::Low);
    assert!(settings.film_mode);
    assert_eq!(settings.port, 80);
}

#[test]
fn a_line_that_says_nothing_changes_nothing() {
    let (before, after) = ("fps = 24\n", "quality = low\n");
    let without = Settings::from_file(&format!("{before}{after}"));
    for line in ["", "  \r", "# fps = 5", "nonsense", "future = 7", "fps = many", "film_mode = on"] {
        assert_eq!(Settings::from_file(&format!("{before}{line}\n{after}")), without);
        assert_eq!(Settings::from_file(&format!("{line}\n{before}{after}")), without);
        assert_eq!(Settings::from_file(&format!("{before}{after}{line}")), without);
    }
}

#[test]
fn a_name_read_from_a_file_is_trimmed() {
    assert_eq!(Settings::from_file("device_name =  Studio TV \t").device_name, "Studio TV");
}

#[test]
fn only_an_error_carries_a_message() {
    let mut status = SinkStatus::new();
    assert_eq!(status.message(), None);
    status.fail("the cause");
    status.set(SinkState::Disconnected);
    assert_eq!(status.message().as_deref(), Some("the cause"));
    status.set(SinkState::Connecting);
    assert_eq!(status.message(), None);
    status.set(SinkState::Error);
    assert_eq!(status.message(), None);
    status.fail("again");
    status.reset();
    assert_eq!((status.state(), status.message()), (SinkState::Disconnected, None));
}

#[test]
fn sanitising_a_name_again_changes_nothing() {
    for raw in ["  Living $room; ", "\n\t", "`'\"", "TV"] {
        let name = sanitize_name(raw);
        assert_eq!(name.trim(), name);
        assert_eq!(sanitize_name(&name), name);
    }
    assert_eq!(sanitize_name("\n\t"), "Unnamed receiver");
}
