use bignetscreen::pipeline::{
    best_encoder, chromecast_pipeline_description, encoder_candidates, frame_age,
    latency_to_apply, mirror_pipeline_description, probe_encoders, select_encoder,
    wfd_pipeline_description, AudioSource, GpuDriver, H264Encoder, LatencyProbe, Overrides,
    StreamConfig, VideoSource, WfdTransport, AUDIO_QUEUE_MS, CHROMECAST_SINK_NAME, ENCODER_NAME,
    MIRROR_AUDIO_QUEUE_MS, MIRROR_AUDIO_SINK, MIRROR_VIDEO_SINK, OPENH264_PIPELINE_LATENCY_MS,
    PIPELINE_LATENCY_AUTO, WFD_AUDIO_PID, WFD_PIPELINE_LATENCY_MS, WFD_VIDEO_PID,
};

fn cfg_at(width: u32, height: u32, fps: u32) -> StreamConfig {
    StreamConfig { width, height, fps, ..Default::default() }
}

#[test]
fn bitrate_scales_with_resolution() {
    assert_eq!(cfg_at(1280, 720, 30).scaled_bitrate_kbps(), 9_000);
    assert_eq!(cfg_at(1920, 1080, 30).scaled_bitrate_kbps(), 10_000);
    assert_eq!(cfg_at(3840, 2160, 30).scaled_bitrate_kbps(), 20_000);
}

#[test]
fn bitrate_scales_with_framerate() {
    assert_eq!(cfg_at(1920, 1080, 30).scaled_bitrate_kbps(), 10_000);
    assert_eq!(cfg_at(1920, 1080, 60).scaled_bitrate_kbps(), 15_000);
}

#[test]
fn bitrate_is_scaled_in_single_precision() {
    for base in [(640, 480, 6_000u32), (1280, 720, 9_000), (1920, 1080, 10_000),
        (2560, 1440, 14_000), (3840, 2160, 20_000)]
    {
        for fps in 1..=120u32 {
            let factor: f32 = if fps > 30 {
                1.0 + (fps.min(60) - 30) as f32 / 30.0 * 0.5
            } else {
                1.0
            };
            let expected = (base.2 as f32 * factor) as u32;
            assert_eq!(
                cfg_at(base.0, base.1, fps).scaled_bitrate_kbps(),
                expected,
                "{base:?} at {fps}"
            );
        }
    }
}

#[test]
fn explicit_bitrate_wins() {
    let cfg = StreamConfig { bitrate_kbps: 4_200, ..Default::default() };
    assert_eq!(cfg.scaled_bitrate_kbps(), 4_200);
}

#[test]
fn openh264_bitrate_is_in_bits_per_second() {
    // `openh264enc` measures bitrate in bit/s. Feeding it kbit/s produced
    // 10 kbit/s — an unrecognisable picture on the software fallback.
    let cfg = StreamConfig { encoder: H264Encoder::OpenH264, ..Default::default() };
    let desc = cfg.encoder.encoder_description(&cfg);
    assert!(desc.contains("bitrate=10000000"), "{desc}");
}

#[test]
fn kbps_encoders_keep_kilobits() {
    for enc in [
        H264Encoder::X264,
        H264Encoder::VaH264,
        H264Encoder::VaapiH264,
        H264Encoder::NvH264,
    ] {
        let cfg = StreamConfig { encoder: enc, ..Default::default() };
        let desc = cfg.encoder.encoder_description(&cfg);
        assert!(desc.contains("bitrate=10000"), "{enc:?}: {desc}");
    }
}

#[test]
fn hardware_encoders_disable_b_frames() {
    let cfg = StreamConfig { encoder: H264Encoder::VaH264, ..Default::default() };
    let desc = cfg.encoder.encoder_description(&cfg);
    assert!(desc.contains("b-frames=0"), "{desc}");
    assert!(desc.contains("rate-control=cbr"), "{desc}");
}

#[test]
fn hardware_is_preferred_on_every_intel_driver() {
    let avail = [H264Encoder::VaH264, H264Encoder::X264];
    for driver in [GpuDriver::I915, GpuDriver::Xe, GpuDriver::Amdgpu] {
        assert_eq!(
            select_encoder(&avail, driver),
            Some(H264Encoder::VaH264),
            "{driver:?}"
        );
    }
}

#[test]
fn nouveau_still_avoids_hardware() {
    // `nouveau` exposes no usable NVENC, and that is structural rather than a
    // driver bug that could be fixed.
    let avail = [H264Encoder::NvH264, H264Encoder::X264];
    assert_eq!(
        select_encoder(&avail, GpuDriver::Nouveau),
        Some(H264Encoder::X264)
    );
}

#[test]
fn candidates_keep_a_software_backup() {
    // If the GPU produces no frames, the software path has to be in the list to
    // take over — without it the fallback would have nowhere to go.
    let available = probe_encoders(&["x264enc".to_string(), "vah264enc".to_string()]);
    let candidates = encoder_candidates(&available, GpuDriver::Xe, None);
    assert_eq!(candidates.len(), 2);
    assert!(
        candidates.iter().any(|e| !e.is_hardware()),
        "no software fallback: {candidates:?}"
    );
    let mut sorted = candidates.clone();
    sorted.sort_by_key(|e| std::cmp::Reverse(e.priority()));
    assert_eq!(candidates, sorted, "it must come ordered by priority");
}

#[test]
fn a_forced_encoder_goes_first() {
    let available = probe_encoders(&["x264enc".to_string(), "vah264enc".to_string()]);
    let candidates = encoder_candidates(&available, GpuDriver::Xe, Some("x264enc"));
    assert_eq!(candidates[0], H264Encoder::X264);
    assert_eq!(
        best_encoder(&available, GpuDriver::Xe, None).unwrap(),
        H264Encoder::VaH264
    );
    assert_eq!(
        best_encoder(&available, GpuDriver::Xe, Some("x264enc")).unwrap(),
        H264Encoder::X264
    );
    let error = best_encoder(&[], GpuDriver::Xe, None).unwrap_err();
    assert!(error.message().starts_with("unsupported: nenhum encoder H.264 encontrado"));
    assert!(probe_encoders(&["other".to_string()]).is_empty());
}

#[test]
fn every_encoder_is_findable_for_monitoring() {
    // The probe that counts frames locates the encoder by name; without the name in
    // the description, the evidence-based fallback could not work.
    for enc in H264Encoder::ALL {
        let cfg = StreamConfig { encoder: enc, ..Default::default() };
        assert!(
            cfg.encoder
                .encoder_description(&cfg)
                .contains(&format!("name={ENCODER_NAME}")),
            "{enc:?}"
        );
    }
}

#[test]
fn nvenc_only_on_nvidia() {
    let avail = [H264Encoder::NvH264, H264Encoder::X264];
    assert_eq!(
        select_encoder(&avail, GpuDriver::Nvidia),
        Some(H264Encoder::NvH264)
    );
    assert_eq!(
        select_encoder(&avail, GpuDriver::I915),
        Some(H264Encoder::X264)
    );
}

#[test]
fn va_not_used_on_proprietary_nvidia() {
    let avail = [H264Encoder::VaH264, H264Encoder::X264];
    assert_eq!(
        select_encoder(&avail, GpuDriver::Nvidia),
        Some(H264Encoder::X264)
    );
}

#[test]
fn no_encoder_available() {
    assert_eq!(select_encoder(&[], GpuDriver::I915), None);
}

#[test]
fn driver_from_kernel_module() {
    assert_eq!(GpuDriver::from_kernel_module("xe"), GpuDriver::Xe);
    assert_eq!(GpuDriver::from_kernel_module("i915"), GpuDriver::I915);
    assert_eq!(GpuDriver::from_kernel_module("amdgpu"), GpuDriver::Amdgpu);
    assert_eq!(GpuDriver::from_kernel_module("zzz"), GpuDriver::Unknown);
    assert!(GpuDriver::Xe.hardware_encode_is_reliable());
    assert!(GpuDriver::I915.hardware_encode_is_reliable());
    assert!(!GpuDriver::Nouveau.hardware_encode_is_reliable());
}

fn wfd_desc(cfg: &StreamConfig) -> String {
    let src = VideoSource::PipeWire { fd: Some(7), node_id: 42 };
    let transport = WfdTransport::new("192.168.49.1", 19000);
    wfd_pipeline_description(cfg, &src, &transport)
}

#[test]
fn mutter_source_omits_the_fd_but_keeps_the_node() {
    // Mutter publishes into the session's PipeWire daemon: there is no fd to pass,
    // but `path` remains mandatory.
    let cfg = StreamConfig::default();
    let src = VideoSource::PipeWire { fd: None, node_id: 42 };
    let desc = chromecast_pipeline_description(&cfg, &src);
    assert!(desc.contains("pipewiresrc path=42"), "{desc}");
    assert!(!desc.contains("fd="), "{desc}");
}

#[test]
fn pipewire_source_carries_fd_and_node() {
    // Without `fd=`/`path=` pipewiresrc does not capture the stream the portal
    // opened — it captured an arbitrary node from the daemon.
    let desc = wfd_desc(&StreamConfig::default());
    assert!(desc.contains("pipewiresrc fd=7 path=42"), "{desc}");
}

#[test]
fn videorate_precedes_scaling() {
    let desc = wfd_desc(&StreamConfig::default());
    let rate = desc.find("videorate").expect("videorate is mandatory");
    let scale = desc.find("videoscale").expect("videoscale");
    assert!(rate < scale, "videorate must precede videoscale: {desc}");
}

#[test]
fn wfd_pipeline_has_audio_and_baseline_profile() {
    let desc = wfd_desc(&StreamConfig::default());
    assert!(
        desc.contains("avenc_aac"),
        "audio is mandatory on WFD: {desc}"
    );
    assert!(desc.contains("profile=constrained-baseline"), "{desc}");
    assert!(desc.contains("mux."), "{desc}");
}

#[test]
fn wfd_pipeline_targets_the_negotiated_port() {
    let desc = wfd_desc(&StreamConfig::default());
    assert!(desc.contains("host=192.168.49.1 port=19000"), "{desc}");
    // RTCP goes to port+1.
    assert!(desc.contains("port=19001"), "{desc}");
}

#[test]
fn chromecast_pipeline_has_audio_track() {
    let cfg = StreamConfig::default();
    let desc = chromecast_pipeline_description(&cfg, &VideoSource::Test);
    assert!(desc.contains("avenc_aac"), "{desc}");
    assert!(desc.contains("matroskamux"), "{desc}");
}

#[test]
fn chromecast_sink_does_not_sync_on_the_clock() {
    // `sync=true` on multisocketsink adds an entire pipeline latency before the
    // byte reaches the socket. The source is already live.
    let cfg = StreamConfig::default();
    let desc = chromecast_pipeline_description(&cfg, &VideoSource::Test);
    assert!(desc.contains("sync=false"), "{desc}");
    assert!(!desc.contains("sync=true"), "{desc}");
    assert!(desc.contains("blocksize=8192"), "{desc}");
}

#[test]
fn mirror_pipeline_has_no_muxer_and_no_container() {
    // Cast Streaming receives access units; any muxer here would be extra
    // buffering, and the receiver would not know what to do with the container.
    let cfg = StreamConfig::default();
    let desc = mirror_pipeline_description(&cfg, &VideoSource::Test);
    for muxer in ["matroskamux", "mp4mux", "mpegtsmux", "webmmux"] {
        assert!(!desc.contains(muxer), "{muxer} should not be here: {desc}");
    }
    assert!(!desc.contains("multisocketsink"), "{desc}");
    assert!(desc.contains("stream-format=byte-stream"), "{desc}");
    assert!(desc.contains("h264parse config-interval=-1"), "{desc}");
}

#[test]
fn mirror_pipeline_exposes_both_sinks_without_queueing() {
    let cfg = StreamConfig::default();
    let desc = mirror_pipeline_description(&cfg, &VideoSource::Test);
    assert!(
        desc.contains(&format!("name={MIRROR_VIDEO_SINK}")),
        "{desc}"
    );
    assert!(
        desc.contains(&format!("name={MIRROR_AUDIO_SINK}")),
        "{desc}"
    );
    // `sync=false`: the capture sets the pace; waiting on the clock here only adds
    // delay before the frame reaches the network.
    assert!(desc.contains("sync=false"), "{desc}");
    assert!(desc.contains("max-buffers=1"), "{desc}");
}

#[test]
fn the_muxed_path_keeps_its_audio_queue_short() {
    // On the muxed path video is interleaved with audio, so slack given to the
    // audio queue becomes picture delay.
    assert!(
        AUDIO_QUEUE_MS <= 50,
        "the muxed path's audio queue turns into picture delay"
    );
    // And the mirroring one, which goes through no muxer, can be generous.
    assert!(MIRROR_AUDIO_QUEUE_MS >= AUDIO_QUEUE_MS);

    // The generated description has to reflect both choices.
    let cfg = StreamConfig::default();
    assert!(cfg.audio_queue().contains("leaky=downstream"));
    assert!(!cfg.mirror_audio_queue().contains("leaky"));
}

#[test]
fn only_the_video_queue_may_drop_data() {
    let cfg = StreamConfig::default();
    let desc = mirror_pipeline_description(&cfg, &VideoSource::Diagnostic);

    // Video may leak: an old frame is of no interest, the next comes whole.
    assert!(
        desc.contains("leaky=downstream"),
        "the video queue must leak: {desc}"
    );
    // Audio, no: dropping a sample opens a hole in the sound — which is what made
    // the mirroring audio stutter.
    let audio = desc
        .split("audioconvert")
        .nth(1)
        .expect("the mirroring pipeline has an audio branch");
    assert!(
        !audio.contains("leaky"),
        "the audio queue must not leak: {audio}"
    );
}

#[test]
fn mirror_audio_is_opus() {
    // The mirroring app expects Opus, not AAC.
    let cfg = StreamConfig::default();
    let desc = mirror_pipeline_description(&cfg, &VideoSource::Test);
    assert!(desc.contains("opusenc"), "{desc}");
    assert!(!desc.contains("avenc_aac"), "{desc}");
}

#[test]
fn chromecast_sink_is_findable_by_name() {
    // The HTTP server locates the element by this name in order to hand it the
    // receiver's socket.
    let cfg = StreamConfig::default();
    let desc = chromecast_pipeline_description(&cfg, &VideoSource::Test);
    assert!(
        desc.contains(&format!("name={CHROMECAST_SINK_NAME}")),
        "{desc}"
    );
}

#[test]
fn chromecast_clusters_are_short_enough_for_live() {
    // A cluster has to **close** before going out to the network, and that time
    // enters the latency directly.
    let cfg = StreamConfig::default();
    let desc = chromecast_pipeline_description(&cfg, &VideoSource::Test);
    assert!(desc.contains("min-cluster-duration=20000000"), "{desc}");
    assert!(desc.contains("max-cluster-duration=40000000"), "{desc}");
}

#[test]
fn va_path_converts_on_the_gpu() {
    let cfg = StreamConfig { encoder: H264Encoder::VaH264, ..Default::default() };
    let desc = wfd_desc(&cfg);
    assert!(desc.contains("vapostproc"), "{desc}");
    assert!(!desc.contains("videoscale"), "{desc}");
    assert!(desc.contains("format=NV12"), "{desc}");
}

#[test]
fn software_path_converts_on_the_cpu() {
    let desc = wfd_desc(&StreamConfig::default());
    assert!(desc.contains("videoconvert"), "{desc}");
    assert!(desc.contains("format=I420"), "{desc}");
}

#[test]
fn fit_within_preserves_aspect_and_never_upscales() {
    // A real case: the laptop's 16:10 screen onto a 1080p panel.
    assert_eq!(
        StreamConfig::fit_within((1920, 1200), (1920, 1080)),
        (1728, 1080)
    );
    // 16:9 already fits: it passes through untouched.
    assert_eq!(
        StreamConfig::fit_within((1920, 1080), (1920, 1080)),
        (1920, 1080)
    );
    // Smaller than the cap: it does not enlarge (that would spend bits on upscaling
    // the receiver would undo).
    assert_eq!(
        StreamConfig::fit_within((1280, 800), (1920, 1080)),
        (1280, 800)
    );
    // 4K 16:9 reduced to the cap.
    assert_eq!(
        StreamConfig::fit_within((3840, 2160), (1920, 1080)),
        (1920, 1080)
    );
    // A very tall screen: the height becomes the limit.
    let (w, h) = StreamConfig::fit_within((1080, 1920), (1920, 1080));
    assert_eq!(h, 1080);
    assert!(w < 1080);
}

#[test]
fn fit_within_always_returns_even_dimensions() {
    // H.264 requires even dimensions.
    for source in [(1365, 767), (999, 555), (1921, 1201)] {
        let (w, h) = StreamConfig::fit_within(source, (1920, 1080));
        assert_eq!(w % 2, 0, "{source:?} -> {w}x{h}");
        assert_eq!(h % 2, 0, "{source:?} -> {w}x{h}");
    }
}

#[test]
fn scaling_preserves_aspect_with_borders() {
    // Without `add-borders`, a 16:10 screen comes out stretched on a 16:9 panel.
    // `vapostproc`'s default is `false`, so it has to be explicit.
    let desc = wfd_desc(&StreamConfig::default());
    assert!(desc.contains("videoscale add-borders=true"), "{desc}");

    let cfg = StreamConfig { encoder: H264Encoder::VaH264, ..Default::default() };
    let desc = wfd_desc(&cfg);
    assert!(desc.contains("vapostproc add-borders=true"), "{desc}");
}

#[test]
fn gop_is_one_second() {
    assert_eq!(cfg_at(1920, 1080, 30).gop(), 30);
    assert_eq!(cfg_at(1920, 1080, 60).gop(), 60);
}

#[test]
fn low_latency_encoders_use_the_automatic_minimum() {
    // Forcing 20 ms sat **below** the pipeline's real minimum and the sink received
    // megabits while showing a black screen. "Automatic" is the correct default.
    for enc in [
        H264Encoder::X264,
        H264Encoder::VaH264,
        H264Encoder::VaapiH264,
        H264Encoder::NvH264,
    ] {
        assert_eq!(
            enc.pipeline_latency_ms(),
            PIPELINE_LATENCY_AUTO,
            "{enc:?} should use automatic latency"
        );
    }
    // Only openh264 has spikes that justify fixed headroom.
    assert_eq!(
        H264Encoder::OpenH264.pipeline_latency_ms(),
        OPENH264_PIPELINE_LATENCY_MS
    );
    assert!(OPENH264_PIPELINE_LATENCY_MS > 0);
}

#[test]
fn wfd_uses_automatic_latency() {
    assert_eq!(WFD_PIPELINE_LATENCY_MS, PIPELINE_LATENCY_AUTO);
}

#[test]
fn wfd_pipeline_pins_the_spec_pids() {
    // Without fixed PIDs mpegtsmux chooses on its own and the sink cannot find the
    // video: it receives data and shows a black screen.
    let desc = wfd_desc(&StreamConfig::default());
    assert!(desc.contains("mux.sink_4113"), "video on 0x1011: {desc}");
    assert!(desc.contains("mux.sink_4352"), "audio on 0x1100: {desc}");
    assert_eq!(WFD_VIDEO_PID, 0x1011);
    assert_eq!(WFD_AUDIO_PID, 0x1100);
}

#[test]
fn wfd_payloader_uses_the_send_clock() {
    // `perfect-rtptime=true` (the default) derives the RTP timestamp from the
    // buffer count; the sink uses that timestamp to schedule display.
    let desc = wfd_desc(&StreamConfig::default());
    assert!(desc.contains("perfect-rtptime=false"), "{desc}");
    assert!(desc.contains("ssrc=1"), "{desc}");
}

#[test]
fn encoders_emit_one_slice_per_frame() {
    // The hardware decoders in TVs expect one slice per frame.
    let cfg = StreamConfig::default();
    assert!(
        !cfg.encoder
            .encoder_description(&cfg)
            .contains("sliced-threads"),
        "x264 must not slice the frame"
    );
    for enc in [H264Encoder::VaH264, H264Encoder::VaapiH264] {
        let cfg = StreamConfig { encoder: enc, ..Default::default() };
        assert!(
            cfg.encoder
                .encoder_description(&cfg)
                .contains("num-slices=1"),
            "{enc:?}"
        );
    }
}

#[test]
fn the_environment_overrides_what_it_can_be_read_for() {
    let overrides = Overrides::read(Some("15"), Some("80"), Some("TRUE"), Some("latest"));
    let cfg = StreamConfig { overrides, ..Default::default() };
    assert_eq!(cfg.gop(), 15);
    assert_eq!(cfg.latency_ms(), 80);
    let desc = chromecast_pipeline_description(&cfg, &VideoSource::Test);
    assert!(desc.contains("sync-method=latest"), "{desc}");
    let overrides = Overrides::read(Some("x"), None, Some("yes"), None);
    assert!(overrides.gop.is_none() && !overrides.rtp_sync);
    assert_eq!(AudioSource::detect(true), AudioSource::System);
    assert_eq!(AudioSource::detect(false), AudioSource::Silence);
}

#[test]
fn latency_is_measured_from_the_frames_age() {
    assert_eq!(latency_to_apply(0), None);
    assert_eq!(latency_to_apply(40), Some(40));
    assert_eq!(frame_age(1_000, 300, 500), Some(200));
    assert_eq!(frame_age(1_000, 300, 800), None);
    let mut probe = LatencyProbe::new();
    assert!(probe.observe(10, 100).is_none());
    let report = probe.observe(30, 5_000).unwrap();
    assert_eq!((report.mean_ms, report.worst_ms, report.frames), (20, 30, 2));
    assert_eq!(probe, LatencyProbe::new());
}

#[test]
fn queues_are_as_long_as_the_constants_say() {
    let cfg = StreamConfig::default();
    assert_eq!(
        cfg.video_queue(),
        "queue max-size-buffers=3 max-size-time=30000000 max-size-bytes=0 leaky=downstream"
    );
    assert_eq!(
        cfg.audio_queue(),
        "queue max-size-buffers=4 max-size-time=40000000 max-size-bytes=0 leaky=downstream"
    );
    assert_eq!(
        cfg.mirror_audio_queue(),
        "queue max-size-buffers=64 max-size-time=200000000 max-size-bytes=0"
    );
    assert!(cfg.audio_enabled());
}

#[test]
fn a_fitted_size_reaches_the_cap_and_stays() {
    let cap = (1920, 1080);
    for source in [(3840, 2160), (1080, 1920), (5000, 100), (1, 5000), (1366, 768)] {
        let fitted = StreamConfig::fit_within(source, cap);
        assert_eq!(StreamConfig::fit_within(fitted, cap), fitted);
        if source.0 > cap.0 || source.1 > cap.1 {
            assert!(fitted.0 == cap.0 || fitted.1 == cap.1, "{source:?} -> {fitted:?}");
        }
    }
}
