//! Building the GStreamer pipelines.
//!
//! Latency is mostly pipeline configuration plus hardware encoding: short
//! queues, a zero-latency encoder configuration for **every** encoder, and, on
//! the VA-API path, converting and scaling on the GPU.
//!
//! ## Bitrate units
//!
//! `x264enc`, `vah264enc`, `vaapih264enc` and `nvh264enc` express `bitrate` in
//! **kbit/s**; `openh264enc` expresses it in **bit/s**. That is why each
//! encoder builds its own description in [`H264Encoder::encoder_description`].
use crate::error::{unsupported_error, NdError};
use crate::text::{
    chars_of, copied, copied_option, is_text, is_text_ignoring_case, number_text, parse_number, same_text,
    signed_text,
};
use vstd::prelude::*;

verus! {

use crate::error::ErrorView;
use crate::text::{
    decimal, decimal_reads_back, has_part, lowered, number, part_at, part_of_first, part_of_itself,
    part_of_second, part_stands_at, signed_decimal, starts_with_part, text_of,
};

/// Automatic latency: the pipeline uses the minimum it reports itself.
pub const PIPELINE_LATENCY_AUTO: u64 = 0;

/// "Low" latency means automatic.
pub const PIPELINE_LATENCY_MS: u64 = 0;

/// `openh264enc` with `usage-type=screen` has latency spikes after scene
/// changes; it alone justifies fixed headroom.
pub const OPENH264_PIPELINE_LATENCY_MS: u64 = 500;

/// The RTP jitter buffer's latency (`rtpbin`).
pub const RTP_LATENCY_MS: u64 = 20;

/// The video queue before the encoder: few buffers, about one frame.
pub const VIDEO_QUEUE_BUFFERS: u32 = 3;

/// The same, in milliseconds.
pub const VIDEO_QUEUE_MS: u64 = 30;

/// The audio queue on the muxed path. `mpegtsmux` interleaves the tracks by
/// timestamp, so **video waits for audio**: slack here becomes picture delay.
pub const AUDIO_QUEUE_BUFFERS: u32 = 4;

/// The same, in milliseconds.
pub const AUDIO_QUEUE_MS: u64 = 40;

/// The Cast mirroring audio queue, in frames. There is no muxer, so the slack
/// costs no picture latency.
pub const MIRROR_AUDIO_QUEUE_BUFFERS: u32 = 64;

/// The same, in milliseconds.
pub const MIRROR_AUDIO_QUEUE_MS: u64 = 200;

/// Local RTP port used as the source of the WFD stream.
pub const LOCAL_RTP_PORT: u16 = 16384;

/// The WFD path's pipeline latency: automatic.
pub const WFD_PIPELINE_LATENCY_MS: u64 = 0;

/// The video PES PID that Wi-Fi Display sinks look for (0x1011).
pub const WFD_VIDEO_PID: u16 = 4113;

/// The audio PES PID that they look for (0x1100).
pub const WFD_AUDIO_PID: u16 = 4352;

/// The name given to the encoder element in every description.
pub const ENCODER_NAME: &'static str = "enc";

/// The name of the `appsink` that hands encoded frames to Cast Streaming.
pub const MIRROR_VIDEO_SINK: &'static str = "mirror-video";

/// The same, for the audio track.
pub const MIRROR_AUDIO_SINK: &'static str = "mirror-audio";

/// The `multisocketsink`'s name in the Chromecast pipeline description.
pub const CHROMECAST_SINK_NAME: &'static str = "cc-sink";

/// The maximum resolution sent to a Chromecast: the Default Media Receiver
/// decodes H.264 up to 1080p.
pub const CHROMECAST_MAX_RESOLUTION: (u32, u32) = (1920, 1080);

/// An event coming off a running pipeline's bus.
#[derive(Clone, Debug)]
pub enum PipelineEvent {
    /// Fatal error: the pipeline stopped producing media.
    Error { message: String, debug: String },
    /// Non-fatal warning.
    Warning { message: String },
    /// End of stream.
    Eos,
}

/// The latency to set on a pipeline: none for automatic.
pub fn latency_to_apply(latency_ms: u64) -> (res: Option<u64>)
    ensures
        res == (if latency_ms > 0 {
            Some(latency_ms)
        } else {
            None
        }),
{
    if latency_ms > 0 {
        Some(latency_ms)
    } else {
        None
    }
}

/// How old a frame is: none where the clock is not that far yet.
pub open spec fn age_at(clock: u64, base: u64, pts: u64) -> Option<u64> {
    if clock >= base && clock - base >= pts {
        Some((clock - base - pts) as u64)
    } else {
        None
    }
}

/// How old a frame is, in the units of the clock: what the clock shows since the
/// pipeline's base time, less the frame's own time; `None` where either
/// difference would be negative.
pub fn frame_age(clock: u64, base: u64, pts: u64) -> (res: Option<u64>)
    ensures
        res == age_at(clock, base, pts),
{
    match clock.checked_sub(base) {
        Some(now) => now.checked_sub(pts),
        None => None,
    }
}

/// The frame ages that one stage of a pipeline has seen since its last report.
#[derive(Clone, Copy, Debug, PartialEq, Eq, Structural)]
pub struct LatencyProbe {
    pub frames: u64,
    pub total_ms: u64,
    pub worst_ms: u64,
}

/// What a probe reports.
#[derive(Clone, Copy, Debug, PartialEq, Eq, Structural)]
pub struct LatencyReport {
    pub mean_ms: u64,
    pub worst_ms: u64,
    pub frames: u64,
}

/// How long a probe collects before it reports, in milliseconds.
pub const PROBE_INTERVAL_MS: u64 = 5000;

/// A probe after one more frame.
pub open spec fn probe_after(probe: LatencyProbe, age_ms: u64) -> LatencyProbe {
    LatencyProbe {
        frames: (probe.frames + 1) as u64,
        total_ms: (probe.total_ms + age_ms) as u64,
        worst_ms: if age_ms > probe.worst_ms { age_ms } else { probe.worst_ms },
    }
}

/// What a probe has to report.
pub open spec fn report_of(probe: LatencyProbe) -> LatencyReport {
    LatencyReport {
        mean_ms: (probe.total_ms as int / probe.frames as int) as u64,
        worst_ms: probe.worst_ms,
        frames: probe.frames,
    }
}

impl LatencyProbe {
    /// A probe that has seen nothing.
    pub fn new() -> (res: Self)
        ensures
            res == (LatencyProbe { frames: 0, total_ms: 0, worst_ms: 0 }),
    {
        LatencyProbe { frames: 0, total_ms: 0, worst_ms: 0 }
    }

    /// Accounts for a frame of that age, `elapsed_ms` after the last report.
    /// Reports, and starts over, when the interval is up.
    pub fn observe(&mut self, age_ms: u64, elapsed_ms: u64) -> (res: Option<LatencyReport>)
        requires
            old(self).frames < u64::MAX,
            old(self).total_ms + age_ms <= u64::MAX,
        ensures
            if elapsed_ms >= PROBE_INTERVAL_MS {
                &&& res == Some(report_of(probe_after(*old(self), age_ms)))
                &&& *final(self) == (LatencyProbe { frames: 0, total_ms: 0, worst_ms: 0 })
            } else {
                &&& res is None
                &&& *final(self) == probe_after(*old(self), age_ms)
            },
    {
        self.frames = self.frames + 1;
        self.total_ms = self.total_ms + age_ms;
        if age_ms > self.worst_ms {
            self.worst_ms = age_ms;
        }
        if elapsed_ms < PROBE_INTERVAL_MS {
            return None;
        }
        let report = LatencyReport {
            mean_ms: self.total_ms / self.frames,
            worst_ms: self.worst_ms,
            frames: self.frames,
        };
        *self = LatencyProbe::new();
        Some(report)
    }
}

/// Candidate H.264 encoders.
#[derive(Clone, Copy, Debug, PartialEq, Eq, Hash, Structural)]
pub enum H264Encoder {
    /// `vah264enc` (the modern `va` plugin) — the best option on Intel/AMD.
    VaH264,
    /// `vaapih264enc` (the legacy `vaapi` plugin).
    VaapiH264,
    /// `nvh264enc` (NVENC, NVIDIA cards).
    NvH264,
    /// `v4l2h264enc` (stateful V4L2 encoders: RPi, Rockchip, Amlogic…).
    V4l2H264,
    /// `x264enc` in software, `tune=zerolatency`.
    X264,
    /// `openh264enc` in software (a last resort; permissive licence).
    OpenH264,
}

/// The GStreamer element of an encoder.
pub open spec fn element_of(encoder: H264Encoder) -> Seq<char> {
    match encoder {
        H264Encoder::VaH264 => "vah264enc"@,
        H264Encoder::VaapiH264 => "vaapih264enc"@,
        H264Encoder::NvH264 => "nvh264enc"@,
        H264Encoder::V4l2H264 => "v4l2h264enc"@,
        H264Encoder::X264 => "x264enc"@,
        H264Encoder::OpenH264 => "openh264enc"@,
    }
}

/// How strongly an encoder is preferred.
pub open spec fn priority_of(encoder: H264Encoder) -> u32 {
    match encoder {
        H264Encoder::VaH264 => 100,
        H264Encoder::NvH264 => 95,
        H264Encoder::VaapiH264 => 90,
        H264Encoder::V4l2H264 => 80,
        H264Encoder::X264 => 50,
        H264Encoder::OpenH264 => 40,
    }
}

/// Whether an encoder runs in hardware.
pub open spec fn in_hardware(encoder: H264Encoder) -> bool {
    encoder != H264Encoder::X264 && encoder != H264Encoder::OpenH264
}

/// Whether an encoder uses the VA-API stack.
pub open spec fn on_va(encoder: H264Encoder) -> bool {
    encoder == H264Encoder::VaH264 || encoder == H264Encoder::VaapiH264
}

/// The raw video format an encoder prefers on its input.
pub open spec fn format_of(encoder: H264Encoder) -> Seq<char> {
    if in_hardware(encoder) {
        "NV12"@
    } else {
        "I420"@
    }
}

/// The word for a switch in a description.
pub open spec fn switch_word(on: bool) -> Seq<char> {
    if on {
        "true"@
    } else {
        "false"@
    }
}

fn on_off(on: bool) -> (res: &'static str)
    ensures
        res@ == switch_word(on),
{
    if on {
        "true"
    } else {
        "false"
    }
}

/// An encoder element with every low-latency property and the bitrate in that
/// encoder's unit.
#[verifier::opaque]
pub open spec fn encoder_text(encoder: H264Encoder, cfg: StreamConfig) -> Seq<char> {
    match encoder {
        H264Encoder::X264 => "x264enc name=enc tune=zerolatency speed-preset=ultrafast rc-lookahead=0 sync-lookahead=0 bframes=0 b-adapt=false threads=0 aud=true cabac=false ref=1 pass=cbr vbv-buf-capacity=50 intra-refresh="@ + switch_word(cfg.intra_refresh) + " key-int-max="@ + decimal(key_frame_distance(cfg) as nat) + " bitrate="@ + decimal(scaled_bitrate(cfg) as nat),
        H264Encoder::VaH264 => "vah264enc name=enc rate-control=cbr bitrate="@ + decimal(scaled_bitrate(cfg) as nat) + " key-int-max="@ + decimal(key_frame_distance(cfg) as nat) + " b-frames=0 ref-frames=1 num-slices=1 target-usage=6 aud=true cabac=false"@,
        H264Encoder::VaapiH264 => "vaapih264enc name=enc rate-control=cbr bitrate="@ + decimal(scaled_bitrate(cfg) as nat) + " keyframe-period="@ + decimal(key_frame_distance(cfg) as nat) + " max-bframes=0 refs=1 num-slices=1 quality-level=7 cabac=false aud=true"@,
        H264Encoder::NvH264 => "nvh264enc name=enc preset=low-latency-hq rc-mode=cbr bitrate="@ + decimal(scaled_bitrate(cfg) as nat) + " gop-size="@ + decimal(key_frame_distance(cfg) as nat) + " bframes=0 zerolatency=true aud=true"@,
        H264Encoder::V4l2H264 => "v4l2h264enc name=enc extra-controls=\"controls,h264_profile=0,h264_i_frame_period="@ + decimal(key_frame_distance(cfg) as nat) + ",video_bitrate="@ + decimal((scaled_bitrate(cfg) * 1000) as nat) + ",repeat_sequence_header=1\""@,
        H264Encoder::OpenH264 => "openh264enc name=enc usage-type=screen rate-control=bitrate complexity=low scene-change-detection=false enable-frame-skip=true multi-thread=0 gop-size="@ + decimal(key_frame_distance(cfg) as nat) + " bitrate="@ + decimal((scaled_bitrate(cfg) * 1000) as nat) + " max-bitrate="@ + decimal((scaled_bitrate(cfg) * 1200) as nat),
    }
}

impl H264Encoder {
    /// Every known encoder (for scanning the registry).
    pub const ALL: [H264Encoder; 6] = [
        H264Encoder::VaH264,
        H264Encoder::VaapiH264,
        H264Encoder::NvH264,
        H264Encoder::V4l2H264,
        H264Encoder::X264,
        H264Encoder::OpenH264,
    ];

    /// Name of the GStreamer element.
    pub fn element(self) -> (res: &'static str)
        ensures
            res@ == element_of(self),
    {
        match self {
            H264Encoder::VaH264 => "vah264enc",
            H264Encoder::VaapiH264 => "vaapih264enc",
            H264Encoder::NvH264 => "nvh264enc",
            H264Encoder::V4l2H264 => "v4l2h264enc",
            H264Encoder::X264 => "x264enc",
            H264Encoder::OpenH264 => "openh264enc",
        }
    }

    /// Priority (higher = preferred).
    pub fn priority(self) -> (res: u32)
        ensures
            res == priority_of(self),
    {
        match self {
            H264Encoder::VaH264 => 100,
            H264Encoder::NvH264 => 95,
            H264Encoder::VaapiH264 => 90,
            H264Encoder::V4l2H264 => 80,
            H264Encoder::X264 => 50,
            H264Encoder::OpenH264 => 40,
        }
    }

    /// Does it encode in hardware?
    pub fn is_hardware(self) -> (res: bool)
        ensures
            res == in_hardware(self),
    {
        !matches!(self, H264Encoder::X264 | H264Encoder::OpenH264)
    }

    /// Does it use the VA-API stack (converting and scaling on the GPU)?
    pub fn is_va(self) -> (res: bool)
        ensures
            res == on_va(self),
    {
        matches!(self, H264Encoder::VaH264 | H264Encoder::VaapiH264)
    }

    /// The raw video format this encoder prefers on its input.
    ///
    /// Hardware encoders consume NV12 natively; handing them I420 forces an
    /// extra conversion inside the driver.
    pub fn preferred_format(self) -> (res: &'static str)
        ensures
            res@ == format_of(self),
    {
        if self.is_hardware() {
            "NV12"
        } else {
            "I420"
        }
    }

    /// The pipeline latency suited to this encoder.
    pub fn pipeline_latency_ms(self) -> (res: u64)
        ensures
            res == (if self == H264Encoder::OpenH264 {
                OPENH264_PIPELINE_LATENCY_MS
            } else {
                PIPELINE_LATENCY_MS
            }),
    {
        match self {
            H264Encoder::OpenH264 => OPENH264_PIPELINE_LATENCY_MS,
            _ => PIPELINE_LATENCY_MS,
        }
    }

    /// The encoder element's full description, already carrying every
    /// low-latency property and the bitrate **in each encoder's correct
    /// unit**.
    pub fn encoder_description(self, cfg: &StreamConfig) -> (res: String)
        ensures
            res@ == encoder_text(self, *cfg),
    {
        proof {
            reveal(encoder_text);
        }
        let rate: u64 = cfg.scaled_bitrate_kbps() as u64;
        let kbps = number_text(rate);
        let bps = number_text(rate * 1000);
        let maxbps = number_text(rate * 1200);
        let gop = number_text(cfg.gop() as u64);
        match self {
            H264Encoder::X264 => copied("x264enc name=enc tune=zerolatency speed-preset=ultrafast rc-lookahead=0 sync-lookahead=0 bframes=0 b-adapt=false threads=0 aud=true cabac=false ref=1 pass=cbr vbv-buf-capacity=50 intra-refresh=").concat(on_off(cfg.intra_refresh)).concat(" key-int-max=").concat(gop.as_str()).concat(" bitrate=").concat(kbps.as_str()),
            H264Encoder::VaH264 => copied("vah264enc name=enc rate-control=cbr bitrate=").concat(kbps.as_str()).concat(" key-int-max=").concat(gop.as_str()).concat(" b-frames=0 ref-frames=1 num-slices=1 target-usage=6 aud=true cabac=false"),
            H264Encoder::VaapiH264 => copied("vaapih264enc name=enc rate-control=cbr bitrate=").concat(kbps.as_str()).concat(" keyframe-period=").concat(gop.as_str()).concat(" max-bframes=0 refs=1 num-slices=1 quality-level=7 cabac=false aud=true"),
            H264Encoder::NvH264 => copied("nvh264enc name=enc preset=low-latency-hq rc-mode=cbr bitrate=").concat(kbps.as_str()).concat(" gop-size=").concat(gop.as_str()).concat(" bframes=0 zerolatency=true aud=true"),
            H264Encoder::V4l2H264 => copied("v4l2h264enc name=enc extra-controls=\"controls,h264_profile=0,h264_i_frame_period=").concat(gop.as_str()).concat(",video_bitrate=").concat(bps.as_str()).concat(",repeat_sequence_header=1\""),
            H264Encoder::OpenH264 => copied("openh264enc name=enc usage-type=screen rate-control=bitrate complexity=low scene-change-detection=false enable-frame-skip=true multi-thread=0 gop-size=").concat(gop.as_str()).concat(" bitrate=").concat(bps.as_str()).concat(" max-bitrate=").concat(maxbps.as_str()),
        }
    }
}

/// The detected KMS driver (used to decide whether HW encoding is trustworthy).
#[derive(Clone, Copy, Debug, PartialEq, Eq, Structural)]
pub enum GpuDriver {
    I915,
    Xe,
    Amdgpu,
    Nvidia,
    Nouveau,
    Unknown,
}

/// The driver that a kernel module stands for.
pub open spec fn driver_of(module: Seq<char>) -> GpuDriver {
    if module == "i915"@ {
        GpuDriver::I915
    } else if module == "xe"@ {
        GpuDriver::Xe
    } else if module == "amdgpu"@ || module == "radeon"@ {
        GpuDriver::Amdgpu
    } else if module == "nvidia"@ || module == "nvidia-drm"@ {
        GpuDriver::Nvidia
    } else if module == "nouveau"@ {
        GpuDriver::Nouveau
    } else {
        GpuDriver::Unknown
    }
}

impl GpuDriver {
    /// Builds from the module name in `/sys/class/drm/*/device/driver`.
    pub fn from_kernel_module(name: &str) -> (res: Self)
        ensures
            res == driver_of(name@),
    {
        let chars = chars_of(name);
        let module = chars.as_slice();
        if is_text(module, "i915") {
            GpuDriver::I915
        } else if is_text(module, "xe") {
            GpuDriver::Xe
        } else if is_text(module, "amdgpu") || is_text(module, "radeon") {
            GpuDriver::Amdgpu
        } else if is_text(module, "nvidia") || is_text(module, "nvidia-drm") {
            GpuDriver::Nvidia
        } else if is_text(module, "nouveau") {
            GpuDriver::Nouveau
        } else {
            GpuDriver::Unknown
        }
    }

    /// Is hardware encoding considered trustworthy on this driver?
    pub fn hardware_encode_is_reliable(self) -> (res: bool)
        ensures
            res == (self != GpuDriver::Nouveau),
    {
        match self {
            // `nouveau` exposes no usable NVENC.
            GpuDriver::Nouveau => false,
            _ => true,
        }
    }
}

/// Whether an encoder can be used on a driver: software always; hardware where
/// the driver is trustworthy and the stacks match (NVENC only on NVIDIA, VA-API
/// not under NVIDIA's proprietary driver).
pub open spec fn usable(encoder: H264Encoder, driver: GpuDriver) -> bool {
    ||| !in_hardware(encoder)
    ||| {
        &&& driver != GpuDriver::Nouveau
        &&& encoder == H264Encoder::NvH264 ==> driver == GpuDriver::Nvidia
        &&& on_va(encoder) ==> driver != GpuDriver::Nvidia
    }
}

fn is_usable(encoder: H264Encoder, driver: GpuDriver) -> (res: bool)
    ensures
        res == usable(encoder, driver),
{
    if !encoder.is_hardware() {
        return true;
    }
    if !driver.hardware_encode_is_reliable() {
        return false;
    }
    if encoder == H264Encoder::NvH264 {
        return driver == GpuDriver::Nvidia;
    }
    !(encoder.is_va() && driver == GpuDriver::Nvidia)
}

/// No two encoders have the same priority.
pub proof fn priorities_are_distinct(a: H264Encoder, b: H264Encoder)
    ensures
        priority_of(a) == priority_of(b) ==> a == b,
{
}

/// Whether `names` holds the element of `encoder`.
pub open spec fn is_installed(encoder: H264Encoder, names: Seq<String>) -> bool {
    exists|i: int| 0 <= i < names.len() && (#[trigger] names[i])@ == element_of(encoder)
}

/// The encoders of `all` whose elements are installed, in order.
pub open spec fn installed_among(all: Seq<H264Encoder>, names: Seq<String>) -> Seq<H264Encoder>
    decreases all.len(),
{
    if all.len() == 0 {
        Seq::empty()
    } else {
        let before = installed_among(all.drop_last(), names);
        if is_installed(all.last(), names) {
            before.push(all.last())
        } else {
            before
        }
    }
}

/// The known encoders, in the order in which the registry is scanned.
pub open spec fn all_encoders() -> Seq<H264Encoder> {
    seq![
        H264Encoder::VaH264,
        H264Encoder::VaapiH264,
        H264Encoder::NvH264,
        H264Encoder::V4l2H264,
        H264Encoder::X264,
        H264Encoder::OpenH264,
    ]
}

fn holds_element(encoder: H264Encoder, names: &[String]) -> (res: bool)
    ensures
        res == is_installed(encoder, names@),
{
    let mut i: usize = 0;
    while i < names.len()
        invariant
            i <= names@.len(),
            forall|j: int| 0 <= j < i ==> (#[trigger] names@[j])@ != element_of(encoder),
        decreases names@.len() - i,
    {
        if same_text(names[i].as_str(), encoder.element()) {
            return true;
        }
        i += 1;
    }
    false
}

/// The encoders actually installed, given the names of the elements that the
/// registry holds.
pub fn probe_encoders(names: &[String]) -> (res: Vec<H264Encoder>)
    ensures
        res@ == installed_among(all_encoders(), names@),
{
    let all: [H264Encoder; 6] = [
        H264Encoder::VaH264,
        H264Encoder::VaapiH264,
        H264Encoder::NvH264,
        H264Encoder::V4l2H264,
        H264Encoder::X264,
        H264Encoder::OpenH264,
    ];
    assert(all@ =~= all_encoders());
    let mut res: Vec<H264Encoder> = Vec::new();
    let mut i: usize = 0;
    while i < 6
        invariant
            i <= 6,
            all@ == all_encoders(),
            res@ == installed_among(all@.take(i as int), names@),
        decreases 6 - i,
    {
        assert(all@.take(i + 1).drop_last() =~= all@.take(i as int));
        let encoder = all[i];
        if holds_element(encoder, names) {
            res.push(encoder);
        }
        i += 1;
    }
    assert(all@.take(6) =~= all@);
    res
}

/// Whether `choice` is the best usable encoder of a list: usable and listed,
/// and none that is both has a higher priority. `None` where none is both.
pub open spec fn is_best(
    available: Seq<H264Encoder>,
    driver: GpuDriver,
    choice: Option<H264Encoder>,
) -> bool {
    match choice {
        Some(best) => {
            &&& available.contains(best)
            &&& usable(best, driver)
            &&& forall|i: int|
                0 <= i < available.len() && usable(#[trigger] available[i], driver)
                    ==> priority_of(available[i]) <= priority_of(best)
        },
        None => forall|i: int|
            0 <= i < available.len() ==> !usable(#[trigger] available[i], driver),
    }
}

/// Picks the best encoder from a list of candidates.
///
/// Hardware encoding is discarded when the driver is known to be problematic
/// (`nouveau`), and stacks are never crossed.
pub fn select_encoder(available: &[H264Encoder], driver: GpuDriver) -> (res: Option<H264Encoder>)
    ensures
        is_best(available@, driver, res),
{
    let mut best: Option<H264Encoder> = None;
    let mut i: usize = 0;
    while i < available.len()
        invariant
            i <= available@.len(),
            is_best(available@.take(i as int), driver, best),
        decreases available@.len() - i,
    {
        let encoder = available[i];
        let ghost before = available@.take(i as int);
        let ghost after = available@.take(i + 1);
        assert(after =~= before.push(encoder));
        assert forall|j: int| 0 <= j < before.len() implies after[j] == before[j] by {}
        let better = match best {
            Some(known) => encoder.priority() >= known.priority(),
            None => true,
        };
        proof {
            if let Some(known) = best {
                let j = choose|j: int| 0 <= j < before.len() && before[j] == known;
                assert(after[j] == known);
            }
            assert(after[i as int] == encoder);
        }
        if is_usable(encoder, driver) && better {
            best = Some(encoder);
        }
        i += 1;
    }
    assert(available@.take(i as int) =~= available@);
    best
}

/// The best encoder is one and the same however a list is searched.
pub proof fn best_is_unique(
    available: Seq<H264Encoder>,
    driver: GpuDriver,
    a: Option<H264Encoder>,
    b: Option<H264Encoder>,
)
    requires
        is_best(available, driver, a),
        is_best(available, driver, b),
    ensures
        a == b,
{
    if let Some(x) = a {
        let i = choose|i: int| 0 <= i < available.len() && available[i] == x;
        assert(usable(available[i], driver));
    }
    if let Some(y) = b {
        let j = choose|j: int| 0 <= j < available.len() && available[j] == y;
        assert(usable(available[j], driver));
    }
    if a is Some && b is Some {
        priorities_are_distinct(a->0, b->0);
    }
}

/// Where software is available there is always something to fall back on, and
/// hardware never crosses stacks.
pub proof fn selection_never_crosses_stacks(
    available: Seq<H264Encoder>,
    driver: GpuDriver,
    choice: Option<H264Encoder>,
)
    requires
        is_best(available, driver, choice),
    ensures
        choice == Some(H264Encoder::NvH264) ==> driver == GpuDriver::Nvidia,
        choice matches Some(e) && on_va(e) ==> driver != GpuDriver::Nvidia,
        driver == GpuDriver::Nouveau ==> (choice matches Some(e) ==> !in_hardware(e)),
        available.contains(H264Encoder::X264) ==> choice is Some,
{
    if available.contains(H264Encoder::X264) {
        let i = choose|i: int| 0 <= i < available.len() && available[i] == H264Encoder::X264;
        assert(usable(available[i], driver));
    }
}

/// The usable encoders of a list, in order.
pub open spec fn usable_among(available: Seq<H264Encoder>, driver: GpuDriver) -> Seq<H264Encoder>
    decreases available.len(),
{
    if available.len() == 0 {
        Seq::empty()
    } else {
        let before = usable_among(available.drop_last(), driver);
        if usable(available.last(), driver) {
            before.push(available.last())
        } else {
            before
        }
    }
}

/// Whether encoders come in order of preference.
pub open spec fn by_preference(encoders: Seq<H264Encoder>) -> bool {
    forall|i: int, j: int|
        0 <= i < j < encoders.len() ==> priority_of(#[trigger] encoders[i]) >= priority_of(
            #[trigger] encoders[j],
        )
}

/// Whether `order` is the usable encoders of a list in order of preference.
pub open spec fn is_attempt_order(
    available: Seq<H264Encoder>,
    driver: GpuDriver,
    order: Seq<H264Encoder>,
) -> bool {
    by_preference(order) && order.to_multiset() == usable_among(available, driver).to_multiset()
}

/// The encoder that a forced name stands for: the first available one whose
/// element it is.
pub open spec fn forced_encoder(available: Seq<H264Encoder>, name: Option<Seq<char>>) -> Option<
    H264Encoder,
>
    decreases available.len(),
{
    if available.len() == 0 {
        None
    } else if name == Some(element_of(available[0])) {
        Some(available[0])
    } else {
        forced_encoder(available.skip(1), name)
    }
}

fn find_forced(available: &[H264Encoder], name: Option<&str>) -> (res: Option<H264Encoder>)
    ensures
        res == forced_encoder(
            available@,
            match name {
                Some(text) => Some(text@),
                None => None,
            },
        ),
{
    let ghost wanted = match name {
        Some(text) => Some(text@),
        None => None,
    };
    let mut i: usize = 0;
    assert(available@.skip(0) =~= available@);
    while i < available.len()
        invariant
            i <= available@.len(),
            wanted == (match name {
                Some(text) => Some(text@),
                None => None,
            }),
            forced_encoder(available@, wanted) == forced_encoder(
                available@.skip(i as int),
                wanted,
            ),
        decreases available@.len() - i,
    {
        assert(available@.skip(i as int).skip(1) =~= available@.skip(i + 1));
        if let Some(text) = name {
            if same_text(text, available[i].element()) {
                return Some(available[i]);
            }
        }
        i += 1;
    }
    None
}

fn insert_by_preference(order: &mut Vec<H264Encoder>, encoder: H264Encoder)
    requires
        by_preference(old(order)@),
    ensures
        by_preference(final(order)@),
        final(order)@.to_multiset() == old(order)@.to_multiset().insert(encoder),
{
    let mut at: usize = 0;
    while at < order.len() && order[at].priority() >= encoder.priority()
        invariant
            at <= order@.len(),
            order@ == old(order)@,
            forall|j: int|
                0 <= j < at ==> priority_of(#[trigger] order@[j]) >= priority_of(encoder),
        decreases order@.len() - at,
    {
        at += 1;
    }
    order.insert(at, encoder);
    proof {
        let before = old(order)@;
        let after = order@;
        assert(after =~= before.insert(at as int, encoder));
        broadcast use vstd::seq_lib::group_to_multiset_ensures;

        assert(after.remove(at as int) =~= before);
        assert(after.to_multiset().count(encoder) > 0) by {
            assert(after[at as int] == encoder);
            assert(after.contains(encoder));
        }
        assert(before.to_multiset() =~= after.to_multiset().remove(encoder));
        assert(after.to_multiset() =~= before.to_multiset().insert(encoder));
        assert forall|i: int, j: int| 0 <= i < j < after.len() implies priority_of(
            #[trigger] after[i],
        ) >= priority_of(#[trigger] after[j]) by {
            if j < at {
                assert(after[i] == before[i] && after[j] == before[j]);
            } else if j == at {
                assert(after[i] == before[i]);
            } else if i < at {
                assert(after[i] == before[i] && after[j] == before[j - 1]);
            } else if i == at {
                assert(after[j] == before[j - 1]);
                assert(priority_of(before[at as int]) < priority_of(encoder));
                assert(priority_of(before[at as int]) >= priority_of(before[j - 1]));
            } else {
                assert(after[i] == before[i - 1] && after[j] == before[j - 1]);
            }
        }
    }
}

/// The order in which encoders are tried: hardware first, software in reserve.
/// A forced name that is available is the only one tried.
///
/// The decision is made **at runtime**: the GPU is tried and, if it produces no
/// frames, the next one takes over. Only the structural filtering is static.
pub fn encoder_candidates(
    available: &[H264Encoder],
    driver: GpuDriver,
    forced: Option<&str>,
) -> (res: Vec<H264Encoder>)
    ensures
        match forced_encoder(
            available@,
            match forced {
                Some(name) => Some(name@),
                None => None,
            },
        ) {
            Some(encoder) => res@ == seq![encoder],
            None => is_attempt_order(available@, driver, res@),
        },
{
    let mut order: Vec<H264Encoder> = Vec::new();
    if let Some(encoder) = find_forced(available, forced) {
        order.push(encoder);
        assert(order@ =~= seq![encoder]);
        return order;
    }
    let mut i: usize = 0;
    assert(order@ =~= usable_among(available@.take(0), driver));
    while i < available.len()
        invariant
            i <= available@.len(),
            is_attempt_order(available@.take(i as int), driver, order@),
        decreases available@.len() - i,
    {
        let encoder = available[i];
        let ghost before = usable_among(available@.take(i as int), driver);
        assert(available@.take(i + 1).drop_last() =~= available@.take(i as int));
        if is_usable(encoder, driver) {
            insert_by_preference(&mut order, encoder);
            proof {
                broadcast use vstd::seq_lib::group_to_multiset_ensures;

                assert(before.push(encoder).to_multiset() =~= before.to_multiset().insert(encoder));
            }
        }
        i += 1;
    }
    assert(available@.take(i as int) =~= available@);
    order
}

/// Software stays in reserve: every available software encoder is among those
/// tried where none is forced.
pub proof fn candidates_keep_a_software_backup(
    available: Seq<H264Encoder>,
    driver: GpuDriver,
    order: Seq<H264Encoder>,
    backup: H264Encoder,
)
    requires
        is_attempt_order(available, driver, order),
        available.contains(backup),
        !in_hardware(backup),
    ensures
        order.contains(backup),
{
    broadcast use vstd::seq_lib::group_to_multiset_ensures;

    usable_are_kept(available, driver, backup);
    assert(usable_among(available, driver).to_multiset().count(backup) > 0);
}

proof fn usable_are_kept(available: Seq<H264Encoder>, driver: GpuDriver, encoder: H264Encoder)
    requires
        available.contains(encoder),
        usable(encoder, driver),
    ensures
        usable_among(available, driver).contains(encoder),
    decreases available.len(),
{
    let i = choose|i: int| 0 <= i < available.len() && available[i] == encoder;
    let before = usable_among(available.drop_last(), driver);
    if i == available.len() - 1 {
        assert(usable_among(available, driver).last() == encoder);
    } else {
        assert(available.drop_last()[i] == encoder);
        usable_are_kept(available.drop_last(), driver, encoder);
        let j = choose|j: int| 0 <= j < before.len() && before[j] == encoder;
        assert(usable_among(available, driver)[j] == encoder);
    }
}

/// Why no encoder can be used.
pub open spec fn no_encoder_text() -> Seq<char> {
    "nenhum encoder H.264 encontrado — instale gst-plugins-ugly (x264) ou gst-plugins-bad (openh264/va)"@
}

/// The encoder to use: the forced one where it is available, else the best.
pub fn best_encoder(available: &[H264Encoder], driver: GpuDriver, forced: Option<&str>) -> (res:
    Result<H264Encoder, NdError>)
    ensures
        match forced_encoder(
            available@,
            match forced {
                Some(name) => Some(name@),
                None => None,
            },
        ) {
            Some(encoder) => res == Ok::<H264Encoder, NdError>(encoder),
            None => match res {
                Ok(encoder) => is_best(available@, driver, Some(encoder)),
                Err(error) => is_best(available@, driver, None) && error@ == ErrorView::Unsupported(no_encoder_text()),
            },
        },
{
    if let Some(encoder) = find_forced(available, forced) {
        return Ok(encoder);
    }
    match select_encoder(available, driver) {
        Some(encoder) => Ok(encoder),
        None => Err(
            unsupported_error(
                "nenhum encoder H.264 encontrado — instale gst-plugins-ugly (x264) ou gst-plugins-bad (openh264/va)",
            ),
        ),
    }
}

/// Where the video frames come from.
#[derive(Clone, Copy, Debug, PartialEq, Eq, Structural)]
pub enum VideoSource {
    /// The PipeWire stream handed over by the portal/Mutter.
    ///
    /// `node_id` may **never** be missing: a `pipewiresrc` without `path` picks
    /// an arbitrary node from the daemon instead of the one the capture session
    /// authorised. `fd` is the portal's remote descriptor; with Mutter directly
    /// the node lives in the session's own daemon and `fd` is `None`.
    PipeWire { fd: Option<i32>, node_id: u32 },
    /// A test pattern (diagnostic, needing no capture session).
    Test,
    /// An **animated** pattern with a clock overlaid: it tells a live picture
    /// from a frozen one, and the clock allows measuring the delay.
    Diagnostic,
}

/// The element of a video source.
#[verifier::opaque]
pub open spec fn source_text(source: VideoSource) -> Seq<char> {
    match source {
        VideoSource::PipeWire { fd: Some(fd), node_id } => "pipewiresrc fd="@ + signed_decimal(fd as int) + " path="@ + decimal(node_id as nat) + " do-timestamp=true keepalive-time=1000 resend-last=true"@,
        VideoSource::PipeWire { fd: None, node_id } => "pipewiresrc path="@ + decimal(node_id as nat) + " do-timestamp=true keepalive-time=1000 resend-last=true"@,
        VideoSource::Test => "videotestsrc is-live=true"@,
        VideoSource::Diagnostic => "videotestsrc is-live=true pattern=ball ! timeoverlay halignment=center valignment=center font-desc=\"Sans 48\" time-mode=running-time"@,
    }
}

impl VideoSource {
    /// The element of this source.
    ///
    /// `keepalive-time`/`resend-last` make it re-emit the last frame when the
    /// screen is still; without them the encoder starves.
    pub fn description(&self) -> (res: String)
        ensures
            res@ == source_text(*self),
    {
        proof {
            reveal(source_text);
        }
        match *self {
            VideoSource::PipeWire { fd, node_id } => {
                let node = number_text(node_id as u64);
                match fd {
                    Some(fd) => {
                        let fd_text = signed_text(fd as i64);
                        copied("pipewiresrc fd=").concat(fd_text.as_str()).concat(" path=").concat(node.as_str()).concat(" do-timestamp=true keepalive-time=1000 resend-last=true")
                    },
                    None => copied("pipewiresrc path=").concat(node.as_str()).concat(" do-timestamp=true keepalive-time=1000 resend-last=true"),
                }
            },
            VideoSource::Test => copied("videotestsrc is-live=true"),
            VideoSource::Diagnostic => copied(
                "videotestsrc is-live=true pattern=ball ! timeoverlay halignment=center valignment=center font-desc=\"Sans 48\" time-mode=running-time",
            ),
        }
    }
}

/// Where the streamed programme's audio comes from.
#[derive(Clone, Copy, Debug, PartialEq, Eq, Structural)]
pub enum AudioSource {
    /// Synthesised silence. **Not optional on WFD:** the sink declares an A/V
    /// session and discards the programme if it arrives with video alone.
    Silence,
    /// System audio: the default output's *monitor*.
    System,
}

/// The element of an audio source.
pub open spec fn audio_text(audio: AudioSource) -> Seq<char> {
    match audio {
        AudioSource::Silence => "audiotestsrc is-live=true wave=silence samplesperbuffer=480"@,
        AudioSource::System => "pulsesrc device=@DEFAULT_MONITOR@ provide-clock=false do-timestamp=true"@,
    }
}

impl AudioSource {
    /// Picks the best source, given whether system audio can be captured.
    /// Sending silence beats sending nothing.
    pub fn detect(has_pulse_source: bool) -> (res: Self)
        ensures
            res == (if has_pulse_source {
                AudioSource::System
            } else {
                AudioSource::Silence
            }),
    {
        if has_pulse_source {
            AudioSource::System
        } else {
            AudioSource::Silence
        }
    }

    /// The element of this source.
    pub fn description(&self) -> (res: &'static str)
        ensures
            res@ == audio_text(*self),
    {
        match self {
            // 480 samples are 10 ms at 48 kHz.
            AudioSource::Silence => "audiotestsrc is-live=true wave=silence samplesperbuffer=480",
            // The server resolves the monitor, and follows whatever device the
            // user switches to mid-session.
            AudioSource::System => "pulsesrc device=@DEFAULT_MONITOR@ provide-clock=false do-timestamp=true",
        }
    }
}

/// What the environment overrides, for bisecting problems in the field.
#[derive(Debug)]
pub struct Overrides {
    /// Distance between keyframes.
    pub gop: Option<u32>,
    /// Pipeline latency.
    pub latency_ms: Option<u64>,
    /// Whether the RTP sink waits on the clock before sending each packet. Off
    /// by default: the source is live, so waiting is pure delay.
    pub rtp_sync: bool,
    /// How `multisocketsink` positions a client that has just connected.
    pub sync_method: Option<String>,
}

/// Whether a text switches something on: `1`, or `true` in any case.
pub open spec fn switches_on(text: Option<Seq<char>>) -> bool {
    match text {
        Some(value) => value == "1"@ || lowered(value) == lowered("true"@),
        None => false,
    }
}

impl Overrides {
    /// Nothing overridden.
    pub fn none() -> (res: Self)
        ensures
            res.gop is None,
            res.latency_ms is None,
            !res.rtp_sync,
            res.sync_method is None,
    {
        Overrides { gop: None, latency_ms: None, rtp_sync: false, sync_method: None }
    }

    /// Reads the values of `BIGNETSCREEN_GOP`,
    /// `BIGNETSCREEN_PIPELINE_LATENCY_MS`, `BIGNETSCREEN_RTP_SYNC` and
    /// `BIGNETSCREEN_CC_SYNC_METHOD`. A number that cannot be read overrides
    /// nothing.
    pub fn read(
        gop: Option<&str>,
        latency_ms: Option<&str>,
        rtp_sync: Option<&str>,
        sync_method: Option<&str>,
    ) -> (res: Self)
        ensures
            res.gop == (match gop {
                Some(text) => match number(text@, u32::MAX as nat) {
                    Some(n) => Some(n as u32),
                    None => None,
                },
                None => None,
            }),
            res.latency_ms == (match latency_ms {
                Some(text) => match number(text@, u64::MAX as nat) {
                    Some(n) => Some(n as u64),
                    None => None,
                },
                None => None,
            }),
            res.rtp_sync == switches_on(
                match rtp_sync {
                    Some(text) => Some(text@),
                    None => None,
                },
            ),
            text_of(res.sync_method) == (match sync_method {
                Some(text) => Some(text@),
                None => None,
            }),
    {
        let gop = match gop {
            Some(text) => {
                let chars = chars_of(text);
                match parse_number(chars.as_slice(), u32::MAX as u64) {
                    Some(n) => Some(n as u32),
                    None => None,
                }
            },
            None => None,
        };
        let latency_ms = match latency_ms {
            Some(text) => {
                let chars = chars_of(text);
                parse_number(chars.as_slice(), u64::MAX)
            },
            None => None,
        };
        let rtp_sync = match rtp_sync {
            Some(text) => {
                let chars = chars_of(text);
                is_text(chars.as_slice(), "1") || is_text_ignoring_case(chars.as_slice(), "true")
            },
            None => false,
        };
        let sync_method = match sync_method {
            Some(text) => Some(copied(text)),
            None => None,
        };
        Overrides { gop, latency_ms, rtp_sync, sync_method }
    }
}

impl Clone for Overrides {
    fn clone(&self) -> (res: Self)
        ensures
            res.gop == self.gop,
            res.latency_ms == self.latency_ms,
            res.rtp_sync == self.rtp_sync,
            text_of(res.sync_method) == text_of(self.sync_method),
    {
        Overrides {
            gop: self.gop,
            latency_ms: self.latency_ms,
            rtp_sync: self.rtp_sync,
            sync_method: copied_option(&self.sync_method),
        }
    }
}

/// A cast session's parameters (negotiated resolution/fps/bitrate).
#[derive(Debug)]
pub struct StreamConfig {
    pub width: u32,
    pub height: u32,
    pub fps: u32,
    /// `0` = derive it from the cap scaled by resolution and frame rate.
    pub bitrate_kbps: u32,
    pub encoder: H264Encoder,
    pub audio: AudioSource,
    /// Periodic Intra Refresh on x264. Off by default: without periodic IDRs,
    /// older receivers cannot join the stream after it has started.
    pub intra_refresh: bool,
    /// What the environment overrides.
    pub overrides: Overrides,
}

impl Clone for StreamConfig {
    fn clone(&self) -> (res: Self)
        ensures
            res.width == self.width,
            res.height == self.height,
            res.fps == self.fps,
            res.bitrate_kbps == self.bitrate_kbps,
            res.encoder == self.encoder,
            res.audio == self.audio,
            res.intra_refresh == self.intra_refresh,
            res.overrides.gop == self.overrides.gop,
            res.overrides.latency_ms == self.overrides.latency_ms,
            res.overrides.rtp_sync == self.overrides.rtp_sync,
            text_of(res.overrides.sync_method) == text_of(self.overrides.sync_method),
    {
        StreamConfig {
            width: self.width,
            height: self.height,
            fps: self.fps,
            bitrate_kbps: self.bitrate_kbps,
            encoder: self.encoder,
            audio: self.audio,
            intra_refresh: self.intra_refresh,
            overrides: self.overrides.clone(),
        }
    }
}

impl Default for StreamConfig {
    fn default() -> (res: Self)
        ensures
            res.width == 1920,
            res.height == 1080,
            res.fps == 30,
            res.bitrate_kbps == 0,
            res.encoder == H264Encoder::X264,
            res.audio == AudioSource::Silence,
            !res.intra_refresh,
            res.overrides.gop is None,
            res.overrides.latency_ms is None,
            !res.overrides.rtp_sync,
            res.overrides.sync_method is None,
    {
        StreamConfig {
            width: 1920,
            height: 1080,
            fps: 30,
            bitrate_kbps: 0,
            encoder: H264Encoder::X264,
            audio: AudioSource::Silence,
            intra_refresh: false,
            overrides: Overrides::none(),
        }
    }
}

/// The bitrate cap of a picture size at 30 Hz, in kbit/s.
pub open spec fn base_bitrate(width: u32, height: u32) -> u32 {
    let pixels = width * height;
    if pixels <= 640 * 480 {
        6_000
    } else if pixels <= 1280 * 720 {
        9_000
    } else if pixels <= 1920 * 1080 {
        10_000
    } else if pixels <= 2560 * 1440 {
        14_000
    } else {
        20_000
    }
}

/// The rates at which scaling in single precision falls one short of the exact
/// product.
pub open spec fn rounds_short(base: u32, fps: u32) -> bool {
    ||| base == 6_000 && (fps == 33 || fps == 48 || fps == 49)
    ||| base == 9_000 && fps == 49
    ||| base == 14_000 && fps == 33
}

/// A bitrate cap scaled by frame rate: linear between 30 and 60 Hz, where it is
/// one and a half times the base.
pub open spec fn at_rate(base: u32, fps: u32) -> u32 {
    if fps > 30 {
        let rate: u32 = if fps < 60 { fps } else { 60 };
        (base * (30 + rate) / 60 - (if rounds_short(base, rate) { 1int } else { 0 })) as u32
    } else {
        base
    }
}

/// The bitrate of a session: what was asked for, else the scaled cap.
pub open spec fn scaled_bitrate(cfg: StreamConfig) -> u32 {
    if cfg.bitrate_kbps != 0 {
        cfg.bitrate_kbps
    } else {
        at_rate(base_bitrate(cfg.width, cfg.height), cfg.fps)
    }
}

/// The maximum distance between keyframes: one second, at least one frame.
pub open spec fn key_frame_distance(cfg: StreamConfig) -> u32 {
    let asked = match cfg.overrides.gop {
        Some(gop) => gop,
        None => cfg.fps,
    };
    if asked < 1 {
        1
    } else {
        asked
    }
}

/// The latency of a session's pipeline.
pub open spec fn session_latency(cfg: StreamConfig) -> u64 {
    match cfg.overrides.latency_ms {
        Some(ms) => ms,
        None => if cfg.encoder == H264Encoder::OpenH264 {
            OPENH264_PIPELINE_LATENCY_MS
        } else {
            PIPELINE_LATENCY_MS
        },
    }
}

/// `n`, or the even number below it.
pub open spec fn even(n: int) -> int {
    n - n % 2
}

/// `n`, or the even number below it, but at least 2.
pub open spec fn even_side(n: int) -> int {
    even(if n > 2 { n } else { 2 })
}

/// A size shrunk to fit a cap: as it is where it fits, else scaled by the more
/// restrictive side. Sides are even. An empty size gives the cap.
pub open spec fn fitted(source: (u32, u32), max: (u32, u32)) -> (int, int) {
    let (w, h) = (source.0 as int, source.1 as int);
    let (max_w, max_h) = (max.0 as int, max.1 as int);
    if w == 0 || h == 0 {
        (max_w, max_h)
    } else if w <= max_w && h <= max_h {
        (even(w), even(h))
    } else if h * max_w / w <= max_h {
        (even_side(max_w), even_side(h * max_w / w))
    } else {
        (even_side(w * max_h / h), even_side(max_h))
    }
}

/// The scaling and conversion of the picture, on the GPU where the encoder is
/// there too. Frames that will be dropped pay for neither.
#[verifier::opaque]
pub open spec fn convert_text(cfg: StreamConfig) -> Seq<char> {
    if on_va(cfg.encoder) {
        "videorate ! vapostproc add-borders=true ! video/x-raw,format="@ + format_of(cfg.encoder) + ",width="@ + decimal(cfg.width as nat) + ",height="@ + decimal(cfg.height as nat) + ",framerate="@ + decimal(cfg.fps as nat) + "/1"@
    } else {
        "videorate ! videoscale add-borders=true ! videoconvert n-threads=0 ! video/x-raw,format="@ + format_of(cfg.encoder) + ",width="@ + decimal(cfg.width as nat) + ",height="@ + decimal(cfg.height as nat) + ",framerate="@ + decimal(cfg.fps as nat) + "/1"@
    }
}

/// The video queue: it leaks, since an old frame is of no interest.
pub open spec fn video_queue_text() -> Seq<char> {
    "queue max-size-buffers="@ + decimal(VIDEO_QUEUE_BUFFERS as nat) + " max-size-time="@ + decimal(
        VIDEO_QUEUE_MS as nat,
    ) + "000000 max-size-bytes=0 leaky=downstream"@
}

/// The audio queue on the muxed path.
pub open spec fn audio_queue_text() -> Seq<char> {
    "queue max-size-buffers="@ + decimal(AUDIO_QUEUE_BUFFERS as nat) + " max-size-time="@ + decimal(
        AUDIO_QUEUE_MS as nat,
    ) + "000000 max-size-bytes=0 leaky=downstream"@
}

/// The mirroring audio queue: it does not leak, since dropping samples opens a
/// hole in the sound.
pub open spec fn mirror_audio_queue_text() -> Seq<char> {
    "queue max-size-buffers="@ + decimal(MIRROR_AUDIO_QUEUE_BUFFERS as nat)
        + " max-size-time="@ + decimal(MIRROR_AUDIO_QUEUE_MS as nat) + "000000 max-size-bytes=0"@
}

/// The AAC audio branch attached to a pad of the muxer.
#[verifier::opaque]
pub open spec fn audio_branch_text(cfg: StreamConfig, mux_pad: Seq<char>) -> Seq<char> {
    audio_text(cfg.audio) + " ! audioconvert ! audioresample ! audio/x-raw,rate=48000,channels=2 ! "@ + audio_queue_text() + " ! avenc_aac bitrate=128000 ! aacparse ! "@ + mux_pad
}

impl StreamConfig {
    /// The bitrate cap (CBR), scaled by resolution **and frame rate**.
    pub fn scaled_bitrate_kbps(&self) -> (res: u32)
        ensures
            res == scaled_bitrate(*self),
    {
        if self.bitrate_kbps != 0 {
            return self.bitrate_kbps;
        }
        assert(self.width * self.height <= u64::MAX) by (nonlinear_arith)
            requires
                self.width <= u32::MAX,
                self.height <= u32::MAX,
        ;
        let pixels: u64 = self.width as u64 * self.height as u64;
        let base: u32 = if pixels <= 640 * 480 {
            6_000
        } else if pixels <= 1280 * 720 {
            9_000
        } else if pixels <= 1920 * 1080 {
            10_000
        } else if pixels <= 2560 * 1440 {
            14_000
        } else {
            20_000
        };
        if self.fps <= 30 {
            return base;
        }
        let rate: u32 = if self.fps < 60 { self.fps } else { 60 };
        let short = (base == 6_000 && (rate == 33 || rate == 48 || rate == 49)) || (base == 9_000
            && rate == 49) || (base == 14_000 && rate == 33);
        let exact: u32 = base * (30 + rate) / 60;
        if short {
            exact - 1
        } else {
            exact
        }
    }

    /// Shrinks a resolution to fit a cap **while preserving the aspect ratio**.
    ///
    /// It returns even dimensions (H.264 requires them) and never enlarges: a
    /// screen smaller than the cap is streamed at its original size.
    pub fn fit_within(source: (u32, u32), max: (u32, u32)) -> (res: (u32, u32))
        ensures
            res.0 == fitted(source, max).0,
            res.1 == fitted(source, max).1,
    {
        let (w, h) = source;
        let (max_w, max_h) = max;
        if w == 0 || h == 0 {
            return max;
        }
        if w <= max_w && h <= max_h {
            return (w - w % 2, h - h % 2);
        }
        proof {
            products_fit(h, max_w);
            products_fit(w, max_h);
        }
        // Scale by the most restrictive axis, using integer arithmetic.
        let scaled_h: u64 = h as u64 * max_w as u64 / w as u64;
        if scaled_h <= max_h as u64 {
            (even_at_least_two(max_w), even_at_least_two(scaled_h as u32))
        } else {
            let scaled_w: u64 = w as u64 * max_h as u64 / h as u64;
            proof {
                narrower_side_fits(w as int, h as int, max_w as int, max_h as int);
            }
            (even_at_least_two(scaled_w as u32), even_at_least_two(max_h))
        }
    }

    /// The maximum distance between keyframes.
    ///
    /// One second: over an unstable link the GOP sets the recovery time after
    /// packet loss.
    pub fn gop(&self) -> (res: u32)
        ensures
            res == key_frame_distance(*self),
    {
        let asked: u32 = match self.overrides.gop {
            Some(gop) => gop,
            None => self.fps,
        };
        if asked < 1 {
            1
        } else {
            asked
        }
    }

    /// The pipeline latency suited to the chosen encoder.
    pub fn latency_ms(&self) -> (res: u64)
        ensures
            res == session_latency(*self),
    {
        match self.overrides.latency_ms {
            Some(ms) => ms,
            None => self.encoder.pipeline_latency_ms(),
        }
    }

    /// The `rate → scale → convert` fragment, tuned per encoder.
    pub fn convert_scale(&self) -> (res: String)
        ensures
            res@ == convert_text(*self),
    {
        proof {
            reveal(convert_text);
        }
        let fmt = self.encoder.preferred_format();
        let width = number_text(self.width as u64);
        let height = number_text(self.height as u64);
        let fps = number_text(self.fps as u64);
        if self.encoder.is_va() {
            copied("videorate ! vapostproc add-borders=true ! video/x-raw,format=").concat(fmt).concat(",width=").concat(width.as_str()).concat(",height=").concat(height.as_str()).concat(",framerate=").concat(fps.as_str()).concat("/1")
        } else {
            copied("videorate ! videoscale add-borders=true ! videoconvert n-threads=0 ! video/x-raw,format=").concat(fmt).concat(",width=").concat(width.as_str()).concat(",height=").concat(height.as_str()).concat(",framerate=").concat(fps.as_str()).concat("/1")
        }
    }

    /// The video branch's queue.
    pub fn video_queue(&self) -> (res: String)
        ensures
            res@ == video_queue_text(),
    {
        let buffers = number_text(VIDEO_QUEUE_BUFFERS as u64);
        let ms = number_text(VIDEO_QUEUE_MS);
        copied("queue max-size-buffers=").concat(buffers.as_str()).concat(" max-size-time=").concat(
            ms.as_str(),
        ).concat("000000 max-size-bytes=0 leaky=downstream")
    }

    /// The audio branch's queue on the muxed path.
    pub fn audio_queue(&self) -> (res: String)
        ensures
            res@ == audio_queue_text(),
    {
        let buffers = number_text(AUDIO_QUEUE_BUFFERS as u64);
        let ms = number_text(AUDIO_QUEUE_MS);
        copied("queue max-size-buffers=").concat(buffers.as_str()).concat(" max-size-time=").concat(
            ms.as_str(),
        ).concat("000000 max-size-bytes=0 leaky=downstream")
    }

    /// The Cast mirroring audio branch's queue — **without** `leaky`.
    pub fn mirror_audio_queue(&self) -> (res: String)
        ensures
            res@ == mirror_audio_queue_text(),
    {
        let buffers = number_text(MIRROR_AUDIO_QUEUE_BUFFERS as u64);
        let ms = number_text(MIRROR_AUDIO_QUEUE_MS);
        copied("queue max-size-buffers=").concat(buffers.as_str()).concat(" max-size-time=").concat(
            ms.as_str(),
        ).concat("000000 max-size-bytes=0")
    }

    /// Is an audio track configured?
    pub fn audio_enabled(&self) -> (res: bool)
        ensures
            res,
    {
        true
    }

    /// The AAC audio branch attached to the given pad of the muxer named `mux`.
    fn audio_branch(&self, mux_pad: &str) -> (res: String)
        ensures
            res@ == audio_branch_text(*self, mux_pad@),
    {
        proof {
            reveal(audio_branch_text);
        }
        let queue = self.audio_queue();
        copied(self.audio.description()).concat(" ! audioconvert ! audioresample ! audio/x-raw,rate=48000,channels=2 ! ").concat(queue.as_str()).concat(" ! avenc_aac bitrate=128000 ! aacparse ! ").concat(mux_pad)
    }
}

fn even_at_least_two(n: u32) -> (res: u32)
    ensures
        res == even_side(n as int),
{
    let side: u32 = if n > 2 { n } else { 2 };
    side - side % 2
}

proof fn products_fit(a: u32, b: u32)
    ensures
        0 <= a * b <= u64::MAX,
{
    assert(0 <= a * b <= u64::MAX) by (nonlinear_arith)
        requires
            0 <= a <= u32::MAX,
            0 <= b <= u32::MAX,
    ;
}

proof fn narrower_side_fits(w: int, h: int, max_w: int, max_h: int)
    requires
        w > 0,
        h > 0,
        max_w >= 0,
        max_h >= 0,
        h * max_w / w > max_h,
    ensures
        0 <= w * max_h / h <= max_w,
{
    assert(w * max_h <= h * max_w) by (nonlinear_arith)
        requires
            w > 0,
            h * max_w / w > max_h,
    ;
    assert(0 <= w * max_h / h <= max_w) by (nonlinear_arith)
        requires
            w > 0,
            h > 0,
            max_h >= 0,
            w * max_h <= h * max_w,
    ;
}

/// Fitting never enlarges, fits the cap, and gives even sides, for a size and a
/// cap of at least two by two.
pub proof fn fitting_shrinks_to_even_sides(source: (u32, u32), max: (u32, u32))
    requires
        source.0 >= 2,
        source.1 >= 2,
        max.0 >= 2,
        max.1 >= 2,
    ensures
        ({
            let (w, h) = fitted(source, max);
            &&& 2 <= w <= source.0 && 2 <= h <= source.1
            &&& w <= max.0 && h <= max.1
            &&& w % 2 == 0 && h % 2 == 0
        }),
{
    let (w, h) = (source.0 as int, source.1 as int);
    let (max_w, max_h) = (max.0 as int, max.1 as int);
    if !(w <= max_w && h <= max_h) {
        if h * max_w / w <= max_h {
            // The width is the restrictive side: it cannot be within the cap.
            assert(w > max_w) by (nonlinear_arith)
                requires
                    w > 0,
                    h > 0,
                    h * max_w / w <= max_h,
                    w > max_w || h > max_h,
            ;
            assert(0 <= h * max_w / w <= h) by (nonlinear_arith)
                requires
                    w > max_w >= 0,
                    h > 0,
            ;
        } else {
            narrower_side_fits(w, h, max_w, max_h);
            assert(h > max_h) by (nonlinear_arith)
                requires
                    w > 0,
                    h > 0,
                    h * max_w / w > max_h,
                    w > max_w || h > max_h,
                    max_w >= 0,
            ;
            assert(w * max_h / h <= w) by (nonlinear_arith)
                requires
                    h > max_h >= 0,
                    w > 0,
            ;
        }
    }
}

/// A size within the cap is sent as it is, but for an odd side.
pub proof fn fitting_leaves_what_fits(source: (u32, u32), max: (u32, u32))
    requires
        0 < source.0 <= max.0,
        0 < source.1 <= max.1,
    ensures
        fitted(source, max) == (even(source.0 as int), even(source.1 as int)),
{
}

/// A size that had to shrink reaches the cap, or the even number below it, on one
/// side.
pub proof fn shrinking_reaches_the_cap(source: (u32, u32), max: (u32, u32))
    requires
        source.0 > 0,
        source.1 > 0,
        source.0 > max.0 || source.1 > max.1,
    ensures
        fitted(source, max).0 == even_side(max.0 as int) || fitted(source, max).1 == even_side(
            max.1 as int,
        ),
{
}

/// Fitting a fitted size again changes nothing, for a cap of at least two by two.
/// Left out are a size within the cap with a side of one, which evenness takes to
/// nothing, and an empty size where the cap itself is odd.
pub proof fn fitting_again_changes_nothing(source: (u32, u32), max: (u32, u32))
    requires
        max.0 >= 2,
        max.1 >= 2,
        if source.0 == 0 || source.1 == 0 {
            max.0 % 2 == 0 && max.1 % 2 == 0
        } else {
            source.0 <= max.0 && source.1 <= max.1 ==> source.0 >= 2 && source.1 >= 2
        },
    ensures
        ({
            let (w, h) = fitted(source, max);
            fitted((w as u32, h as u32), max) == (w, h)
        }),
{
    let (w, h) = (source.0 as int, source.1 as int);
    let (max_w, max_h) = (max.0 as int, max.1 as int);
    if w > 0 && h > 0 && (w > max_w || h > max_h) {
        if h * max_w / w <= max_h {
            assert(h * max_w / w >= 0) by (nonlinear_arith)
                requires
                    w > 0,
                    h > 0,
                    max_w >= 0,
            ;
        } else {
            narrower_side_fits(w, h, max_w, max_h);
        }
    }
}

/// Fitting keeps the aspect ratio, up to the pixel lost to rounding and the one
/// lost to evenness on each side, wherever scaling leaves at least two pixels.
pub proof fn fitting_keeps_the_aspect(source: (u32, u32), max: (u32, u32))
    requires
        source.0 > 0,
        source.1 > 0,
        source.0 > max.0 || source.1 > max.1,
        max.0 >= 2,
        max.1 >= 2,
        source.1 * max.0 >= 2 * source.0,
        source.0 * max.1 >= 2 * source.1,
    ensures
        ({
            let (w, h) = (source.0 as int, source.1 as int);
            let (a, b) = fitted(source, max);
            ||| -h <= a * h - b * w < 2 * w
            ||| -w <= b * w - a * h < 2 * h
        }),
{
    let (w, h) = (source.0 as int, source.1 as int);
    let (max_w, max_h) = (max.0 as int, max.1 as int);
    let (a, b) = fitted(source, max);
    if h * max_w / w <= max_h {
        let q = h * max_w / w;
        assert(q >= 2) by (nonlinear_arith)
            requires
                w > 0,
                h * max_w >= 2 * w,
                q == h * max_w / w,
        ;
        assert(0 <= h * max_w - q * w < w) by (nonlinear_arith)
            requires
                w > 0,
                q == h * max_w / w,
        ;
        assert(-h <= a * h - b * w < 2 * w) by (nonlinear_arith)
            requires
                w > 0,
                h > 0,
                0 <= h * max_w - q * w < w,
                max_w - 1 <= a <= max_w,
                q - 1 <= b <= q,
        ;
    } else {
        let q = w * max_h / h;
        assert(q >= 2) by (nonlinear_arith)
            requires
                h > 0,
                w * max_h >= 2 * h,
                q == w * max_h / h,
        ;
        assert(0 <= w * max_h - q * h < h) by (nonlinear_arith)
            requires
                h > 0,
                q == w * max_h / h,
        ;
        assert(-w <= b * w - a * h < 2 * h) by (nonlinear_arith)
            requires
                w > 0,
                h > 0,
                0 <= w * max_h - q * h < h,
                max_h - 1 <= b <= max_h,
                q - 1 <= a <= q,
        ;
    }
}

/// The scaled cap lies between the base and one and a half times the base, and
/// grows with the frame rate.
pub proof fn bitrate_grows_with_frame_rate(width: u32, height: u32, slow: u32, fast: u32)
    requires
        slow <= fast,
    ensures
        ({
            let base = base_bitrate(width, height);
            &&& base <= at_rate(base, slow) <= at_rate(base, fast)
            &&& at_rate(base, fast) * 2 <= base * 3
        }),
{
    assert(6_000 <= at_rate(6_000, slow) <= at_rate(6_000, fast) && at_rate(6_000, fast) * 2 <= 6_000 * 3);
    assert(9_000 <= at_rate(9_000, slow) <= at_rate(9_000, fast) && at_rate(9_000, fast) * 2 <= 9_000 * 3);
    assert(10_000 <= at_rate(10_000, slow) <= at_rate(10_000, fast) && at_rate(10_000, fast) * 2 <= 10_000 * 3);
    assert(14_000 <= at_rate(14_000, slow) <= at_rate(14_000, fast) && at_rate(14_000, fast) * 2 <= 14_000 * 3);
    assert(20_000 <= at_rate(20_000, slow) <= at_rate(20_000, fast) && at_rate(20_000, fast) * 2 <= 20_000 * 3);
}

/// A keyframe always comes: the distance is at least one frame.
pub proof fn keyframes_always_come(cfg: StreamConfig)
    ensures
        key_frame_distance(cfg) >= 1,
{
}

/// A WFD session's RTP destination.
#[derive(Clone, Debug)]
pub struct WfdTransport {
    /// IP of the sink (TV/projector) on the P2P link, as text.
    pub sink_ip: String,
    /// The RTP port the sink asked for (`wfd_client_rtp_ports` / `client_port=`).
    pub rtp_port: u16,
    /// Local RTP source port.
    pub local_rtp_port: u16,
}

impl WfdTransport {
    /// A destination reached from the usual local port.
    pub fn new(sink_ip: &str, rtp_port: u16) -> (res: Self)
        ensures
            res.sink_ip@ == sink_ip@,
            res.rtp_port == rtp_port,
            res.local_rtp_port == LOCAL_RTP_PORT,
    {
        WfdTransport { sink_ip: copied(sink_ip), rtp_port, local_rtp_port: LOCAL_RTP_PORT }
    }
}

/// The RTCP port that goes with an RTP port.
pub open spec fn next_port(port: u16) -> int {
    (port + 1) % 0x1_0000
}

/// The WFD (Miracast) pipeline.
pub open spec fn wfd_text(cfg: StreamConfig, source: VideoSource, transport: WfdTransport) -> Seq<
    char,
> {
    "rtpbin name=rtpbin rtp-profile=avp latency="@ + decimal(RTP_LATENCY_MS as nat) + " "@ + source_text(source) + " ! "@ + convert_text(cfg) + " ! "@ + video_queue_text() + " ! "@ + encoder_text(cfg.encoder, cfg) + " ! video/x-h264,profile=constrained-baseline ! h264parse config-interval=-1 ! mux.sink_"@ + decimal(WFD_VIDEO_PID as nat) + " mpegtsmux name=mux alignment=7 ! queue max-size-buffers=1 max-size-bytes=0 max-size-time=0 silent=true ! rtpmp2tpay ssrc=1 perfect-rtptime=false timestamp-offset=0 seqnum-offset=0 ! rtpbin.send_rtp_sink_0 rtpbin.send_rtp_src_0 ! udpsink host="@ + transport.sink_ip@ + " port="@ + decimal(transport.rtp_port as nat) + " bind-port="@ + decimal(transport.local_rtp_port as nat) + " sync="@ + switch_word(cfg.overrides.rtp_sync) + " async=false rtpbin.send_rtcp_src_0 ! udpsink host="@ + transport.sink_ip@ + " port="@ + decimal(next_port(transport.rtp_port) as nat) + " bind-port="@ + decimal(next_port(transport.local_rtp_port) as nat) + " sync=false async=false "@ + audio_branch_text(cfg, "mux.sink_"@ + decimal(WFD_AUDIO_PID as nat))
}

/// Builds the WFD (Miracast) pipeline description.
///
/// - the MPEG-TS programme contains audio **and** video: a WFD sink discards an
///   incomplete programme;
/// - **the PIDs are fixed**: with arbitrary ones the sink cannot find the video;
/// - **`rtpmp2tpay perfect-rtptime=false`**: the RTP timestamp follows the send
///   clock, by which the sink schedules display;
/// - `h264parse config-interval=-1` reinserts SPS/PPS at every IDR, so the sink
///   can join the stream at any moment;
/// - the queue before the payloader is **short and non-leaky**.
#[verifier::spinoff_prover]
#[verifier::rlimit(60)]
pub fn wfd_pipeline_description(
    cfg: &StreamConfig,
    source: &VideoSource,
    transport: &WfdTransport,
) -> (res: String)
    ensures
        res@ == wfd_text(*cfg, *source, *transport),
{
    let src = source.description();
    let convert = cfg.convert_scale();
    let enc = cfg.encoder.encoder_description(cfg);
    let queue = cfg.video_queue();
    let port = number_text(transport.rtp_port as u64);
    let local = number_text(transport.local_rtp_port as u64);
    let rtcp_port = number_text(transport.rtp_port.wrapping_add(1) as u64);
    let local_rtcp = number_text(transport.local_rtp_port.wrapping_add(1) as u64);
    let latency = number_text(RTP_LATENCY_MS);
    let video_pid = number_text(WFD_VIDEO_PID as u64);
    let audio_pid = number_text(WFD_AUDIO_PID as u64);
    let audio_pad = copied("mux.sink_").concat(audio_pid.as_str());
    let audio = cfg.audio_branch(audio_pad.as_str());
    copied("rtpbin name=rtpbin rtp-profile=avp latency=").concat(latency.as_str()).concat(" ").concat(src.as_str()).concat(" ! ").concat(convert.as_str()).concat(" ! ").concat(queue.as_str()).concat(" ! ").concat(enc.as_str()).concat(" ! video/x-h264,profile=constrained-baseline ! h264parse config-interval=-1 ! mux.sink_").concat(video_pid.as_str()).concat(" mpegtsmux name=mux alignment=7 ! queue max-size-buffers=1 max-size-bytes=0 max-size-time=0 silent=true ! rtpmp2tpay ssrc=1 perfect-rtptime=false timestamp-offset=0 seqnum-offset=0 ! rtpbin.send_rtp_sink_0 rtpbin.send_rtp_src_0 ! udpsink host=").concat(transport.sink_ip.as_str()).concat(" port=").concat(port.as_str()).concat(" bind-port=").concat(local.as_str()).concat(" sync=").concat(on_off(cfg.overrides.rtp_sync)).concat(" async=false rtpbin.send_rtcp_src_0 ! udpsink host=").concat(transport.sink_ip.as_str()).concat(" port=").concat(rtcp_port.as_str()).concat(" bind-port=").concat(local_rtcp.as_str()).concat(" sync=false async=false ").concat(audio.as_str())
}

/// How a client that has just connected is positioned: at the next keyframe,
/// so that it starts clean, where nothing else was asked for.
pub open spec fn sync_method(cfg: StreamConfig) -> Seq<char> {
    match cfg.overrides.sync_method {
        Some(method) => method@,
        None => "next-keyframe"@,
    }
}

/// The Cast mirroring pipeline.
pub open spec fn mirror_text(cfg: StreamConfig, source: VideoSource) -> Seq<char> {
    source_text(source) + " ! "@ + convert_text(cfg) + " ! "@ + video_queue_text() + " ! "@ + encoder_text(cfg.encoder, cfg) + " ! video/x-h264,profile=constrained-baseline,stream-format=byte-stream,alignment=au ! h264parse config-interval=-1 ! appsink name="@ + MIRROR_VIDEO_SINK@ + " emit-signals=false sync=false max-buffers=1 drop=false "@ + audio_text(cfg.audio) + " ! audioconvert ! audioresample ! audio/x-raw,rate=48000,channels=2 ! "@ + mirror_audio_queue_text() + " ! opusenc bitrate=128000 frame-size=10 ! appsink name="@ + MIRROR_AUDIO_SINK@ + " emit-signals=false sync=false max-buffers=8 drop=false"@
}

/// The Cast **mirroring** pipeline: it delivers encoded frames, no container.
///
/// Cast Streaming receives *access units* and handles transport itself, so there
/// is no muxer, no HTTP server and no media player on the other end.
#[verifier::spinoff_prover]
pub fn mirror_pipeline_description(cfg: &StreamConfig, source: &VideoSource) -> (res: String)
    ensures
        res@ == mirror_text(*cfg, *source),
{
    let src = source.description();
    let convert = cfg.convert_scale();
    let enc = cfg.encoder.encoder_description(cfg);
    let queue = cfg.video_queue();
    let audio_queue = cfg.mirror_audio_queue();
    src.concat(" ! ").concat(convert.as_str()).concat(" ! ").concat(queue.as_str()).concat(" ! ").concat(enc.as_str()).concat(" ! video/x-h264,profile=constrained-baseline,stream-format=byte-stream,alignment=au ! h264parse config-interval=-1 ! appsink name=").concat(MIRROR_VIDEO_SINK).concat(" emit-signals=false sync=false max-buffers=1 drop=false ").concat(cfg.audio.description()).concat(" ! audioconvert ! audioresample ! audio/x-raw,rate=48000,channels=2 ! ").concat(audio_queue.as_str()).concat(" ! opusenc bitrate=128000 frame-size=10 ! appsink name=").concat(MIRROR_AUDIO_SINK).concat(" emit-signals=false sync=false max-buffers=8 drop=false")
}

/// The Chromecast pipeline.
pub open spec fn chromecast_text(cfg: StreamConfig, source: VideoSource) -> Seq<char> {
    source_text(source) + " ! "@ + convert_text(cfg) + " ! "@ + video_queue_text() + " ! "@ + encoder_text(cfg.encoder, cfg) + " ! h264parse config-interval=-1 ! matroskamux name=mux streamable=true min-cluster-duration=20000000 max-cluster-duration=40000000 ! queue max-size-buffers=0 max-size-bytes=0 max-size-time=50000000 silent=true ! multisocketsink name="@ + CHROMECAST_SINK_NAME@ + " sync=false async=false blocksize=8192 burst-format=buffers sync-method="@ + sync_method(cfg) + " recover-policy=keyframe "@ + audio_branch_text(cfg, "mux."@)
}

/// Builds the Chromecast pipeline description (H.264 + AAC in Matroska).
///
/// - `matroskamux` with short clusters: a cluster has to close before going out;
/// - **`multisocketsink sync=false`**: the pace already comes from the live
///   source;
/// - the audio track is not decorative: the Default Media Receiver rejects
///   containers without audio.
#[verifier::spinoff_prover]
pub fn chromecast_pipeline_description(cfg: &StreamConfig, source: &VideoSource) -> (res: String)
    ensures
        res@ == chromecast_text(*cfg, *source),
{
    let src = source.description();
    let convert = cfg.convert_scale();
    let enc = cfg.encoder.encoder_description(cfg);
    let queue = cfg.video_queue();
    let sync_method = match &cfg.overrides.sync_method {
        Some(method) => method.clone(),
        None => copied("next-keyframe"),
    };
    let audio = cfg.audio_branch("mux.");
    src.concat(" ! ").concat(convert.as_str()).concat(" ! ").concat(queue.as_str()).concat(" ! ").concat(enc.as_str()).concat(" ! h264parse config-interval=-1 ! matroskamux name=mux streamable=true min-cluster-duration=20000000 max-cluster-duration=40000000 ! queue max-size-buffers=0 max-size-bytes=0 max-size-time=50000000 silent=true ! multisocketsink name=").concat(CHROMECAST_SINK_NAME).concat(" sync=false async=false blocksize=8192 burst-format=buffers sync-method=").concat(sync_method.as_str()).concat(" recover-policy=keyframe ").concat(audio.as_str())
}

/// Every description plays the audio that the configuration names: with the
/// system's audio it holds the element that captures the default output's
/// monitor, with silence the one that makes silence.
#[verifier::spinoff_prover]
pub proof fn a_description_plays_the_audio_asked_for(
    cfg: StreamConfig,
    source: VideoSource,
    transport: WfdTransport,
)
    ensures
        cfg.audio == AudioSource::System ==> {
            let element = "pulsesrc device=@DEFAULT_MONITOR@ provide-clock=false do-timestamp=true"@;
            &&& has_part(wfd_text(cfg, source, transport), element)
            &&& has_part(mirror_text(cfg, source), element)
            &&& has_part(chromecast_text(cfg, source), element)
        },
        cfg.audio == AudioSource::Silence ==> {
            let element = "audiotestsrc is-live=true wave=silence samplesperbuffer=480"@;
            &&& has_part(wfd_text(cfg, source, transport), element)
            &&& has_part(mirror_text(cfg, source), element)
            &&& has_part(chromecast_text(cfg, source), element)
        },
{
    broadcast use {part_of_itself, part_of_first, part_of_second};

    reveal(audio_branch_text);
}

/// Whether two texts are the same but for the audio's element: the one that makes
/// silence in the first, the one that captures the system's audio in the second.
pub open spec fn exchanged(silent: Seq<char>, loud: Seq<char>) -> bool {
    exists|before: Seq<char>, after: Seq<char>| is_exchange(silent, loud, before, after)
}

/// Whether two texts are the same but for the audio's element, between two others.
pub open spec fn is_exchange(
    silent: Seq<char>,
    loud: Seq<char>,
    before: Seq<char>,
    after: Seq<char>,
) -> bool {
    &&& silent == before + "audiotestsrc is-live=true wave=silence samplesperbuffer=480"@ + after
    &&& loud == before
        + "pulsesrc device=@DEFAULT_MONITOR@ provide-clock=false do-timestamp=true"@ + after
}

broadcast proof fn exchanged_before(a: Seq<char>, b: Seq<char>, rest: Seq<char>)
    requires
        exchanged(a, b),
    ensures
        #[trigger] exchanged(a + rest, b + rest),
{
    let (before, after) = choose|before: Seq<char>, after: Seq<char>|
        is_exchange(a, b, before, after);
    assert(a + rest =~= before + "audiotestsrc is-live=true wave=silence samplesperbuffer=480"@ + (
    after + rest));
    assert(b + rest =~= before
        + "pulsesrc device=@DEFAULT_MONITOR@ provide-clock=false do-timestamp=true"@ + (after
        + rest));
    assert(is_exchange(a + rest, b + rest, before, after + rest));
}

broadcast proof fn exchanged_after(a: Seq<char>, b: Seq<char>, first: Seq<char>)
    requires
        exchanged(a, b),
    ensures
        #[trigger] exchanged(first + a, first + b),
{
    let (before, after) = choose|before: Seq<char>, after: Seq<char>|
        is_exchange(a, b, before, after);
    assert(first + a =~= first + before
        + "audiotestsrc is-live=true wave=silence samplesperbuffer=480"@ + after);
    assert(first + b =~= first + before
        + "pulsesrc device=@DEFAULT_MONITOR@ provide-clock=false do-timestamp=true"@ + after);
    assert(is_exchange(first + a, first + b, first + before, after));
}

proof fn exchanged_differ(a: Seq<char>, b: Seq<char>)
    requires
        exchanged(a, b),
    ensures
        a != b,
{
    reveal_strlit("audiotestsrc is-live=true wave=silence samplesperbuffer=480");
    reveal_strlit("pulsesrc device=@DEFAULT_MONITOR@ provide-clock=false do-timestamp=true");
    assert(a.len() != b.len());
}

/// Configurations that differ in their audio alone give descriptions that differ
/// in the audio's element alone, and these do differ.
#[verifier::spinoff_prover]
pub proof fn the_audio_changes_its_element_alone(
    silent: StreamConfig,
    source: VideoSource,
    transport: WfdTransport,
)
    requires
        silent.audio == AudioSource::Silence,
    ensures
        ({
            let loud = StreamConfig { audio: AudioSource::System, ..silent };
            &&& exchanged(wfd_text(silent, source, transport), wfd_text(loud, source, transport))
            &&& exchanged(mirror_text(silent, source), mirror_text(loud, source))
            &&& exchanged(chromecast_text(silent, source), chromecast_text(loud, source))
            &&& wfd_text(silent, source, transport) != wfd_text(loud, source, transport)
            &&& mirror_text(silent, source) != mirror_text(loud, source)
            &&& chromecast_text(silent, source) != chromecast_text(loud, source)
        }),
{
    let loud = StreamConfig { audio: AudioSource::System, ..silent };
    assert(convert_text(loud) == convert_text(silent)) by {
        reveal(convert_text);
    }
    assert(encoder_text(loud.encoder, loud) == encoder_text(silent.encoder, silent)) by {
        reveal(encoder_text);
    }
    assert(exchanged(audio_text(silent.audio), audio_text(loud.audio))) by {
        let none = Seq::<char>::empty();
        assert(audio_text(silent.audio) =~= none + audio_text(silent.audio) + none);
        assert(audio_text(loud.audio) =~= none + audio_text(loud.audio) + none);
        assert(is_exchange(audio_text(silent.audio), audio_text(loud.audio), none, none));
    }
    reveal(audio_branch_text);
    {
        broadcast use {exchanged_before, exchanged_after};

        assert(exchanged(
            wfd_text(silent, source, transport),
            wfd_text(loud, source, transport),
        ));
        assert(exchanged(mirror_text(silent, source), mirror_text(loud, source)));
        assert(exchanged(chromecast_text(silent, source), chromecast_text(loud, source)));
    }
    exchanged_differ(wfd_text(silent, source, transport), wfd_text(loud, source, transport));
    exchanged_differ(mirror_text(silent, source), mirror_text(loud, source));
    exchanged_differ(chromecast_text(silent, source), chromecast_text(loud, source));
}

/// The three characters by which the name of one of the audio elements is told
/// from everything else in a description.
spec fn is_mark(mark: Seq<char>) -> bool {
    mark == seq!['i', 'o', 't'] || mark == seq!['p', 'u', 'l']
}

/// Whether a text neither holds a mark nor ends in one of its characters.
#[verifier::opaque]
spec fn plain(s: Seq<char>, mark: Seq<char>) -> bool {
    &&& forall|i: int|
        0 <= i < s.len() - 2 ==> !(#[trigger] s[i] == mark[0] && s[i + 1] == mark[1] && s[i + 2]
            == mark[2])
    &&& s.len() > 0 ==> s.last() != mark[0] && s.last() != mark[1] && s.last() != mark[2]
}

broadcast proof fn plain_joined(a: Seq<char>, b: Seq<char>, mark: Seq<char>)
    requires
        plain(a, mark),
        plain(b, mark),
    ensures
        #[trigger] plain(a + b, mark),
{
    reveal(plain);
    let whole = a + b;
    assert forall|i: int| 0 <= i < whole.len() - 2 implies !(#[trigger] whole[i] == mark[0]
        && whole[i + 1] == mark[1] && whole[i + 2] == mark[2]) by {
        if i + 2 < a.len() {
            assert(whole[i] == a[i] && whole[i + 1] == a[i + 1] && whole[i + 2] == a[i + 2]);
        } else if i >= a.len() {
            let at = i - a.len();
            assert(whole[i] == b[at] && whole[i + 1] == b[at + 1] && whole[i + 2] == b[at + 2]);
        } else {
            assert(whole[a.len() - 1] == a.last());
        }
    }
}

proof fn digits_are_plain(n: nat, mark: Seq<char>)
    requires
        is_mark(mark),
    ensures
        plain(decimal(n), mark),
{
    reveal(plain);
    decimal_reads_back(n, n);
}

proof fn signed_digits_are_plain(n: int, mark: Seq<char>)
    requires
        is_mark(mark),
    ensures
        plain(signed_decimal(n), mark),
{
    broadcast use plain_joined;

    digits_are_plain(if n < 0 { (-n) as nat } else { n as nat }, mark);
    assert(plain(seq!['-'], mark)) by {
        reveal(plain);
    }
}

proof fn plain_lacks(s: Seq<char>, mark: Seq<char>, name: Seq<char>)
    requires
        plain(s, mark),
        mark == seq!['i', 'o', 't'] && name == "audiotestsrc"@ || mark == seq!['p', 'u', 'l']
            && name == "pulsesrc"@,
    ensures
        !has_part(s, name),
{
    reveal(plain);
    reveal_strlit("audiotestsrc");
    reveal_strlit("pulsesrc");
    if has_part(s, name) {
        let at = choose|at: int| part_at(s, name, at);
        let piece = s.subrange(at, at + name.len());
        let from: int = if mark[0] == 'i' {
            3
        } else {
            0
        };
        assert(piece[from] == s[at + from] && piece[from + 1] == s[at + from + 1] && piece[from
            + 2] == s[at + from + 2]);
    }
}

/// What neither a text nor those around it hold, all together do not hold, where
/// what stands next to the text is none of its characters.
proof fn none_around(before: Seq<char>, s: Seq<char>, after: Seq<char>, part: Seq<char>)
    requires
        part.len() > 0,
        !has_part(before, part),
        !has_part(s, part),
        !has_part(after, part),
        before.len() > 0 && !part.contains(before.last()),
        after.len() > 0 && !part.contains(after.first()),
    ensures
        !has_part(before + s + after, part),
{
    let whole = before + s + after;
    if has_part(whole, part) {
        let at = choose|at: int| part_at(whole, part, at);
        let piece = whole.subrange(at, at + part.len());
        let start = before.len();
        let end = before.len() + s.len();
        if at + part.len() <= start {
            assert(before.subrange(at, at + part.len()) =~= piece);
            assert(part_at(before, part, at));
        } else if at < start {
            assert(piece[start - 1 - at] == before.last());
            assert(part.contains(before.last()));
        } else if at >= end {
            assert(after.subrange(at - end, at - end + part.len()) =~= piece);
            assert(part_at(after, part, at - end));
        } else if at + part.len() > end {
            assert(piece[end - at] == after.first());
            assert(part.contains(after.first()));
        } else {
            assert(s.subrange(at - start, at - start + part.len()) =~= piece);
            assert(part_at(s, part, at - start));
        }
    }
}

#[verifier::spinoff_prover]
proof fn source_is_plain(source: VideoSource, mark: Seq<char>)
    requires
        is_mark(mark),
    ensures
        plain(source_text(source), mark),
{
    broadcast use plain_joined;

    assert(plain("pipewiresrc fd="@, mark)) by {
        reveal(plain);
        reveal_strlit("pipewiresrc fd=");
    }
    assert(plain(" path="@, mark)) by {
        reveal(plain);
        reveal_strlit(" path=");
    }
    assert(plain(" do-timestamp=true keepalive-time=1000 resend-last=true"@, mark)) by {
        reveal(plain);
        reveal_strlit(" do-timestamp=true keepalive-time=1000 resend-last=true");
    }
    assert(plain("pipewiresrc path="@, mark)) by {
        reveal(plain);
        reveal_strlit("pipewiresrc path=");
    }
    assert(plain("videotestsrc is-live=true"@, mark)) by {
        reveal(plain);
        reveal_strlit("videotestsrc is-live=true");
    }
    assert(plain("videotestsrc is-live=true pattern=ball ! timeoverlay halignment=center valignment=center font-desc=\"Sans 48\" time-mode=running-time"@, mark)) by {
        reveal(plain);
        reveal_strlit("videotestsrc is-live=true pattern=ball ! timeoverlay halignment=center valignment=center font-desc=\"Sans 48\" time-mode=running-time");
    }
    match source {
        VideoSource::PipeWire { fd, node_id } => {
            digits_are_plain(node_id as nat, mark);
            if fd is Some {
                signed_digits_are_plain(fd->Some_0 as int, mark);
            }
        },
        _ => {},
    }
    reveal(source_text);
}

#[verifier::spinoff_prover]
proof fn conversion_is_plain(cfg: StreamConfig, mark: Seq<char>)
    requires
        is_mark(mark),
    ensures
        plain(convert_text(cfg), mark),
{
    broadcast use plain_joined;

    assert(plain("videorate ! vapostproc add-borders=true ! video/x-raw,format="@, mark)) by {
        reveal(plain);
        reveal_strlit("videorate ! vapostproc add-borders=true ! video/x-raw,format=");
    }
    assert(plain(",width="@, mark)) by {
        reveal(plain);
        reveal_strlit(",width=");
    }
    assert(plain(",height="@, mark)) by {
        reveal(plain);
        reveal_strlit(",height=");
    }
    assert(plain(",framerate="@, mark)) by {
        reveal(plain);
        reveal_strlit(",framerate=");
    }
    assert(plain("/1"@, mark)) by {
        reveal(plain);
        reveal_strlit("/1");
    }
    assert(plain("videorate ! videoscale add-borders=true ! videoconvert n-threads=0 ! video/x-raw,format="@, mark)) by {
        reveal(plain);
        reveal_strlit("videorate ! videoscale add-borders=true ! videoconvert n-threads=0 ! video/x-raw,format=");
    }
    assert(plain("NV12"@, mark)) by {
        reveal(plain);
        reveal_strlit("NV12");
    }
    assert(plain("I420"@, mark)) by {
        reveal(plain);
        reveal_strlit("I420");
    }
    digits_are_plain(cfg.width as nat, mark);
    digits_are_plain(cfg.height as nat, mark);
    digits_are_plain(cfg.fps as nat, mark);
    reveal(convert_text);
}

#[verifier::spinoff_prover]
proof fn encoding_is_plain(cfg: StreamConfig, mark: Seq<char>)
    requires
        is_mark(mark),
    ensures
        plain(encoder_text(cfg.encoder, cfg), mark),
{
    broadcast use plain_joined;

    assert(plain("x264enc name=enc tune=zerolatency speed-preset=ultrafast rc-lookahead=0 sync-lookahead=0 bframes=0 b-adapt=false threads=0 aud=true cabac=false ref=1 pass=cbr vbv-buf-capacity=50 intra-refresh="@, mark)) by {
        reveal(plain);
        reveal_strlit("x264enc name=enc tune=zerolatency speed-preset=ultrafast rc-lookahead=0 sync-lookahead=0 bframes=0 b-adapt=false threads=0 aud=true cabac=false ref=1 pass=cbr vbv-buf-capacity=50 intra-refresh=");
    }
    assert(plain(" key-int-max="@, mark)) by {
        reveal(plain);
        reveal_strlit(" key-int-max=");
    }
    assert(plain(" bitrate="@, mark)) by {
        reveal(plain);
        reveal_strlit(" bitrate=");
    }
    assert(plain("vah264enc name=enc rate-control=cbr bitrate="@, mark)) by {
        reveal(plain);
        reveal_strlit("vah264enc name=enc rate-control=cbr bitrate=");
    }
    assert(plain(" b-frames=0 ref-frames=1 num-slices=1 target-usage=6 aud=true cabac=false"@, mark)) by {
        reveal(plain);
        reveal_strlit(" b-frames=0 ref-frames=1 num-slices=1 target-usage=6 aud=true cabac=false");
    }
    assert(plain("vaapih264enc name=enc rate-control=cbr bitrate="@, mark)) by {
        reveal(plain);
        reveal_strlit("vaapih264enc name=enc rate-control=cbr bitrate=");
    }
    assert(plain(" keyframe-period="@, mark)) by {
        reveal(plain);
        reveal_strlit(" keyframe-period=");
    }
    assert(plain(" max-bframes=0 refs=1 num-slices=1 quality-level=7 cabac=false aud=true"@, mark)) by {
        reveal(plain);
        reveal_strlit(" max-bframes=0 refs=1 num-slices=1 quality-level=7 cabac=false aud=true");
    }
    assert(plain("nvh264enc name=enc preset=low-latency-hq rc-mode=cbr bitrate="@, mark)) by {
        reveal(plain);
        reveal_strlit("nvh264enc name=enc preset=low-latency-hq rc-mode=cbr bitrate=");
    }
    assert(plain(" gop-size="@, mark)) by {
        reveal(plain);
        reveal_strlit(" gop-size=");
    }
    assert(plain(" bframes=0 zerolatency=true aud=true"@, mark)) by {
        reveal(plain);
        reveal_strlit(" bframes=0 zerolatency=true aud=true");
    }
    assert(plain("v4l2h264enc name=enc extra-controls=\"controls,h264_profile=0,h264_i_frame_period="@, mark)) by {
        reveal(plain);
        reveal_strlit("v4l2h264enc name=enc extra-controls=\"controls,h264_profile=0,h264_i_frame_period=");
    }
    assert(plain(",video_bitrate="@, mark)) by {
        reveal(plain);
        reveal_strlit(",video_bitrate=");
    }
    assert(plain(",repeat_sequence_header=1\""@, mark)) by {
        reveal(plain);
        reveal_strlit(",repeat_sequence_header=1\"");
    }
    assert(plain("openh264enc name=enc usage-type=screen rate-control=bitrate complexity=low scene-change-detection=false enable-frame-skip=true multi-thread=0 gop-size="@, mark)) by {
        reveal(plain);
        reveal_strlit("openh264enc name=enc usage-type=screen rate-control=bitrate complexity=low scene-change-detection=false enable-frame-skip=true multi-thread=0 gop-size=");
    }
    assert(plain(" max-bitrate="@, mark)) by {
        reveal(plain);
        reveal_strlit(" max-bitrate=");
    }
    assert(plain("true"@, mark)) by {
        reveal(plain);
        reveal_strlit("true");
    }
    assert(plain("false"@, mark)) by {
        reveal(plain);
        reveal_strlit("false");
    }
    let rate = scaled_bitrate(cfg);
    digits_are_plain(key_frame_distance(cfg) as nat, mark);
    digits_are_plain(rate as nat, mark);
    digits_are_plain((rate * 1000) as nat, mark);
    digits_are_plain((rate * 1200) as nat, mark);
    reveal(encoder_text);
}

proof fn queues_are_plain(mark: Seq<char>)
    requires
        is_mark(mark),
    ensures
        plain(video_queue_text(), mark),
        plain(audio_queue_text(), mark),
        plain(mirror_audio_queue_text(), mark),
{
    broadcast use plain_joined;

    assert(plain("queue max-size-buffers="@, mark)) by {
        reveal(plain);
        reveal_strlit("queue max-size-buffers=");
    }
    assert(plain(" max-size-time="@, mark)) by {
        reveal(plain);
        reveal_strlit(" max-size-time=");
    }
    assert(plain("000000 max-size-bytes=0 leaky=downstream"@, mark)) by {
        reveal(plain);
        reveal_strlit("000000 max-size-bytes=0 leaky=downstream");
    }
    assert(plain("000000 max-size-bytes=0"@, mark)) by {
        reveal(plain);
        reveal_strlit("000000 max-size-bytes=0");
    }
    digits_are_plain(VIDEO_QUEUE_BUFFERS as nat, mark);
    digits_are_plain(VIDEO_QUEUE_MS as nat, mark);
    digits_are_plain(AUDIO_QUEUE_BUFFERS as nat, mark);
    digits_are_plain(AUDIO_QUEUE_MS as nat, mark);
    digits_are_plain(MIRROR_AUDIO_QUEUE_BUFFERS as nat, mark);
    digits_are_plain(MIRROR_AUDIO_QUEUE_MS as nat, mark);
}

/// Whether a mark is that of the element that a configuration does not ask for.
spec fn is_other_mark(audio: AudioSource, mark: Seq<char>) -> bool {
    match audio {
        AudioSource::System => mark == seq!['i', 'o', 't'],
        AudioSource::Silence => mark == seq!['p', 'u', 'l'],
    }
}

proof fn the_element_is_plain(audio: AudioSource, mark: Seq<char>)
    requires
        is_other_mark(audio, mark),
    ensures
        plain(audio_text(audio), mark),
{
    reveal(plain);
    reveal_strlit("audiotestsrc is-live=true wave=silence samplesperbuffer=480");
    reveal_strlit("pulsesrc device=@DEFAULT_MONITOR@ provide-clock=false do-timestamp=true");
}

proof fn audio_branch_is_plain(cfg: StreamConfig, pad: Seq<char>, mark: Seq<char>)
    requires
        is_other_mark(cfg.audio, mark),
        plain(pad, mark),
    ensures
        plain(audio_branch_text(cfg, pad), mark),
{
    broadcast use plain_joined;

    the_element_is_plain(cfg.audio, mark);
    queues_are_plain(mark);
    assert(plain(" ! audioconvert ! audioresample ! audio/x-raw,rate=48000,channels=2 ! "@, mark)) by {
        reveal(plain);
        reveal_strlit(" ! audioconvert ! audioresample ! audio/x-raw,rate=48000,channels=2 ! ");
    }
    assert(plain(" ! avenc_aac bitrate=128000 ! aacparse ! "@, mark)) by {
        reveal(plain);
        reveal_strlit(" ! avenc_aac bitrate=128000 ! aacparse ! ");
    }
    reveal(audio_branch_text);
}

proof fn a_sink_is_plain(name: Seq<char>, rest: Seq<char>, mark: Seq<char>)
    requires
        is_mark(mark),
        name == "mirror-video"@ && rest
            == " emit-signals=false sync=false max-buffers=1 drop=false "@ || name
            == "mirror-audio"@ && rest == " emit-signals=false sync=false max-buffers=8 drop=false"@,
    ensures
        plain(name + rest, mark),
{
    reveal(plain);
    reveal_strlit("mirror-video");
    reveal_strlit("mirror-audio");
    reveal_strlit(" emit-signals=false sync=false max-buffers=1 drop=false ");
    reveal_strlit(" emit-signals=false sync=false max-buffers=8 drop=false");
}

#[verifier::spinoff_prover]
proof fn mirroring_is_plain(cfg: StreamConfig, source: VideoSource, mark: Seq<char>)
    requires
        is_other_mark(cfg.audio, mark),
    ensures
        plain(mirror_text(cfg, source), mark),
{
    source_is_plain(source, mark);
    conversion_is_plain(cfg, mark);
    encoding_is_plain(cfg, mark);
    queues_are_plain(mark);
    the_element_is_plain(cfg.audio, mark);
    let video_end = " emit-signals=false sync=false max-buffers=1 drop=false "@;
    let audio_end = " emit-signals=false sync=false max-buffers=8 drop=false"@;
    a_sink_is_plain(MIRROR_VIDEO_SINK@, video_end, mark);
    a_sink_is_plain(MIRROR_AUDIO_SINK@, audio_end, mark);
    assert(plain(" ! "@, mark)) by {
        reveal(plain);
        reveal_strlit(" ! ");
    }
    assert(plain(" ! video/x-h264,profile=constrained-baseline,stream-format=byte-stream,alignment=au ! h264parse config-interval=-1 ! appsink name="@, mark)) by {
        reveal(plain);
        reveal_strlit(" ! video/x-h264,profile=constrained-baseline,stream-format=byte-stream,alignment=au ! h264parse config-interval=-1 ! appsink name=");
    }
    assert(plain(" ! audioconvert ! audioresample ! audio/x-raw,rate=48000,channels=2 ! "@, mark)) by {
        reveal(plain);
        reveal_strlit(" ! audioconvert ! audioresample ! audio/x-raw,rate=48000,channels=2 ! ");
    }
    assert(plain(" ! opusenc bitrate=128000 frame-size=10 ! appsink name="@, mark)) by {
        reveal(plain);
        reveal_strlit(" ! opusenc bitrate=128000 frame-size=10 ! appsink name=");
    }
    let to_video = source_text(source) + " ! "@ + convert_text(cfg) + " ! "@ + video_queue_text()
        + " ! "@ + encoder_text(cfg.encoder, cfg)
        + " ! video/x-h264,profile=constrained-baseline,stream-format=byte-stream,alignment=au ! h264parse config-interval=-1 ! appsink name="@;
    let to_audio = audio_text(cfg.audio)
        + " ! audioconvert ! audioresample ! audio/x-raw,rate=48000,channels=2 ! "@
        + mirror_audio_queue_text()
        + " ! opusenc bitrate=128000 frame-size=10 ! appsink name="@;
    let parted = to_video + (MIRROR_VIDEO_SINK@ + video_end) + to_audio + (MIRROR_AUDIO_SINK@
        + audio_end);
    assert(plain(parted, mark)) by {
        broadcast use plain_joined;

    }
    assert(mirror_text(cfg, source) =~= parted);
}

#[verifier::spinoff_prover]
proof fn wfd_is_plain_around_the_address(
    cfg: StreamConfig,
    source: VideoSource,
    transport: WfdTransport,
    mark: Seq<char>,
)
    requires
        is_other_mark(cfg.audio, mark),
    ensures
        plain(wfd_up_to_media(cfg, source), mark),
        plain(wfd_between(cfg, transport), mark),
        plain(wfd_after(cfg, transport), mark),
{
    broadcast use plain_joined;

    source_is_plain(source, mark);
    conversion_is_plain(cfg, mark);
    encoding_is_plain(cfg, mark);
    queues_are_plain(mark);
    assert(plain("rtpbin name=rtpbin rtp-profile=avp latency="@, mark)) by {
        reveal(plain);
        reveal_strlit("rtpbin name=rtpbin rtp-profile=avp latency=");
    }
    assert(plain(" "@, mark)) by {
        reveal(plain);
        reveal_strlit(" ");
    }
    assert(plain(" ! "@, mark)) by {
        reveal(plain);
        reveal_strlit(" ! ");
    }
    assert(plain(" ! video/x-h264,profile=constrained-baseline ! h264parse config-interval=-1 ! mux.sink_"@, mark)) by {
        reveal(plain);
        reveal_strlit(" ! video/x-h264,profile=constrained-baseline ! h264parse config-interval=-1 ! mux.sink_");
    }
    assert(plain(" mpegtsmux name=mux alignment=7 ! queue max-size-buffers=1 max-size-bytes=0 max-size-time=0 silent=true ! rtpmp2tpay ssrc=1 perfect-rtptime=false timestamp-offset=0 seqnum-offset=0 ! rtpbin.send_rtp_sink_0 rtpbin.send_rtp_src_0 ! udpsink host="@, mark)) by {
        reveal(plain);
        reveal_strlit(" mpegtsmux name=mux alignment=7 ! queue max-size-buffers=1 max-size-bytes=0 max-size-time=0 silent=true ! rtpmp2tpay ssrc=1 perfect-rtptime=false timestamp-offset=0 seqnum-offset=0 ! rtpbin.send_rtp_sink_0 rtpbin.send_rtp_src_0 ! udpsink host=");
    }
    assert(plain(" port="@, mark)) by {
        reveal(plain);
        reveal_strlit(" port=");
    }
    assert(plain(" bind-port="@, mark)) by {
        reveal(plain);
        reveal_strlit(" bind-port=");
    }
    assert(plain(" sync="@, mark)) by {
        reveal(plain);
        reveal_strlit(" sync=");
    }
    assert(plain(" async=false rtpbin.send_rtcp_src_0 ! udpsink host="@, mark)) by {
        reveal(plain);
        reveal_strlit(" async=false rtpbin.send_rtcp_src_0 ! udpsink host=");
    }
    assert(plain(" sync=false async=false "@, mark)) by {
        reveal(plain);
        reveal_strlit(" sync=false async=false ");
    }
    assert(plain("mux.sink_"@, mark)) by {
        reveal(plain);
        reveal_strlit("mux.sink_");
    }
    assert(plain("true"@, mark)) by {
        reveal(plain);
        reveal_strlit("true");
    }
    assert(plain("false"@, mark)) by {
        reveal(plain);
        reveal_strlit("false");
    }
    digits_are_plain(RTP_LATENCY_MS as nat, mark);
    digits_are_plain(WFD_VIDEO_PID as nat, mark);
    digits_are_plain(WFD_AUDIO_PID as nat, mark);
    digits_are_plain(transport.rtp_port as nat, mark);
    digits_are_plain(transport.local_rtp_port as nat, mark);
    digits_are_plain(next_port(transport.rtp_port) as nat, mark);
    digits_are_plain(next_port(transport.local_rtp_port) as nat, mark);
    audio_branch_is_plain(cfg, "mux.sink_"@ + decimal(WFD_AUDIO_PID as nat), mark);
}

/// What stands between the two addresses of a Wi-Fi Display description.
spec fn wfd_between(cfg: StreamConfig, transport: WfdTransport) -> Seq<char> {
    " port="@ + decimal(transport.rtp_port as nat) + " bind-port="@ + decimal(
        transport.local_rtp_port as nat,
    ) + " sync="@ + switch_word(cfg.overrides.rtp_sync)
        + " async=false rtpbin.send_rtcp_src_0 ! udpsink host="@
}

/// What stands after the second address of a Wi-Fi Display description.
spec fn wfd_after(cfg: StreamConfig, transport: WfdTransport) -> Seq<char> {
    " port="@ + decimal(next_port(transport.rtp_port) as nat) + " bind-port="@ + decimal(
        next_port(transport.local_rtp_port) as nat,
    ) + " sync=false async=false "@ + audio_branch_text(
        cfg,
        "mux.sink_"@ + decimal(WFD_AUDIO_PID as nat),
    )
}

#[verifier::spinoff_prover]
proof fn wfd_lacks(
    cfg: StreamConfig,
    source: VideoSource,
    transport: WfdTransport,
    mark: Seq<char>,
    name: Seq<char>,
)
    requires
        is_other_mark(cfg.audio, mark),
        cfg.audio == AudioSource::System ==> name == "audiotestsrc"@,
        cfg.audio == AudioSource::Silence ==> name == "pulsesrc"@,
        !has_part(transport.sink_ip@, name),
    ensures
        !has_part(wfd_text(cfg, source, transport), name),
{
    let ip = transport.sink_ip@;
    let first = wfd_up_to_media(cfg, source);
    let between = wfd_between(cfg, transport);
    let last = wfd_after(cfg, transport);
    wfd_is_plain_around_the_address(cfg, source, transport, mark);
    plain_lacks(first, mark, name);
    plain_lacks(between, mark, name);
    plain_lacks(last, mark, name);
    reveal_strlit("audiotestsrc");
    reveal_strlit("pulsesrc");
    assert(first.len() > 0 && first.last() == '=') by {
        reveal_strlit(
            " mpegtsmux name=mux alignment=7 ! queue max-size-buffers=1 max-size-bytes=0 max-size-time=0 silent=true ! rtpmp2tpay ssrc=1 perfect-rtptime=false timestamp-offset=0 seqnum-offset=0 ! rtpbin.send_rtp_sink_0 rtpbin.send_rtp_src_0 ! udpsink host=",
        );
    }
    assert(between.len() > 0 && between.first() == ' ' && between.last() == '=') by {
        reveal_strlit(" port=");
        reveal_strlit(" async=false rtpbin.send_rtcp_src_0 ! udpsink host=");
    }
    assert(last.len() > 0 && last.first() == ' ') by {
        reveal_strlit(" port=");
    }
    none_around(first, ip, between, name);
    assert((first + ip + between).last() == '=');
    none_around(first + ip + between, ip, last, name);
    assert(wfd_text(cfg, source, transport) =~= first + ip + between + ip + last);
}

#[verifier::spinoff_prover]
proof fn chromecast_lacks(
    cfg: StreamConfig,
    source: VideoSource,
    mark: Seq<char>,
    name: Seq<char>,
)
    requires
        is_other_mark(cfg.audio, mark),
        cfg.audio == AudioSource::System ==> name == "audiotestsrc"@,
        cfg.audio == AudioSource::Silence ==> name == "pulsesrc"@,
        cfg.overrides.sync_method matches Some(method) ==> !has_part(method@, name),
    ensures
        !has_part(chromecast_text(cfg, source), name),
{
    source_is_plain(source, mark);
    conversion_is_plain(cfg, mark);
    encoding_is_plain(cfg, mark);
    queues_are_plain(mark);
    assert(plain(" ! "@, mark)) by {
        reveal(plain);
        reveal_strlit(" ! ");
    }
    assert(plain(" ! h264parse config-interval=-1 ! matroskamux name=mux streamable=true min-cluster-duration=20000000 max-cluster-duration=40000000 ! queue max-size-buffers=0 max-size-bytes=0 max-size-time=50000000 silent=true ! multisocketsink name="@, mark)) by {
        reveal(plain);
        reveal_strlit(" ! h264parse config-interval=-1 ! matroskamux name=mux streamable=true min-cluster-duration=20000000 max-cluster-duration=40000000 ! queue max-size-buffers=0 max-size-bytes=0 max-size-time=50000000 silent=true ! multisocketsink name=");
    }
    assert(plain(" sync=false async=false blocksize=8192 burst-format=buffers sync-method="@, mark)) by {
        reveal(plain);
        reveal_strlit(" sync=false async=false blocksize=8192 burst-format=buffers sync-method=");
    }
    assert(plain(" recover-policy=keyframe "@, mark)) by {
        reveal(plain);
        reveal_strlit(" recover-policy=keyframe ");
    }
    assert(plain("mux."@, mark)) by {
        reveal(plain);
        reveal_strlit("mux.");
    }
    assert(plain("cc-sink"@, mark)) by {
        reveal(plain);
        reveal_strlit("cc-sink");
    }
    assert(plain("next-keyframe"@, mark)) by {
        reveal(plain);
        reveal_strlit("next-keyframe");
    }
    audio_branch_is_plain(cfg, "mux."@, mark);
    let first = source_text(source) + " ! "@ + convert_text(cfg) + " ! "@ + video_queue_text()
        + " ! "@ + encoder_text(cfg.encoder, cfg)
        + " ! h264parse config-interval=-1 ! matroskamux name=mux streamable=true min-cluster-duration=20000000 max-cluster-duration=40000000 ! queue max-size-buffers=0 max-size-bytes=0 max-size-time=50000000 silent=true ! multisocketsink name="@
        + CHROMECAST_SINK_NAME@
        + " sync=false async=false blocksize=8192 burst-format=buffers sync-method="@;
    let last = " recover-policy=keyframe "@ + audio_branch_text(cfg, "mux."@);
    assert(plain(first, mark) && plain(last, mark)) by {
        broadcast use plain_joined;

    }
    plain_lacks(first, mark, name);
    plain_lacks(last, mark, name);
    plain_lacks("next-keyframe"@, mark, name);
    reveal_strlit("audiotestsrc");
    reveal_strlit("pulsesrc");
    assert(first.len() > 0 && first.last() == '=') by {
        reveal_strlit(
            " sync=false async=false blocksize=8192 burst-format=buffers sync-method=",
        );
    }
    assert(last.len() > 0 && last.first() == ' ') by {
        reveal_strlit(" recover-policy=keyframe ");
    }
    none_around(first, sync_method(cfg), last, name);
    assert(chromecast_text(cfg, source) =~= first + sync_method(cfg) + last);
}

/// No description plays other audio than the configuration names: with the
/// system's audio it does not hold the element that makes silence, with silence
/// not the one that captures audio. An address or a way of positioning clients
/// that itself holds such a name is no audio.
pub proof fn a_description_plays_no_other_audio(
    cfg: StreamConfig,
    source: VideoSource,
    transport: WfdTransport,
)
    ensures
        ({
            let other = match cfg.audio {
                AudioSource::System => "audiotestsrc"@,
                AudioSource::Silence => "pulsesrc"@,
            };
            &&& !has_part(mirror_text(cfg, source), other)
            &&& !has_part(transport.sink_ip@, other) ==> !has_part(
                wfd_text(cfg, source, transport),
                other,
            )
            &&& (cfg.overrides.sync_method matches Some(method) ==> !has_part(method@, other))
                ==> !has_part(chromecast_text(cfg, source), other)
        }),
{
    let (mark, other) = match cfg.audio {
        AudioSource::System => (seq!['i', 'o', 't'], "audiotestsrc"@),
        AudioSource::Silence => (seq!['p', 'u', 'l'], "pulsesrc"@),
    };
    mirroring_is_plain(cfg, source, mark);
    plain_lacks(mirror_text(cfg, source), mark, other);
    if !has_part(transport.sink_ip@, other) {
        wfd_lacks(cfg, source, transport, mark, other);
    }
    if cfg.overrides.sync_method matches Some(method) ==> !has_part(method@, other) {
        chromecast_lacks(cfg, source, mark, other);
    }
}

/// Every description takes its frames from the source it was given: the node that
/// the capture session authorised, over its remote where there is one, and never
/// a node of the daemon's choosing.
#[verifier::spinoff_prover]
pub proof fn a_description_shows_the_source_asked_for(
    cfg: StreamConfig,
    source: VideoSource,
    transport: WfdTransport,
)
    ensures
        ({
            let element = match source {
                VideoSource::PipeWire { fd: Some(fd), node_id } => "pipewiresrc fd="@
                    + signed_decimal(fd as int) + " path="@ + decimal(node_id as nat)
                    + " do-timestamp=true keepalive-time=1000 resend-last=true"@,
                VideoSource::PipeWire { fd: None, node_id } => "pipewiresrc path="@ + decimal(
                    node_id as nat,
                ) + " do-timestamp=true keepalive-time=1000 resend-last=true"@,
                VideoSource::Test => "videotestsrc is-live=true"@,
                VideoSource::Diagnostic => "videotestsrc is-live=true pattern=ball ! timeoverlay halignment=center valignment=center font-desc=\"Sans 48\" time-mode=running-time"@,
            };
            &&& has_part(wfd_text(cfg, source, transport), element)
            &&& has_part(mirror_text(cfg, source), element)
            &&& has_part(chromecast_text(cfg, source), element)
        }),
{
    broadcast use {part_of_itself, part_of_first, part_of_second};

    reveal(source_text);
}

/// Every description sends the picture size and the frame rate of its
/// configuration, in the raw format that its encoder takes in: NV12 in hardware,
/// I420 in software.
#[verifier::spinoff_prover]
pub proof fn a_description_keeps_size_and_rate(
    cfg: StreamConfig,
    source: VideoSource,
    transport: WfdTransport,
)
    ensures
        ({
            let caps = "video/x-raw,format="@ + (if cfg.encoder == H264Encoder::X264 || cfg.encoder
                == H264Encoder::OpenH264 {
                "I420"@
            } else {
                "NV12"@
            }) + ",width="@ + decimal(cfg.width as nat) + ",height="@ + decimal(cfg.height as nat)
                + ",framerate="@ + decimal(cfg.fps as nat) + "/1"@;
            &&& has_part(wfd_text(cfg, source, transport), caps)
            &&& has_part(mirror_text(cfg, source), caps)
            &&& has_part(chromecast_text(cfg, source), caps)
        }),
{
    let caps = "video/x-raw,format="@ + format_of(cfg.encoder) + ",width="@ + decimal(
        cfg.width as nat,
    ) + ",height="@ + decimal(cfg.height as nat) + ",framerate="@ + decimal(cfg.fps as nat)
        + "/1"@;
    assert(has_part(convert_text(cfg), caps)) by {
        reveal(convert_text);
        reveal_strlit("video/x-raw,format=");
        reveal_strlit("videorate ! vapostproc add-borders=true ! video/x-raw,format=");
        reveal_strlit(
            "videorate ! videoscale add-borders=true ! videoconvert n-threads=0 ! video/x-raw,format=",
        );
        let at = convert_text(cfg).len() - caps.len();
        assert(convert_text(cfg).subrange(at, at + caps.len()) =~= caps);
        assert(part_at(convert_text(cfg), caps, at));
    }
    broadcast use {part_of_itself, part_of_first, part_of_second};

}

/// The rate and the distance between keyframes reach the encoder, whichever it
/// is, in the unit that it takes: bits per second for `v4l2h264enc` and
/// `openh264enc`, a thousand of them for the others.
#[verifier::spinoff_prover]
pub proof fn an_encoder_is_given_rate_and_keyframes(encoder: H264Encoder, cfg: StreamConfig)
    ensures
        ({
            let kbps = decimal(scaled_bitrate(cfg) as nat);
            let bps = decimal((scaled_bitrate(cfg) * 1000) as nat);
            let gop = decimal(key_frame_distance(cfg) as nat);
            let text = encoder_text(encoder, cfg);
            match encoder {
                H264Encoder::X264 => has_part(text, "x264enc name=enc "@) && has_part(
                    text,
                    " key-int-max="@ + gop + " bitrate="@ + kbps,
                ),
                H264Encoder::VaH264 => has_part(text, "vah264enc name=enc "@) && has_part(
                    text,
                    " bitrate="@ + kbps + " key-int-max="@ + gop + " "@,
                ),
                H264Encoder::VaapiH264 => has_part(text, "vaapih264enc name=enc "@) && has_part(
                    text,
                    " bitrate="@ + kbps + " keyframe-period="@ + gop + " "@,
                ),
                H264Encoder::NvH264 => has_part(text, "nvh264enc name=enc "@) && has_part(
                    text,
                    " bitrate="@ + kbps + " gop-size="@ + gop + " "@,
                ),
                H264Encoder::V4l2H264 => has_part(text, "v4l2h264enc name=enc "@) && has_part(
                    text,
                    ",h264_i_frame_period="@ + gop + ",video_bitrate="@ + bps + ","@,
                ),
                H264Encoder::OpenH264 => has_part(text, "openh264enc name=enc "@) && has_part(
                    text,
                    " gop-size="@ + gop + " bitrate="@ + bps + " "@,
                ),
            }
        }),
{
    reveal(encoder_text);
    let text = encoder_text(encoder, cfg);
    let kbps = decimal(scaled_bitrate(cfg) as nat);
    let bps = decimal((scaled_bitrate(cfg) * 1000) as nat);
    let gop = decimal(key_frame_distance(cfg) as nat);
    match encoder {
        H264Encoder::X264 => {
            reveal_strlit("x264enc name=enc ");
            reveal_strlit(
                "x264enc name=enc tune=zerolatency speed-preset=ultrafast rc-lookahead=0 sync-lookahead=0 bframes=0 b-adapt=false threads=0 aud=true cabac=false ref=1 pass=cbr vbv-buf-capacity=50 intra-refresh=",
            );
            starts_with_part(text, "x264enc name=enc "@);
            let part = " key-int-max="@ + gop + " bitrate="@ + kbps;
            part_stands_at(text, part, text.len() - part.len());
        },
        H264Encoder::VaH264 => {
            reveal_strlit("vah264enc name=enc ");
            reveal_strlit(" bitrate=");
            reveal_strlit(" ");
            reveal_strlit("vah264enc name=enc rate-control=cbr bitrate=");
            reveal_strlit(
                " b-frames=0 ref-frames=1 num-slices=1 target-usage=6 aud=true cabac=false",
            );
            starts_with_part(text, "vah264enc name=enc "@);
            part_stands_at(
                text,
                " bitrate="@ + kbps + " key-int-max="@ + gop + " "@,
                "vah264enc name=enc rate-control=cbr bitrate="@.len() - " bitrate="@.len(),
            );
        },
        H264Encoder::VaapiH264 => {
            reveal_strlit("vaapih264enc name=enc ");
            reveal_strlit(" bitrate=");
            reveal_strlit(" ");
            reveal_strlit("vaapih264enc name=enc rate-control=cbr bitrate=");
            reveal_strlit(
                " max-bframes=0 refs=1 num-slices=1 quality-level=7 cabac=false aud=true",
            );
            starts_with_part(text, "vaapih264enc name=enc "@);
            part_stands_at(
                text,
                " bitrate="@ + kbps + " keyframe-period="@ + gop + " "@,
                "vaapih264enc name=enc rate-control=cbr bitrate="@.len() - " bitrate="@.len(),
            );
        },
        H264Encoder::NvH264 => {
            reveal_strlit("nvh264enc name=enc ");
            reveal_strlit(" bitrate=");
            reveal_strlit(" ");
            reveal_strlit("nvh264enc name=enc preset=low-latency-hq rc-mode=cbr bitrate=");
            reveal_strlit(" bframes=0 zerolatency=true aud=true");
            starts_with_part(text, "nvh264enc name=enc "@);
            part_stands_at(
                text,
                " bitrate="@ + kbps + " gop-size="@ + gop + " "@,
                "nvh264enc name=enc preset=low-latency-hq rc-mode=cbr bitrate="@.len()
                    - " bitrate="@.len(),
            );
        },
        H264Encoder::V4l2H264 => {
            reveal_strlit("v4l2h264enc name=enc ");
            reveal_strlit(",h264_i_frame_period=");
            reveal_strlit(",");
            reveal_strlit(
                "v4l2h264enc name=enc extra-controls=\"controls,h264_profile=0,h264_i_frame_period=",
            );
            reveal_strlit(",repeat_sequence_header=1\"");
            starts_with_part(text, "v4l2h264enc name=enc "@);
            part_stands_at(
                text,
                ",h264_i_frame_period="@ + gop + ",video_bitrate="@ + bps + ","@,
                "v4l2h264enc name=enc extra-controls=\"controls,h264_profile=0,h264_i_frame_period="@.len()
                    - ",h264_i_frame_period="@.len(),
            );
        },
        H264Encoder::OpenH264 => {
            reveal_strlit("openh264enc name=enc ");
            reveal_strlit(" gop-size=");
            reveal_strlit(" ");
            reveal_strlit(
                "openh264enc name=enc usage-type=screen rate-control=bitrate complexity=low scene-change-detection=false enable-frame-skip=true multi-thread=0 gop-size=",
            );
            reveal_strlit(" max-bitrate=");
            starts_with_part(text, "openh264enc name=enc "@);
            part_stands_at(
                text,
                " gop-size="@ + gop + " bitrate="@ + bps + " "@,
                "openh264enc name=enc usage-type=screen rate-control=bitrate complexity=low scene-change-detection=false enable-frame-skip=true multi-thread=0 gop-size="@.len()
                    - " gop-size="@.len(),
            );
        },
    }
}

/// Every description encodes with the configured encoder.
#[verifier::spinoff_prover]
pub proof fn a_description_encodes_as_configured(
    cfg: StreamConfig,
    source: VideoSource,
    transport: WfdTransport,
    part: Seq<char>,
)
    requires
        has_part(encoder_text(cfg.encoder, cfg), part),
    ensures
        has_part(wfd_text(cfg, source, transport), part),
        has_part(mirror_text(cfg, source), part),
        has_part(chromecast_text(cfg, source), part),
{
    broadcast use {part_of_itself, part_of_first, part_of_second};

}

/// A Wi-Fi Display description up to the address that the media goes to.
spec fn wfd_up_to_media(cfg: StreamConfig, source: VideoSource) -> Seq<char> {
    "rtpbin name=rtpbin rtp-profile=avp latency="@ + decimal(RTP_LATENCY_MS as nat) + " "@
        + source_text(source) + " ! "@ + convert_text(cfg) + " ! "@ + video_queue_text() + " ! "@
        + encoder_text(cfg.encoder, cfg)
        + " ! video/x-h264,profile=constrained-baseline ! h264parse config-interval=-1 ! mux.sink_"@
        + decimal(WFD_VIDEO_PID as nat)
        + " mpegtsmux name=mux alignment=7 ! queue max-size-buffers=1 max-size-bytes=0 max-size-time=0 silent=true ! rtpmp2tpay ssrc=1 perfect-rtptime=false timestamp-offset=0 seqnum-offset=0 ! rtpbin.send_rtp_sink_0 rtpbin.send_rtp_src_0 ! udpsink host="@
}

/// The part of a description that sends something to an address and a port.
spec fn sent_to(ip: Seq<char>, port: nat, local: nat, sync: Seq<char>) -> Seq<char> {
    ip + " port="@ + decimal(port) + " bind-port="@ + decimal(local) + sync
}

proof fn ends_in_host(start: Seq<char>, element: Seq<char>)
    requires
        element
            == " mpegtsmux name=mux alignment=7 ! queue max-size-buffers=1 max-size-bytes=0 max-size-time=0 silent=true ! rtpmp2tpay ssrc=1 perfect-rtptime=false timestamp-offset=0 seqnum-offset=0 ! rtpbin.send_rtp_sink_0 rtpbin.send_rtp_src_0 ! udpsink host="@
            || element == " async=false rtpbin.send_rtcp_src_0 ! udpsink host="@,
    ensures
        (start + element).len() >= 6,
        (start + element).skip((start + element).len() - 6) == " host="@,
{
    reveal_strlit(" host=");
    reveal_strlit(" async=false rtpbin.send_rtcp_src_0 ! udpsink host=");
    reveal_strlit(
        " mpegtsmux name=mux alignment=7 ! queue max-size-buffers=1 max-size-bytes=0 max-size-time=0 silent=true ! rtpmp2tpay ssrc=1 perfect-rtptime=false timestamp-offset=0 seqnum-offset=0 ! rtpbin.send_rtp_sink_0 rtpbin.send_rtp_src_0 ! udpsink host=",
    );
    assert((start + element).skip((start + element).len() - 6) =~= " host="@);
}

proof fn host_goes_before(start: Seq<char>, part: Seq<char>)
    requires
        start.len() >= 6,
        start.skip(start.len() - 6) == " host="@,
    ensures
        has_part(start + part, " host="@ + part),
{
    reveal_strlit(" host=");
    let at = start.len() - 6;
    let whole = start + part;
    assert forall|i: int| 0 <= i < 6 implies whole[at + i] == #[trigger] " host="@[i] by {
        assert(start.skip(at)[i] == start[at + i]);
    }
    part_stands_at(whole, " host="@ + part, at);
}

/// A Wi-Fi Display stream goes to the sink that it was given: the media to its
/// port, from the local one, and the control packets to the port after it, from
/// the one after the local one, starting over after the last port there is.
#[verifier::spinoff_prover]
pub proof fn a_wfd_stream_goes_to_its_sink(
    cfg: StreamConfig,
    source: VideoSource,
    transport: WfdTransport,
)
    ensures
        ({
            let text = wfd_text(cfg, source, transport);
            let control = if transport.rtp_port == 0xFFFF {
                0
            } else {
                (transport.rtp_port + 1) as nat
            };
            let local_control = if transport.local_rtp_port == 0xFFFF {
                0
            } else {
                (transport.local_rtp_port + 1) as nat
            };
            &&& has_part(
                text,
                " host="@ + (transport.sink_ip@ + " port="@ + decimal(transport.rtp_port as nat)
                    + " bind-port="@ + decimal(transport.local_rtp_port as nat) + (" sync="@ + (
                if cfg.overrides.rtp_sync {
                    "true"@
                } else {
                    "false"@
                }))),
            )
            &&& has_part(
                text,
                " host="@ + (transport.sink_ip@ + " port="@ + decimal(control) + " bind-port="@
                    + decimal(local_control) + " sync=false async=false "@),
            )
        }),
{
    let ip = transport.sink_ip@;
    let first = wfd_up_to_media(cfg, source);
    let sync = " sync="@ + switch_word(cfg.overrides.rtp_sync);
    let media = sent_to(
        ip,
        transport.rtp_port as nat,
        transport.local_rtp_port as nat,
        sync,
    );
    let hop = " async=false rtpbin.send_rtcp_src_0 ! udpsink host="@;
    let sent = first + media + hop;
    let control = sent_to(
        ip,
        next_port(transport.rtp_port) as nat,
        next_port(transport.local_rtp_port) as nat,
        " sync=false async=false "@,
    );
    let audio = audio_branch_text(cfg, "mux.sink_"@ + decimal(WFD_AUDIO_PID as nat));
    assert(wfd_text(cfg, source, transport) =~= first + media + hop + control + audio);
    assert(has_part(first + media, " host="@ + media)) by {
        ends_in_host(
            "rtpbin name=rtpbin rtp-profile=avp latency="@ + decimal(RTP_LATENCY_MS as nat) + " "@
                + source_text(source) + " ! "@ + convert_text(cfg) + " ! "@ + video_queue_text()
                + " ! "@ + encoder_text(cfg.encoder, cfg)
                + " ! video/x-h264,profile=constrained-baseline ! h264parse config-interval=-1 ! mux.sink_"@
                + decimal(WFD_VIDEO_PID as nat),
            " mpegtsmux name=mux alignment=7 ! queue max-size-buffers=1 max-size-bytes=0 max-size-time=0 silent=true ! rtpmp2tpay ssrc=1 perfect-rtptime=false timestamp-offset=0 seqnum-offset=0 ! rtpbin.send_rtp_sink_0 rtpbin.send_rtp_src_0 ! udpsink host="@,
        );
        host_goes_before(first, media);
    }
    assert(has_part(sent + control, " host="@ + control)) by {
        ends_in_host(first + media, hop);
        host_goes_before(sent, control);
    }
    part_of_first(first + media, hop, " host="@ + media);
    part_of_first(sent, control, " host="@ + media);
    part_of_first(sent + control, audio, " host="@ + media);
    part_of_first(sent + control, audio, " host="@ + control);
}

/// A Wi-Fi Display programme is where sinks look for it: the video under the
/// program id 4113, the audio under 4352.
#[verifier::spinoff_prover]
pub proof fn a_wfd_programme_has_its_ids(
    cfg: StreamConfig,
    source: VideoSource,
    transport: WfdTransport,
)
    ensures
        has_part(wfd_text(cfg, source, transport), decimal(4113)),
        has_part(wfd_text(cfg, source, transport), "mux.sink_"@ + decimal(4352)),
{
    reveal(audio_branch_text);
    broadcast use {part_of_itself, part_of_first, part_of_second};

}

/// A receiver that has just connected to a Chromecast stream starts as asked for,
/// at the next keyframe where nothing was.
#[verifier::spinoff_prover]
pub proof fn a_late_receiver_starts_as_asked(cfg: StreamConfig, source: VideoSource)
    ensures
        has_part(
            chromecast_text(cfg, source),
            " sync-method="@ + (match cfg.overrides.sync_method {
                Some(method) => method@,
                None => "next-keyframe"@,
            }) + " recover-policy=keyframe "@,
        ),
{
    let first = source_text(source) + " ! "@ + convert_text(cfg) + " ! "@ + video_queue_text()
        + " ! "@ + encoder_text(cfg.encoder, cfg)
        + " ! h264parse config-interval=-1 ! matroskamux name=mux streamable=true min-cluster-duration=20000000 max-cluster-duration=40000000 ! queue max-size-buffers=0 max-size-bytes=0 max-size-time=50000000 silent=true ! multisocketsink name="@
        + CHROMECAST_SINK_NAME@
        + " sync=false async=false blocksize=8192 burst-format=buffers sync-method="@;
    let part = " sync-method="@ + sync_method(cfg) + " recover-policy=keyframe "@;
    reveal_strlit(" sync-method=");
    reveal_strlit(" sync=false async=false blocksize=8192 burst-format=buffers sync-method=");
    assert(first.subrange(first.len() - 13, first.len() as int) =~= " sync-method="@);
    part_stands_at(
        first + sync_method(cfg) + " recover-policy=keyframe "@,
        part,
        first.len() - 13,
    );
    broadcast use {part_of_itself, part_of_first, part_of_second};

}

/// A bitrate that was asked for is the one sent. Else it goes by the picture's
/// size, up to 30 Hz, and from 60 Hz on is half as much again; in between it grows
/// with the rate, evenly but for the last unit.
pub proof fn the_bitrate_goes_by_size_and_rate(cfg: StreamConfig)
    ensures
        cfg.bitrate_kbps != 0 ==> scaled_bitrate(cfg) == cfg.bitrate_kbps,
        cfg.bitrate_kbps == 0 && cfg.fps <= 30 ==> scaled_bitrate(cfg) == base_bitrate(
            cfg.width,
            cfg.height,
        ),
        cfg.bitrate_kbps == 0 && cfg.fps >= 60 ==> scaled_bitrate(cfg) * 2 == base_bitrate(
            cfg.width,
            cfg.height,
        ) * 3,
        cfg.bitrate_kbps == 0 && 30 <= cfg.fps <= 60 ==> {
            let exact = base_bitrate(cfg.width, cfg.height) * (30 + cfg.fps);
            exact - 120 < scaled_bitrate(cfg) * 60 <= exact
        },
{
    let base = base_bitrate(cfg.width, cfg.height);
    assert(base == 6_000 || base == 9_000 || base == 10_000 || base == 14_000 || base == 20_000);
}

/// A larger picture never gets less: up to VGA it gets 6 Mbit/s, up to 720p no
/// more than 9, up to 1080p no more than 10, up to 1440p no more than 14, and
/// beyond that 20.
pub proof fn a_larger_picture_gets_no_less(a: (u32, u32), b: (u32, u32))
    requires
        a.0 * a.1 <= b.0 * b.1,
    ensures
        base_bitrate(a.0, a.1) <= base_bitrate(b.0, b.1),
        base_bitrate(a.0, a.1) == 6_000 <==> a.0 * a.1 <= 640 * 480,
        base_bitrate(a.0, a.1) <= 9_000 <==> a.0 * a.1 <= 1280 * 720,
        base_bitrate(a.0, a.1) <= 10_000 <==> a.0 * a.1 <= 1920 * 1080,
        base_bitrate(a.0, a.1) <= 14_000 <==> a.0 * a.1 <= 2560 * 1440,
        base_bitrate(a.0, a.1) == 20_000 <==> a.0 * a.1 > 2560 * 1440,
        base_bitrate(a.0, a.1) % 1000 == 0,
{
}

/// Keyframes come once a second, unless another distance was asked for, and after
/// every frame at the least.
pub proof fn keyframes_come_once_a_second(cfg: StreamConfig)
    ensures
        cfg.overrides.gop is None && cfg.fps > 0 ==> key_frame_distance(cfg) == cfg.fps,
        cfg.overrides.gop matches Some(gop) ==> (gop > 0 ==> key_frame_distance(cfg) == gop),
        key_frame_distance(cfg) == 0 ==> false,
        cfg.overrides.gop is None && cfg.fps == 0 ==> key_frame_distance(cfg) == 1,
{
}

/// A pipeline's latency is the one asked for; else only `openh264enc` gets any.
pub proof fn only_openh264_needs_headroom(cfg: StreamConfig)
    ensures
        cfg.overrides.latency_ms matches Some(ms) ==> session_latency(cfg) == ms,
        cfg.overrides.latency_ms is None ==> session_latency(cfg) == (if cfg.encoder
            == H264Encoder::OpenH264 {
            500u64
        } else {
            0
        }),
{
}

/// The driver of a kernel module is that of its vendor, whichever of its names the
/// module goes by, and a module of no known name has no known driver.
pub proof fn a_module_tells_its_driver(module: Seq<char>)
    ensures
        driver_of(module) == GpuDriver::I915 <==> module == "i915"@,
        driver_of(module) == GpuDriver::Xe <==> module == "xe"@,
        driver_of(module) == GpuDriver::Amdgpu <==> module == "amdgpu"@ || module == "radeon"@,
        driver_of(module) == GpuDriver::Nvidia <==> module == "nvidia"@ || module == "nvidia-drm"@,
        driver_of(module) == GpuDriver::Nouveau <==> module == "nouveau"@,
{
    reveal_strlit("i915");
    reveal_strlit("xe");
    reveal_strlit("amdgpu");
    reveal_strlit("radeon");
    reveal_strlit("nvidia");
    reveal_strlit("nvidia-drm");
    reveal_strlit("nouveau");
    assert("i915"@.len() == 4 && "xe"@.len() == 2 && "amdgpu"@.len() == 6 && "radeon"@.len() == 6
        && "nvidia"@.len() == 6 && "nvidia-drm"@.len() == 10 && "nouveau"@.len() == 7);
    assert("amdgpu"@[0] != "nvidia"@[0] && "radeon"@[0] != "nvidia"@[0]);
}

/// Hardware encoders are preferred to software ones, the modern VA-API one most of
/// all, and `openh264enc` is the last resort.
pub proof fn hardware_is_preferred(encoder: H264Encoder, other: H264Encoder)
    ensures
        in_hardware(encoder) && !in_hardware(other) ==> priority_of(encoder) > priority_of(other),
        in_hardware(encoder) <==> encoder != H264Encoder::X264 && encoder != H264Encoder::OpenH264,
        encoder != H264Encoder::VaH264 ==> priority_of(H264Encoder::VaH264) > priority_of(encoder),
        encoder != H264Encoder::OpenH264 ==> priority_of(H264Encoder::OpenH264) < priority_of(
            encoder,
        ),
        priority_of(H264Encoder::NvH264) > priority_of(H264Encoder::VaapiH264),
        priority_of(H264Encoder::VaapiH264) > priority_of(H264Encoder::V4l2H264),
{
}

/// Software runs on any driver. Hardware runs on none that is not trusted, NVENC
/// on its vendor's alone, VA-API on any other, and V4L2 on all of them.
pub proof fn hardware_runs_where_it_belongs(driver: GpuDriver)
    ensures
        usable(H264Encoder::X264, driver),
        usable(H264Encoder::OpenH264, driver),
        usable(H264Encoder::NvH264, driver) <==> driver == GpuDriver::Nvidia,
        usable(H264Encoder::VaH264, driver) <==> driver != GpuDriver::Nvidia && driver
            != GpuDriver::Nouveau,
        usable(H264Encoder::VaapiH264, driver) <==> driver != GpuDriver::Nvidia && driver
            != GpuDriver::Nouveau,
        usable(H264Encoder::V4l2H264, driver) <==> driver != GpuDriver::Nouveau,
{
}

proof fn the_forced_one_is_listed(available: Seq<H264Encoder>, name: Option<Seq<char>>)
    ensures
        match forced_encoder(available, name) {
            Some(encoder) => available.contains(encoder) && name == Some(element_of(encoder)),
            None => forall|i: int|
                0 <= i < available.len() ==> name != Some(element_of(#[trigger] available[i])),
        },
    decreases available.len(),
{
    if available.len() > 0 {
        let rest = available.skip(1);
        the_forced_one_is_listed(rest, name);
        if name == Some(element_of(available[0])) {
            assert(available.contains(available[0]));
        } else if let Some(encoder) = forced_encoder(rest, name) {
            let i = choose|i: int| 0 <= i < rest.len() && rest[i] == encoder;
            assert(available[i + 1] == encoder);
        } else {
            assert forall|i: int| 0 <= i < available.len() implies name != Some(
                element_of(#[trigger] available[i]),
            ) by {
                if i > 0 {
                    assert(rest[i - 1] == available[i]);
                }
            }
        }
    }
}

/// A forced encoder is the one whose element was named, and only where it is
/// available: no name forces nothing, nor does a name of nothing available.
pub proof fn a_forced_encoder_is_the_one_named(
    available: Seq<H264Encoder>,
    encoder: H264Encoder,
    name: Seq<char>,
)
    ensures
        forced_encoder(available, None) is None,
        available.contains(encoder) ==> (forced_encoder(available, Some(element_of(encoder)))
            matches Some(forced) && element_of(forced) == element_of(encoder)),
        forced_encoder(available, Some(name)) matches Some(forced) ==> available.contains(forced)
            && element_of(forced) == name,
{
    the_forced_one_is_listed(available, None);
    the_forced_one_is_listed(available, Some(name));
    the_forced_one_is_listed(available, Some(element_of(encoder)));
    if available.contains(encoder) {
        let i = choose|i: int| 0 <= i < available.len() && available[i] == encoder;
        assert(element_of(available[i]) == element_of(encoder));
    }
}

/// What the registry holds is found, and nothing else: an encoder is among those
/// installed exactly where it is known and the registry has its element.
pub proof fn only_what_is_installed_is_found(
    all: Seq<H264Encoder>,
    names: Seq<String>,
    encoder: H264Encoder,
)
    ensures
        installed_among(all, names).contains(encoder) <==> all.contains(encoder) && exists|i: int|
            0 <= i < names.len() && (#[trigger] names[i])@ == element_of(encoder),
    decreases all.len(),
{
    if all.len() > 0 {
        let front = all.drop_last();
        let before = installed_among(front, names);
        let after = installed_among(all, names);
        only_what_is_installed_is_found(front, names, encoder);
        assert(is_installed(encoder, names) <==> exists|i: int|
            0 <= i < names.len() && (#[trigger] names[i])@ == element_of(encoder));
        if before.contains(encoder) {
            let k = choose|k: int| 0 <= k < before.len() && before[k] == encoder;
            assert(after[k] == encoder);
        }
        if front.contains(encoder) {
            let k = choose|k: int| 0 <= k < front.len() && front[k] == encoder;
            assert(all[k] == encoder);
        }
        if all.last() == encoder {
            assert(all[all.len() - 1] == encoder);
            if is_installed(encoder, names) {
                assert(after[after.len() - 1] == encoder);
            }
        }
        if all.contains(encoder) && all.last() != encoder {
            let k = choose|k: int| 0 <= k < all.len() && all[k] == encoder;
            assert(front[k] == encoder);
        }
        if after.contains(encoder) {
            let k = choose|k: int| 0 <= k < after.len() && after[k] == encoder;
            if k < before.len() {
                assert(before[k] == encoder);
            }
        }
    }
}

/// A frame's age grows with the clock, by as much, from nothing at the instant it
/// is due; before that it has none.
pub proof fn a_frame_ages_with_the_clock(clock: u64, base: u64, pts: u64, later: u64)
    requires
        clock <= later,
    ensures
        clock == base + pts ==> age_at(clock, base, pts) == Some(0u64),
        clock < base + pts ==> age_at(clock, base, pts) is None,
        age_at(clock, base, pts) matches Some(age) ==> (age_at(later, base, pts) matches Some(
            older,
        ) && older - age == later - clock),
{
}

/// A probe after some more frames, in order.
pub open spec fn probe_after_all(ages: Seq<u64>) -> LatencyProbe
    decreases ages.len(),
{
    if ages.len() == 0 {
        LatencyProbe { frames: 0, total_ms: 0, worst_ms: 0 }
    } else {
        probe_after(probe_after_all(ages.drop_last()), ages.last())
    }
}

/// The ages of some frames together.
pub open spec fn total_age(ages: Seq<u64>) -> nat
    decreases ages.len(),
{
    if ages.len() == 0 {
        0
    } else {
        total_age(ages.drop_last()) + ages.last() as nat
    }
}

/// A report counts every frame since the last one: how many there were, the worst
/// age among them, and their mean, rounded down.
pub proof fn a_report_counts_every_frame(ages: Seq<u64>)
    requires
        0 < ages.len() <= u64::MAX,
        total_age(ages) <= u64::MAX,
    ensures
        ({
            let report = report_of(probe_after_all(ages));
            &&& report.frames == ages.len()
            &&& forall|i: int| 0 <= i < ages.len() ==> ages[i] <= report.worst_ms
            &&& ages.contains(report.worst_ms)
            &&& report.mean_ms * ages.len() <= total_age(ages) < (report.mean_ms + 1) * ages.len()
        }),
{
    probe_counts(ages);
    let n = ages.len() as int;
    let total = total_age(ages) as int;
    let q = total / n;
    assert(0 <= q <= total && q * n <= total < (q + 1) * n) by (nonlinear_arith)
        requires
            n > 0,
            total >= 0,
            q == total / n,
    ;
}

proof fn probe_counts(ages: Seq<u64>)
    requires
        ages.len() <= u64::MAX,
        total_age(ages) <= u64::MAX,
    ensures
        probe_after_all(ages).frames == ages.len(),
        probe_after_all(ages).total_ms == total_age(ages),
        forall|i: int| 0 <= i < ages.len() ==> ages[i] <= probe_after_all(ages).worst_ms,
        ages.len() > 0 ==> ages.contains(probe_after_all(ages).worst_ms),
    decreases ages.len(),
{
    if ages.len() > 0 {
        let front = ages.drop_last();
        probe_counts(front);
        let before = probe_after_all(front);
        let after = probe_after_all(ages);
        assert forall|i: int| 0 <= i < ages.len() implies ages[i] <= after.worst_ms by {
            if i < front.len() {
                assert(front[i] == ages[i]);
            }
        }
        if ages.last() > before.worst_ms || front.len() == 0 {
            assert(after.worst_ms == ages[ages.len() - 1]);
        } else {
            let k = choose|k: int| 0 <= k < front.len() && front[k] == before.worst_ms;
            assert(ages[k] == after.worst_ms);
        }
    }
}

/// Only `1` and `true`, in whatever case, switch something on; nothing does not.
pub proof fn only_one_and_true_switch_on(value: Seq<char>)
    ensures
        switches_on(Some("1"@)),
        lowered(value) == "true"@ ==> switches_on(Some(value)),
        switches_on(Some(value)) ==> value == "1"@ || lowered(value) == "true"@,
        !switches_on(None),
{
    reveal_strlit("true");
    assert(lowered("true"@) =~= "true"@);
}

/// An encoder's description begins with the name of its element.
#[verifier::spinoff_prover]
pub proof fn an_encoder_is_described_by_its_element(encoder: H264Encoder, cfg: StreamConfig)
    ensures
        ({
            let text = encoder_text(encoder, cfg);
            let element = element_of(encoder);
            &&& text.len() > element.len()
            &&& text.take(element.len() as int) == element
            &&& text[element.len() as int] == ' '
        }),
{
    reveal(encoder_text);
    match encoder {
        H264Encoder::VaH264 => {
            reveal_strlit("vah264enc");
            reveal_strlit("vah264enc name=enc rate-control=cbr bitrate=");
        },
        H264Encoder::VaapiH264 => {
            reveal_strlit("vaapih264enc");
            reveal_strlit("vaapih264enc name=enc rate-control=cbr bitrate=");
        },
        H264Encoder::NvH264 => {
            reveal_strlit("nvh264enc");
            reveal_strlit("nvh264enc name=enc preset=low-latency-hq rc-mode=cbr bitrate=");
        },
        H264Encoder::V4l2H264 => {
            reveal_strlit("v4l2h264enc");
            reveal_strlit("v4l2h264enc name=enc extra-controls=\"controls,h264_profile=0,h264_i_frame_period=");
        },
        H264Encoder::X264 => {
            reveal_strlit("x264enc");
            reveal_strlit("x264enc name=enc tune=zerolatency speed-preset=ultrafast rc-lookahead=0 sync-lookahead=0 bframes=0 b-adapt=false threads=0 aud=true cabac=false ref=1 pass=cbr vbv-buf-capacity=50 intra-refresh=");
        },
        H264Encoder::OpenH264 => {
            reveal_strlit("openh264enc");
            reveal_strlit("openh264enc name=enc usage-type=screen rate-control=bitrate complexity=low scene-change-detection=false enable-frame-skip=true multi-thread=0 gop-size=");
        },
    }
    let element = element_of(encoder);
    assert(encoder_text(encoder, cfg).take(element.len() as int) =~= element);
}

} // verus!
