//! The preferences the person sets once and expects to hold.
//!
//! The file is `~/.config/bignetscreen/settings.conf`, `key = value`, one per
//! line. It has to survive being edited by hand, and an unknown key must never
//! stop the application from starting.
use crate::latency::{Latency, Profile};
use crate::path::join;
use crate::text::{
    chars_of, copied, is_text, next_line, number_text, parse_number, split_once, string_of, trim,
};
use vstd::prelude::*;

verus! {

use crate::path::{a_slash_parts_names, joined, joining_appends_names, path_parts};
use crate::text::{
    content, decimal, decimal_reads_back, first_index_is_first, first_index_unique, first_line, halves,
    is_digit, is_space, lines, lines_of_concatenation, lines_of_line, number, text_of, trim_end,
    trim_end_of_concatenation, trimmed, trimmed_after_space, trimmed_already, trimming_commutes,
    trimming_is_idempotent, without_cr,
};

/// Which protocol to prefer when a receiver offers more than one.
#[derive(Clone, Copy, Debug, Default, PartialEq, Eq, Structural)]
pub enum Protocol {
    /// Whatever gives the best result for each receiver.
    #[default]
    Auto,
    /// Wi-Fi Direct only (Miracast).
    Miracast,
    /// Network receivers only (Chromecast/AirPlay discovery).
    Cast,
}

/// The word for a protocol in the file.
pub open spec fn protocol_key(protocol: Protocol) -> Seq<char> {
    match protocol {
        Protocol::Auto => "auto"@,
        Protocol::Miracast => "miracast"@,
        Protocol::Cast => "cast"@,
    }
}

/// The protocol that a word of the file stands for.
pub open spec fn protocol_of(value: Seq<char>) -> Option<Protocol> {
    if value == "auto"@ {
        Some(Protocol::Auto)
    } else if value == "miracast"@ {
        Some(Protocol::Miracast)
    } else if value == "cast"@ {
        Some(Protocol::Cast)
    } else {
        None
    }
}

impl Protocol {
    /// The word for this protocol in the file.
    pub fn as_key(self) -> (res: &'static str)
        ensures
            res@ == protocol_key(self),
    {
        match self {
            Protocol::Auto => "auto",
            Protocol::Miracast => "miracast",
            Protocol::Cast => "cast",
        }
    }

    /// The protocol that a word of the file stands for.
    pub fn parse(value: &str) -> (res: Option<Self>)
        ensures
            res == protocol_of(value@),
    {
        let chars = chars_of(value);
        Self::read(chars.as_slice())
    }

    fn read(value: &[char]) -> (res: Option<Self>)
        ensures
            res == protocol_of(value@),
    {
        if is_text(value, "auto") {
            Some(Protocol::Auto)
        } else if is_text(value, "miracast") {
            Some(Protocol::Miracast)
        } else if is_text(value, "cast") {
            Some(Protocol::Cast)
        } else {
            None
        }
    }
}

/// The ceiling put on the picture that is sent.
///
/// A cap, never a target: a screen smaller than the cap is sent at its own
/// size, and the receiver's own limit still applies on top of this one.
#[derive(Clone, Copy, Debug, Default, PartialEq, Eq, Structural)]
pub enum Quality {
    /// 3840x2160: above what a Cast receiver is *known* to take.
    Max,
    /// 2560x1440.
    Ultra,
    /// 1920x1080.
    #[default]
    High,
    /// 1280x720 — for a weak link, or a receiver that stutters at 1080p.
    Medium,
    /// 854x480.
    Low,
    HdPlus,
    Wxga,
    Wuxga,
    Wqxga,
    Ultrawide,
    Custom,
}

/// The resolution cap a quality stands for.
pub open spec fn quality_cap(quality: Quality) -> (u32, u32) {
    match quality {
        Quality::Max => (3840, 2160),
        Quality::Ultra => (2560, 1440),
        Quality::High => (1920, 1080),
        Quality::Medium => (1280, 720),
        Quality::Low => (854, 480),
        Quality::HdPlus => (1600, 900),
        Quality::Wxga => (1280, 800),
        Quality::Wuxga => (1920, 1200),
        Quality::Wqxga => (2560, 1600),
        Quality::Ultrawide => (3440, 1440),
        Quality::Custom => (1920, 1080),
    }
}

/// The word for a quality in the file.
pub open spec fn quality_key(quality: Quality) -> Seq<char> {
    match quality {
        Quality::Max => "max"@,
        Quality::Ultra => "ultra"@,
        Quality::High => "high"@,
        Quality::Medium => "medium"@,
        Quality::Low => "low"@,
        Quality::HdPlus => "900p"@,
        Quality::Wxga => "800p"@,
        Quality::Wuxga => "1200p"@,
        Quality::Wqxga => "1600p"@,
        Quality::Ultrawide => "ultrawide"@,
        Quality::Custom => "custom"@,
    }
}

/// The quality that a word of the file stands for.
pub open spec fn quality_of(value: Seq<char>) -> Option<Quality> {
    if value == "max"@ {
        Some(Quality::Max)
    } else if value == "ultra"@ {
        Some(Quality::Ultra)
    } else if value == "high"@ {
        Some(Quality::High)
    } else if value == "medium"@ {
        Some(Quality::Medium)
    } else if value == "low"@ {
        Some(Quality::Low)
    } else if value == "900p"@ {
        Some(Quality::HdPlus)
    } else if value == "800p"@ {
        Some(Quality::Wxga)
    } else if value == "1200p"@ {
        Some(Quality::Wuxga)
    } else if value == "1600p"@ {
        Some(Quality::Wqxga)
    } else if value == "ultrawide"@ {
        Some(Quality::Ultrawide)
    } else if value == "custom"@ {
        Some(Quality::Custom)
    } else {
        None
    }
}

impl Quality {
    /// The resolution cap this quality stands for.
    pub fn resolution(self) -> (res: (u32, u32))
        ensures
            res == quality_cap(self),
    {
        match self {
            Quality::Max => (3840, 2160),
            Quality::Ultra => (2560, 1440),
            Quality::High => (1920, 1080),
            Quality::Medium => (1280, 720),
            Quality::Low => (854, 480),
            Quality::HdPlus => (1600, 900),
            Quality::Wxga => (1280, 800),
            Quality::Wuxga => (1920, 1200),
            Quality::Wqxga => (2560, 1600),
            Quality::Ultrawide => (3440, 1440),
            Quality::Custom => (1920, 1080),
        }
    }

    /// The word for this quality in the file.
    pub fn as_key(self) -> (res: &'static str)
        ensures
            res@ == quality_key(self),
    {
        match self {
            Quality::Max => "max",
            Quality::Ultra => "ultra",
            Quality::High => "high",
            Quality::Medium => "medium",
            Quality::Low => "low",
            Quality::HdPlus => "900p",
            Quality::Wxga => "800p",
            Quality::Wuxga => "1200p",
            Quality::Wqxga => "1600p",
            Quality::Ultrawide => "ultrawide",
            Quality::Custom => "custom",
        }
    }

    /// The quality that a word of the file stands for.
    pub fn parse(value: &str) -> (res: Option<Self>)
        ensures
            res == quality_of(value@),
    {
        let chars = chars_of(value);
        Self::read(chars.as_slice())
    }

    fn read(value: &[char]) -> (res: Option<Self>)
        ensures
            res == quality_of(value@),
    {
        if is_text(value, "max") {
            Some(Quality::Max)
        } else if is_text(value, "ultra") {
            Some(Quality::Ultra)
        } else if is_text(value, "high") {
            Some(Quality::High)
        } else if is_text(value, "medium") {
            Some(Quality::Medium)
        } else if is_text(value, "low") {
            Some(Quality::Low)
        } else if is_text(value, "900p") {
            Some(Quality::HdPlus)
        } else if is_text(value, "800p") {
            Some(Quality::Wxga)
        } else if is_text(value, "1200p") {
            Some(Quality::Wuxga)
        } else if is_text(value, "1600p") {
            Some(Quality::Wqxga)
        } else if is_text(value, "ultrawide") {
            Some(Quality::Ultrawide)
        } else if is_text(value, "custom") {
            Some(Quality::Custom)
        } else {
            None
        }
    }
}

/// Everything the person can change, in one place.
#[derive(Debug, PartialEq)]
pub struct Settings {
    pub protocol: Protocol,
    pub quality: Quality,
    pub custom_width: u32,
    pub custom_height: u32,
    /// Frames per second asked of the encoder. Clamped to 1..=60 on load.
    pub fps: u32,
    /// Send what the computer is playing.
    pub system_audio: bool,
    /// Mix the microphone into the audio that is sent.
    pub microphone: bool,
    /// The microphone's gain, 0..=100.
    pub mic_volume: u8,
    /// Search for receivers as soon as the application starts.
    pub auto_discovery: bool,
    /// Buffered playback ([`Profile::Film`]).
    pub film_mode: bool,
    /// How this computer names itself to a receiver. Empty = the host name.
    pub device_name: String,
    /// A fixed port for the receiver to connect back to, for a firewall that
    /// is managed by hand. `0` = let the system pick one.
    pub port: u16,
}

/// The contents of [`Settings`].
#[verifier::ext_equal]
pub ghost struct SettingsView {
    pub protocol: Protocol,
    pub quality: Quality,
    pub custom_width: u32,
    pub custom_height: u32,
    pub fps: u32,
    pub system_audio: bool,
    pub microphone: bool,
    pub mic_volume: u8,
    pub auto_discovery: bool,
    pub film_mode: bool,
    pub device_name: Seq<char>,
    pub port: u16,
}

impl View for Settings {
    type V = SettingsView;

    open spec fn view(&self) -> SettingsView {
        SettingsView {
            protocol: self.protocol,
            quality: self.quality,
            custom_width: self.custom_width,
            custom_height: self.custom_height,
            fps: self.fps,
            system_audio: self.system_audio,
            microphone: self.microphone,
            mic_volume: self.mic_volume,
            auto_discovery: self.auto_discovery,
            film_mode: self.film_mode,
            device_name: self.device_name@,
            port: self.port,
        }
    }
}

/// What holds until something else is chosen.
pub open spec fn default_settings() -> SettingsView {
    SettingsView {
        protocol: Protocol::Auto,
        quality: Quality::High,
        custom_width: 1920,
        custom_height: 1080,
        fps: 30,
        system_audio: true,
        microphone: false,
        mic_volume: 80,
        auto_discovery: true,
        film_mode: false,
        device_name: Seq::empty(),
        port: 0,
    }
}

impl Default for Settings {
    fn default() -> (res: Self)
        ensures
            res@ == default_settings(),
    {
        Settings {
            protocol: Protocol::Auto,
            quality: Quality::High,
            custom_width: 1920,
            custom_height: 1080,
            fps: 30,
            system_audio: true,
            microphone: false,
            mic_volume: 80,
            auto_discovery: true,
            film_mode: false,
            device_name: String::new(),
            port: 0,
        }
    }
}

impl Clone for Settings {
    fn clone(&self) -> (res: Self)
        ensures
            res@ == self@,
    {
        Settings {
            protocol: self.protocol,
            quality: self.quality,
            custom_width: self.custom_width,
            custom_height: self.custom_height,
            fps: self.fps,
            system_audio: self.system_audio,
            microphone: self.microphone,
            mic_volume: self.mic_volume,
            auto_discovery: self.auto_discovery,
            film_mode: self.film_mode,
            device_name: self.device_name.clone(),
            port: self.port,
        }
    }
}

/// A side of the picture within 160..=7680, made even.
pub open spec fn dimension(value: u32) -> u32 {
    let within: u32 = if value < 160 {
        160
    } else if value > 7680 {
        7680
    } else {
        value
    };
    (within - within % 2) as u32
}

/// Bounds a side of the picture and makes it even, as encoders ask.
pub fn valid_dimension(value: u32) -> (res: u32)
    ensures
        res == dimension(value),
{
    let within: u32 = if value < 160 {
        160
    } else if value > 7680 {
        7680
    } else {
        value
    };
    within - within % 2
}

/// A valid side is even, bounded, and stays as it is.
pub proof fn valid_dimensions_are_even_and_bounded(value: u32)
    ensures
        160 <= dimension(value) <= 7680,
        dimension(value) % 2 == 0,
        dimension(dimension(value)) == dimension(value),
        160 <= value <= 7680 && value % 2 == 0 ==> dimension(value) == value,
{
}

/// The cap that some settings put on the picture.
pub open spec fn cap(settings: SettingsView) -> (u32, u32) {
    if settings.quality == Quality::Custom {
        (dimension(settings.custom_width), dimension(settings.custom_height))
    } else {
        quality_cap(settings.quality)
    }
}

/// The name to show on a receiver: what was configured, else the host name,
/// else the application's.
pub open spec fn shown_name(device_name: Seq<char>, hostname: Option<Seq<char>>) -> Seq<char> {
    if trimmed(device_name).len() > 0 {
        trimmed(device_name)
    } else {
        match hostname {
            Some(host) if trimmed(host).len() > 0 => trimmed(host),
            _ => "BigNetScreen"@,
        }
    }
}

/// The word for a switch in the file.
pub open spec fn switch_key(on: bool) -> Seq<char> {
    if on {
        "true"@
    } else {
        "false"@
    }
}

/// A name on one line: each line break becomes a space.
pub open spec fn on_one_line(name: Seq<char>) -> Seq<char> {
    Seq::new(name.len(), |i: int| if name[i] == '\n' || name[i] == '\r' { ' ' } else { name[i] })
}

/// One `key = value` line of the file, without its ending.
pub open spec fn entry_line(key: Seq<char>, value: Seq<char>) -> Seq<char> {
    key + seq![' ', '=', ' '] + value
}

/// The comment that the file begins with.
pub open spec fn file_comment() -> Seq<char> {
    "# BigNetScreen settings. Edited by the application; safe to edit by hand."@
}

/// The entries of the file, in order.
pub open spec fn entries(s: SettingsView) -> Seq<(Seq<char>, Seq<char>)> {
    seq![
        ("protocol"@, protocol_key(s.protocol)),
        ("quality"@, quality_key(s.quality)),
        ("custom_width"@, decimal(dimension(s.custom_width) as nat)),
        ("custom_height"@, decimal(dimension(s.custom_height) as nat)),
        ("fps"@, decimal(s.fps as nat)),
        ("system_audio"@, switch_key(s.system_audio)),
        ("microphone"@, switch_key(s.microphone)),
        ("mic_volume"@, decimal(s.mic_volume as nat)),
        ("auto_discovery"@, switch_key(s.auto_discovery)),
        ("film_mode"@, switch_key(s.film_mode)),
        ("device_name"@, on_one_line(s.device_name)),
        ("port"@, decimal(s.port as nat)),
    ]
}

/// Entries as the file holds them: one line each.
pub open spec fn written(entries: Seq<(Seq<char>, Seq<char>)>) -> Seq<char>
    decreases entries.len(),
{
    if entries.len() == 0 {
        Seq::empty()
    } else {
        written(entries.drop_last()) + entry_line(entries.last().0, entries.last().1) + seq!['\n']
    }
}

/// The text of the file for some settings.
pub open spec fn file_text(s: SettingsView) -> Seq<char> {
    file_comment() + seq!['\n'] + written(entries(s))
}

/// `value`, put within `low..=high`.
pub open spec fn clamped(value: int, low: int, high: int) -> int {
    if value < low {
        low
    } else if value > high {
        high
    } else {
        value
    }
}

/// The switch that a word stands for.
pub open spec fn switch_of(value: Seq<char>) -> Option<bool> {
    if value == "true"@ {
        Some(true)
    } else if value == "false"@ {
        Some(false)
    } else {
        None
    }
}

/// Settings after one entry. An unknown key or a value that cannot be read
/// changes nothing.
pub open spec fn with_entry(s: SettingsView, key: Seq<char>, value: Seq<char>) -> SettingsView {
    if key == "protocol"@ {
        match protocol_of(value) {
            Some(protocol) => SettingsView { protocol, ..s },
            None => s,
        }
    } else if key == "quality"@ {
        match quality_of(value) {
            Some(quality) => SettingsView { quality, ..s },
            None => s,
        }
    } else if key == "custom_width"@ {
        match number(value, u32::MAX as nat) {
            Some(n) => SettingsView { custom_width: dimension(n as u32), ..s },
            None => s,
        }
    } else if key == "custom_height"@ {
        match number(value, u32::MAX as nat) {
            Some(n) => SettingsView { custom_height: dimension(n as u32), ..s },
            None => s,
        }
    } else if key == "fps"@ {
        match number(value, u32::MAX as nat) {
            Some(n) => SettingsView { fps: clamped(n as int, 1, 60) as u32, ..s },
            None => s,
        }
    } else if key == "system_audio"@ {
        match switch_of(value) {
            Some(on) => SettingsView { system_audio: on, ..s },
            None => s,
        }
    } else if key == "microphone"@ {
        match switch_of(value) {
            Some(on) => SettingsView { microphone: on, ..s },
            None => s,
        }
    } else if key == "mic_volume"@ {
        match number(value, u32::MAX as nat) {
            Some(n) => SettingsView { mic_volume: clamped(n as int, 0, 100) as u8, ..s },
            None => s,
        }
    } else if key == "auto_discovery"@ {
        match switch_of(value) {
            Some(on) => SettingsView { auto_discovery: on, ..s },
            None => s,
        }
    } else if key == "film_mode"@ {
        match switch_of(value) {
            Some(on) => SettingsView { film_mode: on, ..s },
            None => s,
        }
    } else if key == "device_name"@ {
        SettingsView { device_name: value, ..s }
    } else if key == "port"@ {
        match number(value, u16::MAX as nat) {
            Some(n) => SettingsView { port: n as u16, ..s },
            None => s,
        }
    } else {
        s
    }
}

/// Settings after one line: a blank line, a comment and a line without `=`
/// change nothing.
pub open spec fn with_line(s: SettingsView, line: Seq<char>) -> SettingsView {
    let text = trimmed(line);
    if text.len() == 0 || text[0] == '#' {
        s
    } else {
        match halves(text, '=') {
            Some((key, value)) => with_entry(s, trimmed(key), trimmed(value)),
            None => s,
        }
    }
}

/// Settings after some lines, in order.
pub open spec fn with_lines(s: SettingsView, lines: Seq<Seq<char>>) -> SettingsView
    decreases lines.len(),
{
    if lines.len() == 0 {
        s
    } else {
        with_lines(with_line(s, lines[0]), lines.skip(1))
    }
}

/// What a file says: the defaults, changed line by line.
pub open spec fn read_from(text: Seq<char>) -> SettingsView {
    with_lines(default_settings(), lines(text))
}

/// Appends entry number `i` of `all` to what holds the ones before it.
fn push_entry(
    out: &mut String,
    key: &str,
    value: &str,
    Ghost(start): Ghost<Seq<char>>,
    Ghost(all): Ghost<Seq<(Seq<char>, Seq<char>)>>,
    Ghost(i): Ghost<int>,
)
    requires
        0 <= i < all.len(),
        all[i] == (key@, value@),
        old(out)@ == start + written(all.take(i)),
    ensures
        final(out)@ == start + written(all.take(i + 1)),
{
    out.append(key);
    out.push(' ');
    out.push('=');
    out.push(' ');
    out.append(value);
    out.push('\n');
    proof {
        assert(all.take(i + 1).drop_last() =~= all.take(i));
        assert(out@ =~= start + (written(all.take(i)) + entry_line(key@, value@) + seq!['\n']));
    }
}

fn switch_text(on: bool) -> (res: &'static str)
    ensures
        res@ == switch_key(on),
{
    if on {
        "true"
    } else {
        "false"
    }
}

fn read_switch(value: &[char]) -> (res: Option<bool>)
    ensures
        res == switch_of(value@),
{
    if is_text(value, "true") {
        Some(true)
    } else if is_text(value, "false") {
        Some(false)
    } else {
        None
    }
}

fn one_line(name: &str) -> (res: String)
    ensures
        res@ == on_one_line(name@),
{
    let chars = chars_of(name);
    let mut res = String::new();
    let mut i: usize = 0;
    while i < chars.len()
        invariant
            i <= chars@.len(),
            chars@ == name@,
            res@ == on_one_line(name@).take(i as int),
        decreases chars@.len() - i,
    {
        let c = chars[i];
        let ghost before = res@;
        if c == '\n' || c == '\r' {
            res.push(' ');
        } else {
            res.push(c);
        }
        assert(res@ =~= on_one_line(name@).take(i + 1));
        i += 1;
    }
    assert(on_one_line(name@).take(i as int) =~= on_one_line(name@));
    res
}

impl Settings {
    /// The cap put on the picture that is sent.
    pub fn resolution_limit(&self) -> (res: (u32, u32))
        ensures
            res == cap(self@),
    {
        if self.quality == Quality::Custom {
            (valid_dimension(self.custom_width), valid_dimension(self.custom_height))
        } else {
            self.quality.resolution()
        }
    }

    /// The name to show on the receiver: what was configured, or the host name
    /// as the system has it.
    pub fn display_name(&self, hostname: Option<&str>) -> (res: String)
        ensures
            res@ == shown_name(
                self.device_name@,
                match hostname {
                    Some(host) => Some(host@),
                    None => None,
                },
            ),
    {
        let name = chars_of(self.device_name.as_str());
        let configured = trim(name.as_slice());
        if configured.len() > 0 {
            return string_of(configured);
        }
        if let Some(host) = hostname {
            let chars = chars_of(host);
            let known = trim(chars.as_slice());
            if known.len() > 0 {
                return string_of(known);
            }
        }
        copied("BigNetScreen")
    }

    /// The text of the file for these settings.
    pub fn to_file(&self) -> (res: String)
        ensures
            res@ == file_text(self@),
    {
        let ghost all = entries(self@);
        let mut out = copied(
            "# BigNetScreen settings. Edited by the application; safe to edit by hand.",
        );
        out.push('\n');
        let ghost start = out@;
        assert(start =~= file_comment() + seq!['\n']);
        assert(out@ =~= start + written(all.take(0)));
        push_entry(&mut out, "protocol", self.protocol.as_key(), Ghost(start), Ghost(all), Ghost(0));
        push_entry(&mut out, "quality", self.quality.as_key(), Ghost(start), Ghost(all), Ghost(1));
        let text = number_text(valid_dimension(self.custom_width) as u64);
        push_entry(&mut out, "custom_width", text.as_str(), Ghost(start), Ghost(all), Ghost(2));
        let text = number_text(valid_dimension(self.custom_height) as u64);
        push_entry(&mut out, "custom_height", text.as_str(), Ghost(start), Ghost(all), Ghost(3));
        let text = number_text(self.fps as u64);
        push_entry(&mut out, "fps", text.as_str(), Ghost(start), Ghost(all), Ghost(4));
        push_entry(&mut out, "system_audio", switch_text(self.system_audio), Ghost(start), Ghost(all), Ghost(5));
        push_entry(&mut out, "microphone", switch_text(self.microphone), Ghost(start), Ghost(all), Ghost(6));
        let text = number_text(self.mic_volume as u64);
        push_entry(&mut out, "mic_volume", text.as_str(), Ghost(start), Ghost(all), Ghost(7));
        push_entry(&mut out, "auto_discovery", switch_text(self.auto_discovery), Ghost(start), Ghost(all), Ghost(8));
        push_entry(&mut out, "film_mode", switch_text(self.film_mode), Ghost(start), Ghost(all), Ghost(9));
        let text = one_line(self.device_name.as_str());
        push_entry(&mut out, "device_name", text.as_str(), Ghost(start), Ghost(all), Ghost(10));
        let text = number_text(self.port as u64);
        push_entry(&mut out, "port", text.as_str(), Ghost(start), Ghost(all), Ghost(11));
        assert(all.take(12) =~= all);
        out
    }

    fn apply_entry(&mut self, key: &[char], value: &[char])
        ensures
            final(self)@ == with_entry(old(self)@, key@, value@),
    {
        if is_text(key, "protocol") {
            if let Some(protocol) = Protocol::read(value) {
                self.protocol = protocol;
            }
        } else if is_text(key, "quality") {
            if let Some(quality) = Quality::read(value) {
                self.quality = quality;
            }
        } else if is_text(key, "custom_width") {
            if let Some(n) = parse_number(value, u32::MAX as u64) {
                self.custom_width = valid_dimension(n as u32);
            }
        } else if is_text(key, "custom_height") {
            if let Some(n) = parse_number(value, u32::MAX as u64) {
                self.custom_height = valid_dimension(n as u32);
            }
        } else if is_text(key, "fps") {
            if let Some(n) = parse_number(value, u32::MAX as u64) {
                self.fps = if n < 1 {
                    1
                } else if n > 60 {
                    60
                } else {
                    n as u32
                };
            }
        } else if is_text(key, "system_audio") {
            if let Some(on) = read_switch(value) {
                self.system_audio = on;
            }
        } else if is_text(key, "microphone") {
            if let Some(on) = read_switch(value) {
                self.microphone = on;
            }
        } else if is_text(key, "mic_volume") {
            // Read wide and then clamped: as a byte, 150 would be accepted and
            // clamped while 900 was rejected and silently kept the default.
            if let Some(n) = parse_number(value, u32::MAX as u64) {
                self.mic_volume = if n > 100 { 100 } else { n as u8 };
            }
        } else if is_text(key, "auto_discovery") {
            if let Some(on) = read_switch(value) {
                self.auto_discovery = on;
            }
        } else if is_text(key, "film_mode") {
            if let Some(on) = read_switch(value) {
                self.film_mode = on;
            }
        } else if is_text(key, "device_name") {
            self.device_name = string_of(value);
        } else if is_text(key, "port") {
            if let Some(n) = parse_number(value, u16::MAX as u64) {
                self.port = n as u16;
            }
        }
    }

    fn apply_line(&mut self, line: &[char])
        ensures
            final(self)@ == with_line(old(self)@, line@),
    {
        let text = trim(line);
        if text.len() == 0 || text[0] == '#' {
            return;
        }
        if let Some((key, value)) = split_once(text, '=') {
            self.apply_entry(trim(key), trim(value));
        }
    }

    /// Reads what it recognises and keeps the default for the rest.
    ///
    /// A key it does not know, or a value it cannot parse, is ignored rather
    /// than fatal: a file from a newer version, or one edited by hand with a
    /// typo, must not stop the application from starting.
    pub fn from_file(text: &str) -> (res: Self)
        ensures
            res@ == read_from(text@),
    {
        let mut settings = Settings::default();
        let chars = chars_of(text);
        let mut rest = chars.as_slice();
        loop
            invariant
                read_from(text@) == with_lines(settings@, lines(rest@)),
            ensures
                read_from(text@) == settings@,
            decreases rest@.len(),
        {
            match next_line(rest) {
                Some((line, after)) => {
                    let ghost all = lines(rest@);
                    assert(all.skip(1) =~= lines(after@));
                    settings.apply_line(line);
                    rest = after;
                },
                None => {
                    break;
                },
            }
        }
        settings
    }
}

/// A key that a line can begin with: a word with no `=` in it that is no comment.
spec fn plain_key(key: Seq<char>) -> bool {
    &&& key.len() > 0
    &&& key[0] != '#'
    &&& forall|i: int| 0 <= i < key.len() ==> !is_space(#[trigger] key[i]) && key[i] != '='
}

proof fn line_of_entry(s: SettingsView, key: Seq<char>, value: Seq<char>)
    requires
        plain_key(key),
    ensures
        with_line(s, entry_line(key, value)) == with_entry(s, key, trimmed(value)),
{
    let mid = seq![' ', '=', ' '];
    let line = entry_line(key, value);
    assert(line[0] == key[0]);
    assert(!is_space(key[0]));
    trim_end_of_concatenation(key + mid, value);
    let before = key + seq![' '];
    assert(before[0] == key[0]);
    assert(before.drop_last() =~= key);
    assert(!is_space(key.last()));
    assert(trimmed(before) == trim_end(key));
    assert(trim_end(key) == key);
    if trim_end(value).len() > 0 {
        let text = key + mid + trim_end(value);
        assert(trimmed(line) == text);
        assert(text[key.len() as int + 1] == '=');
        first_index_unique(text, '=', key.len() as int + 1);
        assert(text.take(key.len() as int + 1) =~= before);
        assert(text.skip(key.len() as int + 2) =~= seq![' '] + trim_end(value));
        trimmed_after_space(' ', value);
    } else {
        let text = key + seq![' ', '='];
        assert((key + mid).drop_last() =~= text);
        assert(text.last() == '=');
        assert(trim_end(text) == text);
        assert(trimmed(line) == text);
        first_index_unique(text, '=', key.len() as int + 1);
        assert(text.take(key.len() as int + 1) =~= before);
        assert(text.skip(key.len() as int + 2) =~= Seq::<char>::empty());
        trimmed_after_space(' ', value);
        assert(seq![' '].drop_last() =~= Seq::<char>::empty());
        assert(seq![' '] + trim_end(value) =~= seq![' ']);
        assert(seq![' '].skip(1) =~= Seq::<char>::empty());
        assert(trimmed(value) =~= Seq::<char>::empty());
    }
}

/// Entries of a file that each stand on one line of their own.
spec fn well_written(all: Seq<(Seq<char>, Seq<char>)>) -> bool {
    forall|i: int| 0 <= i < all.len() ==> plain_entry(#[trigger] all[i])
}

spec fn plain_entry(entry: (Seq<char>, Seq<char>)) -> bool {
    &&& plain_key(entry.0)
    &&& forall|j: int|
        0 <= j < entry.1.len() ==> #[trigger] entry.1[j] != '\n' && entry.1[j] != '\r'
}

/// Settings after some entries, in order.
spec fn with_entries(s: SettingsView, all: Seq<(Seq<char>, Seq<char>)>) -> SettingsView
    decreases all.len(),
{
    if all.len() == 0 {
        s
    } else {
        with_entries(with_entry(s, all[0].0, trimmed(all[0].1)), all.skip(1))
    }
}

proof fn written_from_front(all: Seq<(Seq<char>, Seq<char>)>)
    requires
        all.len() > 0,
    ensures
        written(all) == entry_line(all[0].0, all[0].1) + seq!['\n'] + written(all.skip(1)),
    decreases all.len(),
{
    if all.len() > 1 {
        written_from_front(all.drop_last());
        assert(all.drop_last().skip(1) =~= all.skip(1).drop_last());
        assert(all.skip(1).last() == all.last());
        assert(written(all) =~= entry_line(all[0].0, all[0].1) + seq!['\n'] + written(
            all.skip(1),
        ));
    } else {
        assert(written(all.drop_last()) =~= Seq::<char>::empty());
        assert(written(all.skip(1)) =~= Seq::<char>::empty());
        assert(written(all) =~= entry_line(all[0].0, all[0].1) + seq!['\n'] + written(
            all.skip(1),
        ));
    }
}

proof fn reading_written_entries(s: SettingsView, all: Seq<(Seq<char>, Seq<char>)>)
    requires
        well_written(all),
    ensures
        with_lines(s, lines(written(all))) == with_entries(s, all),
    decreases all.len(),
{
    if all.len() > 0 {
        let key = all[0].0;
        let value = all[0].1;
        let line = entry_line(key, value);
        assert(plain_entry(all[0]));
        written_from_front(all);
        assert forall|i: int| 0 <= i < line.len() implies line[i] != '\n' by {
            if i < key.len() {
                assert(!is_space(key[i]));
            } else if i >= key.len() + 3 {
                assert(value[i - key.len() - 3] != '\n');
            }
        }
        if value.len() > 0 {
            assert(line.last() == value.last());
        } else {
            assert(line.last() == ' ');
        }
        lines_of_line(line, written(all.skip(1)));
        line_of_entry(s, key, value);
        let all_lines = lines(written(all));
        assert(all_lines.skip(1) =~= lines(written(all.skip(1))));
        assert(well_written(all.skip(1)));
        reading_written_entries(with_entry(s, key, trimmed(value)), all.skip(1));
    }
}

proof fn keys_are_plain()
    ensures
        plain_key("protocol"@),
        plain_key("quality"@),
        plain_key("custom_width"@),
        plain_key("custom_height"@),
        plain_key("fps"@),
        plain_key("system_audio"@),
        plain_key("microphone"@),
        plain_key("mic_volume"@),
        plain_key("auto_discovery"@),
        plain_key("film_mode"@),
        plain_key("device_name"@),
        plain_key("port"@),
{
    reveal_strlit("protocol");
    reveal_strlit("quality");
    reveal_strlit("custom_width");
    reveal_strlit("custom_height");
    reveal_strlit("fps");
    reveal_strlit("system_audio");
    reveal_strlit("microphone");
    reveal_strlit("mic_volume");
    reveal_strlit("auto_discovery");
    reveal_strlit("film_mode");
    reveal_strlit("device_name");
    reveal_strlit("port");
}

/// A word: not empty, and no whitespace in it.
spec fn is_word(s: Seq<char>) -> bool {
    s.len() > 0 && forall|i: int| 0 <= i < s.len() ==> !is_space(#[trigger] s[i])
}

proof fn word_is_trimmed(s: Seq<char>)
    requires
        is_word(s),
    ensures
        trimmed(s) == s,
        forall|j: int| 0 <= j < s.len() ==> #[trigger] s[j] != '\n' && s[j] != '\r',
{
    assert(!is_space(s[0]) && !is_space(s.last()));
    trimmed_already(s);
    assert forall|j: int| 0 <= j < s.len() implies #[trigger] s[j] != '\n' && s[j] != '\r' by {
        assert(!is_space(s[j]));
    }
}

proof fn decimal_is_word(n: nat)
    ensures
        is_word(decimal(n)),
{
    decimal_reads_back(n, n);
    assert forall|i: int| 0 <= i < decimal(n).len() implies !is_space(
        #[trigger] decimal(n)[i],
    ) by {
        assert(is_digit(decimal(n)[i]));
    }
}

proof fn protocol_reads_back(protocol: Protocol)
    ensures
        is_word(protocol_key(protocol)),
        protocol_of(protocol_key(protocol)) == Some(protocol),
{
    reveal_strlit("auto");
    reveal_strlit("miracast");
    reveal_strlit("cast");
    assert("miracast"@[0] != "auto"@[0]);
    assert("cast"@[0] != "auto"@[0]);
    assert("cast"@.len() != "miracast"@.len());
}

/// Every quality survives the file: the word written for it reads back as it.
pub proof fn quality_reads_back(quality: Quality)
    ensures
        quality_of(quality_key(quality)) == Some(quality),
{
    reveal_strlit("max");
    reveal_strlit("ultra");
    reveal_strlit("high");
    reveal_strlit("medium");
    reveal_strlit("low");
    reveal_strlit("900p");
    reveal_strlit("800p");
    reveal_strlit("1200p");
    reveal_strlit("1600p");
    reveal_strlit("ultrawide");
    reveal_strlit("custom");
    assert("max"@.len() == 3 && "low"@.len() == 3 && "low"@[0] != "max"@[0]);
    assert("high"@.len() == 4 && "900p"@.len() == 4 && "800p"@.len() == 4);
    assert("900p"@[0] != "high"@[0] && "800p"@[0] != "high"@[0] && "800p"@[0] != "900p"@[0]);
    assert("ultra"@.len() == 5 && "1200p"@.len() == 5 && "1600p"@.len() == 5);
    assert("1200p"@[0] != "ultra"@[0] && "1600p"@[0] != "ultra"@[0] && "1200p"@[1] != "1600p"@[1]);
    assert("medium"@.len() == 6 && "custom"@.len() == 6 && "custom"@[0] != "medium"@[0]);
    assert("ultrawide"@.len() == 9);
}

proof fn quality_key_is_word(quality: Quality)
    ensures
        is_word(quality_key(quality)),
{
    reveal_strlit("max");
    reveal_strlit("ultra");
    reveal_strlit("high");
    reveal_strlit("medium");
    reveal_strlit("low");
    reveal_strlit("900p");
    reveal_strlit("800p");
    reveal_strlit("1200p");
    reveal_strlit("1600p");
    reveal_strlit("ultrawide");
    reveal_strlit("custom");
}

proof fn switch_reads_back(on: bool)
    ensures
        is_word(switch_key(on)),
        switch_of(switch_key(on)) == Some(on),
{
    reveal_strlit("true");
    reveal_strlit("false");
    assert("true"@.len() != "false"@.len());
}

proof fn keys_differ()
    ensures
        "protocol"@.len() == 8,
        "quality"@.len() == 7,
        "custom_width"@.len() == 12,
        "custom_height"@.len() == 13,
        "fps"@.len() == 3,
        "system_audio"@.len() == 12,
        "microphone"@.len() == 10,
        "mic_volume"@.len() == 10,
        "auto_discovery"@.len() == 14,
        "film_mode"@.len() == 9,
        "device_name"@.len() == 11,
        "port"@.len() == 4,
        "custom_width"@[0] != "system_audio"@[0],
        "microphone"@[3] != "mic_volume"@[3],
{
    reveal_strlit("protocol");
    reveal_strlit("quality");
    reveal_strlit("custom_width");
    reveal_strlit("custom_height");
    reveal_strlit("fps");
    reveal_strlit("system_audio");
    reveal_strlit("microphone");
    reveal_strlit("mic_volume");
    reveal_strlit("auto_discovery");
    reveal_strlit("film_mode");
    reveal_strlit("device_name");
    reveal_strlit("port");
}

/// What remains of some settings once they have been written and read.
pub open spec fn normalized(s: SettingsView) -> SettingsView {
    SettingsView {
        custom_width: dimension(s.custom_width),
        custom_height: dimension(s.custom_height),
        fps: clamped(s.fps as int, 1, 60) as u32,
        mic_volume: clamped(s.mic_volume as int, 0, 100) as u8,
        device_name: trimmed(on_one_line(s.device_name)),
        ..s
    }
}

proof fn entries_are_well_written(s: SettingsView)
    ensures
        well_written(entries(s)),
{
    keys_are_plain();
    protocol_reads_back(s.protocol);
    word_is_trimmed(protocol_key(s.protocol));
    quality_key_is_word(s.quality);
    word_is_trimmed(quality_key(s.quality));
    decimal_is_word(dimension(s.custom_width) as nat);
    word_is_trimmed(decimal(dimension(s.custom_width) as nat));
    decimal_is_word(dimension(s.custom_height) as nat);
    word_is_trimmed(decimal(dimension(s.custom_height) as nat));
    decimal_is_word(s.fps as nat);
    word_is_trimmed(decimal(s.fps as nat));
    switch_reads_back(s.system_audio);
    word_is_trimmed(switch_key(s.system_audio));
    switch_reads_back(s.microphone);
    word_is_trimmed(switch_key(s.microphone));
    decimal_is_word(s.mic_volume as nat);
    word_is_trimmed(decimal(s.mic_volume as nat));
    switch_reads_back(s.auto_discovery);
    word_is_trimmed(switch_key(s.auto_discovery));
    switch_reads_back(s.film_mode);
    word_is_trimmed(switch_key(s.film_mode));
    decimal_is_word(s.port as nat);
    word_is_trimmed(decimal(s.port as nat));
}

proof fn entries_step(s: SettingsView, all: Seq<(Seq<char>, Seq<char>)>, i: int)
    requires
        0 <= i < all.len(),
    ensures
        with_entries(s, all.skip(i)) == with_entries(
            with_entry(s, all[i].0, trimmed(all[i].1)),
            all.skip(i + 1),
        ),
{
    assert(all.skip(i).skip(1) =~= all.skip(i + 1));
}

#[verifier::spinoff_prover]
#[verifier::rlimit(60)]
proof fn each_entry_sets_its_field(s: SettingsView)
    ensures
        with_entries(default_settings(), entries(s)) == normalized(s),
{
    let all = entries(s);
    let d = default_settings();
    keys_differ();
    protocol_reads_back(s.protocol);
    word_is_trimmed(protocol_key(s.protocol));
    quality_reads_back(s.quality);
    quality_key_is_word(s.quality);
    word_is_trimmed(quality_key(s.quality));
    number_entry_reads_back(dimension(s.custom_width) as nat, u32::MAX as nat);
    number_entry_reads_back(dimension(s.custom_height) as nat, u32::MAX as nat);
    number_entry_reads_back(s.fps as nat, u32::MAX as nat);
    number_entry_reads_back(s.mic_volume as nat, u32::MAX as nat);
    number_entry_reads_back(s.port as nat, u16::MAX as nat);
    switch_reads_back(s.system_audio);
    word_is_trimmed(switch_key(s.system_audio));
    switch_reads_back(s.microphone);
    word_is_trimmed(switch_key(s.microphone));
    switch_reads_back(s.auto_discovery);
    word_is_trimmed(switch_key(s.auto_discovery));
    switch_reads_back(s.film_mode);
    word_is_trimmed(switch_key(s.film_mode));
    let s0 = d;
    let s1 = SettingsView { protocol: s.protocol, ..s0 };
    let s2 = SettingsView { quality: s.quality, ..s1 };
    let s3 = SettingsView { custom_width: dimension(s.custom_width), ..s2 };
    let s4 = SettingsView { custom_height: dimension(s.custom_height), ..s3 };
    let s5 = SettingsView { fps: clamped(s.fps as int, 1, 60) as u32, ..s4 };
    let s6 = SettingsView { system_audio: s.system_audio, ..s5 };
    let s7 = SettingsView { microphone: s.microphone, ..s6 };
    let s8 = SettingsView { mic_volume: clamped(s.mic_volume as int, 0, 100) as u8, ..s7 };
    let s9 = SettingsView { auto_discovery: s.auto_discovery, ..s8 };
    let s10 = SettingsView { film_mode: s.film_mode, ..s9 };
    let s11 = SettingsView { device_name: trimmed(on_one_line(s.device_name)), ..s10 };
    let s12 = SettingsView { port: s.port, ..s11 };
    assert(all.skip(0) =~= all);
    entries_step(s0, all, 0);
    entries_step(s1, all, 1);
    entries_step(s2, all, 2);
    entries_step(s3, all, 3);
    entries_step(s4, all, 4);
    entries_step(s5, all, 5);
    entries_step(s6, all, 6);
    entries_step(s7, all, 7);
    entries_step(s8, all, 8);
    entries_step(s9, all, 9);
    entries_step(s10, all, 10);
    entries_step(s11, all, 11);
    assert(s12 == normalized(s));
}

/// What is written is what is read: a file written from any settings reads back
/// as those settings, up to what no file can hold. The sides are made even and
/// bounded, the rate and the gain are bounded, and the name is one line without
/// whitespace around it.
pub proof fn file_round_trip(s: SettingsView)
    ensures
        read_from(file_text(s)) == normalized(s),
{
    let all = entries(s);
    let d = default_settings();
    entries_are_well_written(s);
    // The comment changes nothing.
    let comment = file_comment();
    reveal_strlit("# BigNetScreen settings. Edited by the application; safe to edit by hand.");
    assert(comment.last() == '.');
    lines_of_line(comment, written(all));
    assert(comment[0] == '#');
    trimmed_already(comment);
    assert(with_line(d, comment) == d);
    let all_lines = lines(file_text(s));
    assert(all_lines.skip(1) =~= lines(written(all)));
    assert(read_from(file_text(s)) == with_lines(d, lines(written(all))));
    reading_written_entries(d, all);
    each_entry_sets_its_field(s);
}

proof fn number_entry_reads_back(n: nat, max: nat)
    requires
        n <= max,
    ensures
        number(trimmed(decimal(n)), max) == Some(n),
{
    decimal_is_word(n);
    word_is_trimmed(decimal(n));
    decimal_reads_back(n, max);
}

/// Settings that a file can hold: sides even and bounded, the rate and the gain
/// bounded, the name one line without whitespace around it.
pub open spec fn storable(s: SettingsView) -> bool {
    &&& dimension(s.custom_width) == s.custom_width
    &&& dimension(s.custom_height) == s.custom_height
    &&& 1 <= s.fps <= 60
    &&& s.mic_volume <= 100
    &&& trimmed(on_one_line(s.device_name)) == s.device_name
}

/// What is written is what is read, exactly, for settings that a file can hold.
pub proof fn storable_settings_survive_the_file(s: SettingsView)
    requires
        storable(s),
    ensures
        read_from(file_text(s)) == s,
{
    file_round_trip(s);
}

/// Whatever a file says, the rate asked of the encoder is 1 to 60, the gain at
/// most 100, a custom side even and bounded, and the name trimmed.
pub proof fn no_file_is_absurd(text: Seq<char>)
    ensures
        1 <= read_from(text).fps <= 60,
        read_from(text).mic_volume <= 100,
        dimension(read_from(text).custom_width) == read_from(text).custom_width,
        dimension(read_from(text).custom_height) == read_from(text).custom_height,
        trimmed(read_from(text).device_name) == read_from(text).device_name,
{
    lines_keep_bounds(default_settings(), lines(text));
}

proof fn lines_keep_bounds(s: SettingsView, all: Seq<Seq<char>>)
    requires
        1 <= s.fps <= 60,
        s.mic_volume <= 100,
        dimension(s.custom_width) == s.custom_width,
        dimension(s.custom_height) == s.custom_height,
        trimmed(s.device_name) == s.device_name,
    ensures
        ({
            let r = with_lines(s, all);
            &&& 1 <= r.fps <= 60
            &&& r.mic_volume <= 100
            &&& dimension(r.custom_width) == r.custom_width
            &&& dimension(r.custom_height) == r.custom_height
            &&& trimmed(r.device_name) == r.device_name
        }),
    decreases all.len(),
{
    if all.len() > 0 {
        if let Some((key, value)) = halves(trimmed(all[0]), '=') {
            trimming_is_idempotent(value);
        }
        lines_keep_bounds(with_line(s, all[0]), all.skip(1));
    }
}

/// Whether an entry can be read: its key is known, and its value is one that the
/// key takes.
pub open spec fn can_be_read(key: Seq<char>, value: Seq<char>) -> bool {
    if key == "protocol"@ {
        protocol_of(value) is Some
    } else if key == "quality"@ {
        quality_of(value) is Some
    } else if key == "custom_width"@ || key == "custom_height"@ || key == "fps"@ || key
        == "mic_volume"@ {
        number(value, u32::MAX as nat) is Some
    } else if key == "system_audio"@ || key == "microphone"@ || key == "auto_discovery"@ || key
        == "film_mode"@ {
        switch_of(value) is Some
    } else if key == "port"@ {
        number(value, u16::MAX as nat) is Some
    } else {
        key == "device_name"@
    }
}

/// Whether a line sets anything: it is neither blank nor a comment, and holds an
/// entry that can be read.
pub open spec fn sets_something(line: Seq<char>) -> bool {
    let text = trimmed(line);
    &&& text.len() > 0
    &&& text[0] != '#'
    &&& halves(text, '=') matches Some((key, value)) && can_be_read(trimmed(key), trimmed(value))
}

/// A blank line, a comment, a line without `=`, one with an unknown key or with a
/// value that cannot be read changes nothing, wherever it stands in the file: the
/// file reads as it would without that line.
pub proof fn what_cannot_be_read_is_ignored(before: Seq<char>, line: Seq<char>, after: Seq<char>)
    requires
        before.len() > 0 ==> before.last() == '\n',
        forall|i: int| 0 <= i < line.len() ==> line[i] != '\n',
        !sets_something(line),
    ensures
        read_from(before + line + seq!['\n'] + after) == read_from(before + after),
        read_from(before + line) == read_from(before),
{
    let d = default_settings();
    let so_far = with_lines(d, lines(before));
    let rest = line + seq!['\n'] + after;
    assert(before + line + seq!['\n'] + after =~= before + rest);
    lines_of_concatenation(before, rest);
    lines_of_concatenation(before, after);
    lines_of_concatenation(before, line);
    lines_in_turn(d, lines(before), lines(rest));
    lines_in_turn(d, lines(before), lines(after));
    lines_in_turn(d, lines(before), lines(line));
    // A carriage return at the end is whitespace to the line.
    trimmed_without_cr(line);
    ignored_line(so_far, line);
    ignored_line(so_far, without_cr(line));
    lines_of_line(line, after);
    assert(lines(rest).skip(1) =~= lines(after));
    assert(with_lines(so_far, lines(rest)) == with_lines(so_far, lines(after)));
    if line.len() > 0 {
        first_index_is_first(line, '\n');
        assert(lines(Seq::<char>::empty()) =~= Seq::empty());
        assert(first_line(line) == (line, Seq::<char>::empty()));
        assert(lines(line) =~= seq![line]);
        assert(lines(line).skip(1) =~= Seq::empty());
        assert(with_lines(so_far, lines(line)) == with_lines(
            with_line(so_far, line),
            Seq::empty(),
        ));
    }
}

proof fn ignored_line(s: SettingsView, line: Seq<char>)
    requires
        !sets_something(line),
    ensures
        with_line(s, line) == s,
{
    keys_differ();
}

proof fn lines_in_turn(s: SettingsView, a: Seq<Seq<char>>, b: Seq<Seq<char>>)
    ensures
        with_lines(s, a + b) == with_lines(with_lines(s, a), b),
    decreases a.len(),
{
    if a.len() == 0 {
        assert(a + b =~= b);
    } else {
        assert((a + b).skip(1) =~= a.skip(1) + b);
        lines_in_turn(with_line(s, a[0]), a.skip(1), b);
    }
}

proof fn trimmed_without_cr(line: Seq<char>)
    ensures
        trimmed(without_cr(line)) == trimmed(line),
{
    if line.len() > 0 && line.last() == '\r' {
        trimming_commutes(line);
        trimming_commutes(line.drop_last());
        assert(without_cr(line) =~= line.drop_last());
    }
}

/// Every step of the ladder is smaller than the one above it, on both sides.
pub proof fn every_step_is_smaller()
    ensures
        ({
            let ladder = seq![
                Quality::Max,
                Quality::Ultra,
                Quality::High,
                Quality::Medium,
                Quality::Low,
            ];
            forall|i: int, j: int|
                0 <= i < j < ladder.len() ==> quality_cap(#[trigger] ladder[j]).0 < quality_cap(
                    #[trigger] ladder[i],
                ).0 && quality_cap(ladder[j]).1 < quality_cap(ladder[i]).1
        }),
{
}

/// A receiver is never shown an empty name.
pub proof fn a_name_is_never_empty(device_name: Seq<char>, hostname: Option<Seq<char>>)
    ensures
        shown_name(device_name, hostname).len() > 0,
{
    reveal_strlit("BigNetScreen");
}

/// Where the settings file lives: in the user's configuration directory.
pub open spec fn settings_path(config_home: Option<Seq<char>>, home: Option<Seq<char>>) -> Option<
    Seq<char>,
> {
    match config_home {
        Some(base) => Some(joined(joined(base, "bignetscreen"@), "settings.conf"@)),
        None => match home {
            Some(home) => Some(
                joined(joined(joined(home, ".config"@), "bignetscreen"@), "settings.conf"@),
            ),
            None => None,
        },
    }
}

/// Where the settings file lives, by the values of `XDG_CONFIG_HOME` and `HOME`.
pub fn path(config_home: Option<&str>, home: Option<&str>) -> (res: Option<String>)
    ensures
        text_of(res) == settings_path(content(config_home), content(home)),
{
    let base = match config_home {
        Some(base) => copied(base),
        None => match home {
            Some(home) => join(home, ".config"),
            None => {
                return None;
            },
        },
    };
    let dir = join(base.as_str(), "bignetscreen");
    Some(join(dir.as_str(), "settings.conf"))
}

/// The settings in force for the whole process, once something has read or set
/// them. Whoever runs the process holds the one value of it.
#[derive(Debug)]
pub struct SettingsStore {
    pub in_force: Option<Settings>,
}

impl SettingsStore {
    /// What a process starts with: nothing read yet.
    pub fn new() -> (res: Self)
        ensures
            res.in_force is None,
    {
        SettingsStore { in_force: None }
    }
}

/// The latency profile that goes with some settings.
pub open spec fn profile_for(film_mode: bool) -> Profile {
    if film_mode {
        Profile::Film
    } else {
        Profile::Responsive
    }
}

fn profile_of(film_mode: bool) -> (res: Profile)
    ensures
        res == profile_for(film_mode),
{
    if film_mode {
        Profile::Film
    } else {
        Profile::Responsive
    }
}

/// The settings in force. The first call takes what the file holds, where there
/// is one, and brings the latency profile in step with it; later calls leave
/// both alone.
pub fn current(store: &mut SettingsStore, latency: &mut Latency, file: Option<&str>) -> (res:
    Settings)
    ensures
        final(store).in_force is Some,
        final(store).in_force->0@ == res@,
        match old(store).in_force {
            Some(known) => res@ == known@ && *final(latency) == *old(latency),
            None => res@ == (match file {
                Some(text) => read_from(text@),
                None => default_settings(),
            }) && final(latency).profile == profile_for(res@.film_mode),
        },
{
    if let Some(known) = &store.in_force {
        return known.clone();
    }
    let loaded = match file {
        Some(text) => Settings::from_file(text),
        None => Settings::default(),
    };
    crate::latency::set(latency, profile_of(loaded.film_mode));
    store.in_force = Some(loaded.clone());
    loaded
}

/// Applies new settings to the running process without touching the disk.
///
/// For callers that write on their own schedule: the preferences page coalesces
/// a slider's stream of values into one write. [`set`] gives the text as well.
pub fn set_in_memory(store: &mut SettingsStore, latency: &mut Latency, settings: &Settings)
    ensures
        final(store).in_force is Some,
        final(store).in_force->0@ == settings@,
        final(latency).profile == profile_for(settings@.film_mode),
{
    crate::latency::set(latency, profile_of(settings.film_mode));
    store.in_force = Some(settings.clone());
}

/// Applies new settings and returns the text to write to disk.
///
/// Failing to write is survivable: the session in front of the person keeps the
/// settings they just chose.
pub fn set(store: &mut SettingsStore, latency: &mut Latency, settings: Settings) -> (text: String)
    ensures
        final(store).in_force is Some,
        final(store).in_force->0@ == settings@,
        final(latency).profile == profile_for(settings@.film_mode),
        text@ == file_text(settings@),
{
    set_in_memory(store, latency, &settings);
    settings.to_file()
}

/// Resets everything to the defaults, and returns the text to write to disk.
pub fn reset(store: &mut SettingsStore, latency: &mut Latency) -> (text: String)
    ensures
        final(store).in_force is Some,
        final(store).in_force->0@ == default_settings(),
        final(latency).profile == Profile::Responsive,
        text@ == file_text(default_settings()),
{
    set(store, latency, Settings::default())
}

/// A number written after its key sets that key's field alone: the rate within 1
/// to 60, the gain up to 100, a side of the picture within 160 to 7680 and even,
/// and a port as it is.
pub proof fn a_number_sets_its_own_field(s: SettingsView, n: u32, port: u16)
    ensures
        ({
            let side = if n < 160 {
                160
            } else if n > 7680 {
                7680
            } else {
                (n - n % 2) as u32
            };
            &&& with_line(s, entry_line("fps"@, decimal(n as nat))) == (SettingsView {
                fps: if n < 1 {
                    1
                } else if n > 60 {
                    60
                } else {
                    n
                },
                ..s
            })
            &&& with_line(s, entry_line("mic_volume"@, decimal(n as nat))) == (SettingsView {
                mic_volume: if n > 100 {
                    100
                } else {
                    n as u8
                },
                ..s
            })
            &&& with_line(s, entry_line("custom_width"@, decimal(n as nat))) == (SettingsView {
                custom_width: side,
                ..s
            })
            &&& with_line(s, entry_line("custom_height"@, decimal(n as nat))) == (SettingsView {
                custom_height: side,
                ..s
            })
            &&& with_line(s, entry_line("port"@, decimal(port as nat))) == (SettingsView {
                port,
                ..s
            })
        }),
{
    keys_are_plain();
    keys_differ();
    number_entry_reads_back(n as nat, u32::MAX as nat);
    number_entry_reads_back(port as nat, u16::MAX as nat);
    line_of_entry(s, "fps"@, decimal(n as nat));
    line_of_entry(s, "mic_volume"@, decimal(n as nat));
    line_of_entry(s, "custom_width"@, decimal(n as nat));
    line_of_entry(s, "custom_height"@, decimal(n as nat));
    line_of_entry(s, "port"@, decimal(port as nat));
}

/// A switch written after its key sets that key's field alone.
pub proof fn a_switch_sets_its_own_field(s: SettingsView, on: bool)
    ensures
        ({
            let word = if on {
                "true"@
            } else {
                "false"@
            };
            &&& with_line(s, entry_line("system_audio"@, word)) == (SettingsView {
                system_audio: on,
                ..s
            })
            &&& with_line(s, entry_line("microphone"@, word)) == (SettingsView {
                microphone: on,
                ..s
            })
            &&& with_line(s, entry_line("auto_discovery"@, word)) == (SettingsView {
                auto_discovery: on,
                ..s
            })
            &&& with_line(s, entry_line("film_mode"@, word)) == (SettingsView {
                film_mode: on,
                ..s
            })
        }),
{
    keys_are_plain();
    keys_differ();
    switch_reads_back(on);
    let word = switch_key(on);
    word_is_trimmed(word);
    line_of_entry(s, "system_audio"@, word);
    line_of_entry(s, "microphone"@, word);
    line_of_entry(s, "auto_discovery"@, word);
    line_of_entry(s, "film_mode"@, word);
}

/// A name written after its key sets the name alone, without the space around it,
/// and whatever it holds; a protocol's word sets the protocol alone.
pub proof fn a_word_sets_its_own_field(s: SettingsView, name: Seq<char>)
    ensures
        with_line(s, entry_line("device_name"@, name)) == (SettingsView {
            device_name: trimmed(name),
            ..s
        }),
        with_line(s, entry_line("protocol"@, "auto"@)) == (SettingsView {
            protocol: Protocol::Auto,
            ..s
        }),
        with_line(s, entry_line("protocol"@, "miracast"@)) == (SettingsView {
            protocol: Protocol::Miracast,
            ..s
        }),
        with_line(s, entry_line("protocol"@, "cast"@)) == (SettingsView {
            protocol: Protocol::Cast,
            ..s
        }),
{
    keys_are_plain();
    keys_differ();
    line_of_entry(s, "device_name"@, name);
    protocol_reads_back(Protocol::Auto);
    protocol_reads_back(Protocol::Miracast);
    protocol_reads_back(Protocol::Cast);
    word_is_trimmed("auto"@);
    word_is_trimmed("miracast"@);
    word_is_trimmed("cast"@);
    line_of_entry(s, "protocol"@, "auto"@);
    line_of_entry(s, "protocol"@, "miracast"@);
    line_of_entry(s, "protocol"@, "cast"@);
}

/// A quality's word sets the quality alone, and with it the cap that the word
/// stands for.
pub proof fn a_quality_sets_its_cap(s: SettingsView, quality: Quality)
    ensures
        ({
            let after = with_line(s, entry_line("quality"@, quality_key(quality)));
            &&& after == (SettingsView { quality, ..s })
            &&& quality != Quality::Custom ==> cap(after) == quality_cap(quality)
            &&& quality == Quality::Custom ==> cap(after) == (
                dimension(s.custom_width),
                dimension(s.custom_height),
            )
        }),
{
    keys_are_plain();
    keys_differ();
    quality_reads_back(quality);
    quality_key_is_word(quality);
    word_is_trimmed(quality_key(quality));
    line_of_entry(s, "quality"@, quality_key(quality));
}

/// The words for sizes that go by their height say it, the others are the usual
/// ones of their shape; no cap is above 4K, and none has an odd side.
pub proof fn a_cap_is_what_its_word_says(quality: Quality)
    ensures
        ({
            let (width, height) = quality_cap(quality);
            &&& quality == Quality::HdPlus || quality == Quality::Wxga || quality == Quality::Wuxga
                || quality == Quality::Wqxga ==> quality_key(quality) == decimal(height as nat)
                + "p"@
            &&& quality == Quality::Max || quality == Quality::Ultra || quality == Quality::High
                || quality == Quality::Medium || quality == Quality::HdPlus || quality
                == Quality::Custom ==> width * 9 == height * 16
            &&& quality == Quality::Wxga || quality == Quality::Wuxga || quality == Quality::Wqxga
                ==> width * 10 == height * 16
            &&& quality == Quality::Max ==> height == 2160
            &&& quality == Quality::Ultra || quality == Quality::Ultrawide ==> height == 1440
            &&& quality == Quality::High || quality == Quality::Custom ==> height == 1080
            &&& quality == Quality::Medium ==> height == 720
            &&& quality == Quality::Low ==> height == 480 && width == 854
            &&& quality == Quality::Ultrawide ==> width == 3440
            &&& 854 <= width <= 3840 && 480 <= height <= 2160
            &&& width % 2 == 0 && height % 2 == 0
        }),
{
    reveal_strlit("p");
    reveal_strlit("900p");
    reveal_strlit("800p");
    reveal_strlit("1200p");
    reveal_strlit("1600p");
    reveal_with_fuel(decimal, 5);
    assert(decimal(900) =~= seq!['9', '0', '0']);
    assert(decimal(800) =~= seq!['8', '0', '0']);
    assert(decimal(1200) =~= seq!['1', '2', '0', '0']);
    assert(decimal(1600) =~= seq!['1', '6', '0', '0']);
    assert("900p"@ =~= decimal(900) + "p"@);
    assert("800p"@ =~= decimal(800) + "p"@);
    assert("1200p"@ =~= decimal(1200) + "p"@);
    assert("1600p"@ =~= decimal(1600) + "p"@);
}

/// Lines count in order: what a file says is what its last line makes of what the
/// lines before it say, so the last line for a key is the one that holds.
pub proof fn the_last_line_holds(before: Seq<char>, line: Seq<char>)
    requires
        before.len() > 0 ==> before.last() == '\n',
        forall|i: int| 0 <= i < line.len() ==> line[i] != '\n',
    ensures
        read_from(before + line + seq!['\n']) == with_line(read_from(before), line),
        read_from(Seq::empty()) == default_settings(),
{
    let d = default_settings();
    let none = Seq::<char>::empty();
    let rest = line + seq!['\n'] + none;
    assert(before + line + seq!['\n'] =~= before + rest);
    lines_of_concatenation(before, rest);
    lines_in_turn(d, lines(before), lines(rest));
    lines_of_line(line, none);
    assert(lines(none) =~= Seq::empty());
    assert(lines(rest) =~= seq![without_cr(line)]);
    assert(lines(rest).skip(1) =~= Seq::empty());
    trimmed_without_cr(line);
    let so_far = read_from(before);
    assert(with_line(so_far, without_cr(line)) == with_line(so_far, line));
    assert(with_lines(so_far, lines(rest)) == with_lines(
        with_line(so_far, without_cr(line)),
        Seq::empty(),
    ));
}

/// The name shown is the configured one, without the space around it; where that
/// is blank, the host's; and the application's where that is blank too.
pub proof fn the_configured_name_is_shown_first(
    name: Seq<char>,
    host: Seq<char>,
    blank: Seq<char>,
)
    requires
        trimmed(name).len() > 0,
        trimmed(host).len() > 0,
        trimmed(blank).len() == 0,
    ensures
        shown_name(name, Some(host)) == trimmed(name),
        shown_name(name, None) == trimmed(name),
        shown_name(blank, Some(host)) == trimmed(host),
        shown_name(blank, Some(blank)) == "BigNetScreen"@,
        shown_name(blank, None) == "BigNetScreen"@,
{
}

/// The file lies in the application's own directory of the configuration
/// directory, which is the one named for it, else the usual one of the home
/// directory.
pub proof fn the_file_lies_in_the_configuration(base: Seq<char>, home: Option<Seq<char>>)
    requires
        base.len() > 0,
    ensures
        settings_path(Some(base), home) matches Some(path) && path_parts(path).names == path_parts(
            base,
        ).names + seq!["bignetscreen"@, "settings.conf"@] && path_parts(path).rooted == path_parts(
            base,
        ).rooted,
        settings_path(None, Some(base)) matches Some(path) && path_parts(path).names == path_parts(
            base,
        ).names + seq![".config"@, "bignetscreen"@, "settings.conf"@],
        settings_path(None, None) is None,
{
    reveal_strlit("bignetscreen");
    reveal_strlit("settings.conf");
    reveal_strlit(".config");
    let none = Seq::<char>::empty();
    a_slash_parts_names(none, "bignetscreen"@);
    a_slash_parts_names(none, "settings.conf"@);
    a_slash_parts_names(none, ".config"@);
    assert("bignetscreen"@.len() == 12 && "settings.conf"@.len() == 13 && ".config"@.len() == 7);
    let first = joined(base, "bignetscreen"@);
    joining_appends_names(base, "bignetscreen"@);
    joining_appends_names(first, "settings.conf"@);
    assert(first.len() > 0);
    assert(path_parts(joined(first, "settings.conf"@)).names =~= path_parts(base).names + seq![
        "bignetscreen"@,
        "settings.conf"@,
    ]);
    let config = joined(base, ".config"@);
    let second = joined(config, "bignetscreen"@);
    joining_appends_names(base, ".config"@);
    joining_appends_names(config, "bignetscreen"@);
    joining_appends_names(second, "settings.conf"@);
    assert(path_parts(joined(second, "settings.conf"@)).names =~= path_parts(base).names + seq![
        ".config"@,
        "bignetscreen"@,
        "settings.conf"@,
    ]);
}

/// Film mode, and nothing else, asks for buffered playback.
pub proof fn film_mode_asks_for_film(film_mode: bool)
    ensures
        profile_for(film_mode) == Profile::Film <==> film_mode,
{
}

/// A protocol goes by its own word in the file, and no other word stands for one.
pub proof fn a_protocol_goes_by_its_word(word: Seq<char>, protocol: Protocol)
    ensures
        protocol_of(word) == Some(protocol) <==> word == protocol_key(protocol),
        protocol_key(Protocol::Auto) == "auto"@,
        protocol_key(Protocol::Miracast) == "miracast"@,
        protocol_key(Protocol::Cast) == "cast"@,
        protocol_of(word) is Some ==> word == "auto"@ || word == "miracast"@ || word == "cast"@,
{
    reveal_strlit("auto");
    reveal_strlit("miracast");
    reveal_strlit("cast");
    assert("auto"@.len() != "miracast"@.len());
    assert("auto"@[0] != "cast"@[0]);
    assert("cast"@.len() != "miracast"@.len());
}

/// Until something else is chosen, full HD at thirty frames a second goes to
/// whatever receiver is found, with the system's sound and without the microphone,
/// under the machine's own name and on a port that the system picks.
pub proof fn what_holds_until_something_is_chosen()
    ensures
        ({
            let s = default_settings();
            &&& s.protocol == Protocol::Auto
            &&& s.quality == Quality::High
            &&& s.custom_width == 1920 && s.custom_height == 1080
            &&& s.fps == 30
            &&& s.system_audio && !s.microphone
            &&& s.mic_volume == 80
            &&& s.auto_discovery && !s.film_mode
            &&& s.device_name.len() == 0
            &&& s.port == 0
        }),
{
}

} // verus!
