//! Capture through `org.gnome.Mutter.ScreenCast` (native GNOME).
//!
//! It exists for one specific reason: the **virtual monitor**. On most backends
//! the portal only exposes real monitors and windows, and a receiver benefits a
//! great deal from a virtual monitor at exactly the resolution it negotiated.
//!
//! There is no PipeWire descriptor here: the node lives in the session's own
//! PipeWire daemon.
use crate::capture::{CaptureSource, SourceType};
use crate::error::{capture_error, unsupported_error, NdError};
use crate::pipeline::VideoSource;
use crate::text::{copied, copied_option, number_text};
use vstd::prelude::*;

verus! {

use crate::error::ErrorView;
use crate::pipeline::source_text;
use crate::text::{
    decimal, has_part, part_of_first, part_of_itself, part_of_second, part_stands_at,
};

/// How long to wait for the virtual monitor to appear in the display
/// configuration, in seconds. Generous: the monitor only exists once PipeWire has
/// negotiated a size, which happens when the pipeline connects.
pub const VIRTUAL_MONITOR_TIMEOUT_SECS: u64 = 120;

/// How many times to try connecting to the freshly announced virtual stream.
pub const KEEP_ALIVE_ATTEMPTS: u32 = 15;

/// The wait between those attempts, in milliseconds.
pub const KEEP_ALIVE_RETRY_DELAY_MS: u64 = 400;

/// How long to wait for `PipeWireStreamAdded`, in seconds.
pub const STREAM_TIMEOUT_SECS: u64 = 10;

/// The cursor mode in which it is drawn into the video: 0 is hidden, 2 metadata.
pub const CURSOR_MODE_EMBEDDED: u32 = 1;

/// The lowest interface version we know how to speak.
pub const MIN_API_VERSION: i32 = 3;

/// The highest validated version. Above that we prefer the portal: the interface
/// is private to GNOME and may change without notice.
pub const MAX_API_VERSION: i32 = 4;

/// What to record.
#[derive(Debug)]
pub enum Recording {
    /// The monitor on a connector.
    Monitor { connector: String, cursor_mode: u32 },
    /// A new virtual monitor of a size, as part of the desktop.
    Virtual { size: (u32, u32), cursor_mode: u32 },
}

/// How waiting for the PipeWire node ended.
#[derive(Clone, Copy, Debug, PartialEq, Eq, Structural)]
pub enum NodeWait {
    Announced(u32),
    /// The stream closed.
    Closed,
    TimedOut,
}

/// The choices of a capture through Mutter.
#[derive(Debug)]
pub struct MutterBackend {
    /// The desired resolution for the virtual monitor.
    pub virtual_size: (u32, u32),
    /// The cursor mode to request.
    pub cursor_mode: u32,
    /// A specific connector to capture, instead of the primary monitor.
    pub monitor_connector: Option<String>,
}

/// Whether an interface version is one we know how to speak.
pub open spec fn speaks(version: i32) -> bool {
    MIN_API_VERSION <= version <= MAX_API_VERSION
}

impl Default for MutterBackend {
    fn default() -> (res: Self)
        ensures
            res.virtual_size == (1920u32, 1080u32),
            res.cursor_mode == CURSOR_MODE_EMBEDDED,
            res.monitor_connector is None,
    {
        MutterBackend::new()
    }
}

/// What is captured once a node was announced: that node, at the size asked for
/// where the monitor is virtual.
pub open spec fn captured(source_type: SourceType, node_id: u32, size: (u32, u32)) -> CaptureSource {
    CaptureSource {
        pipewire_fd: None,
        node_id,
        source_type,
        size: if source_type == SourceType::Virtual {
            Some(size)
        } else {
            None
        },
        media: None,
    }
}

impl MutterBackend {
    /// The usual choices.
    pub fn new() -> (res: Self)
        ensures
            res.virtual_size == (1920u32, 1080u32),
            res.cursor_mode == CURSOR_MODE_EMBEDDED,
            res.monitor_connector is None,
    {
        MutterBackend {
            virtual_size: (1920, 1080),
            cursor_mode: CURSOR_MODE_EMBEDDED,
            monitor_connector: None,
        }
    }

    /// Captures a specific connector instead of the primary monitor.
    ///
    /// Mutter draws the pointer into a monitor stream but **not** into a virtual
    /// one. Since a virtual monitor becomes a real connector once created, it can
    /// be captured as a monitor, cursor included.
    pub fn set_monitor_connector(&mut self, connector: Option<String>)
        ensures
            *final(self) == (MutterBackend { monitor_connector: connector, ..*old(self) }),
    {
        self.monitor_connector = connector;
    }

    /// Overrides the cursor mode (0 hidden, 1 embedded, 2 metadata).
    pub fn set_cursor_mode(&mut self, mode: u32)
        ensures
            *final(self) == (MutterBackend { cursor_mode: mode, ..*old(self) }),
    {
        self.cursor_mode = mode;
    }

    /// Sets the virtual monitor's resolution before the capture starts: creating
    /// the screen already at the resolution the sink negotiated avoids scaling.
    pub fn set_virtual_size(&mut self, width: u32, height: u32)
        ensures
            *final(self) == (MutterBackend { virtual_size: (width, height), ..*old(self) }),
    {
        self.virtual_size = (width, height);
    }

    /// A short, stable label for logs.
    pub fn id(&self) -> (res: &'static str)
        ensures
            res@ == "mutter"@,
    {
        "mutter"
    }

    /// Whether the service can be used. `version` is what it answered, if it did.
    /// Inside a sandbox it is never talked to.
    pub fn is_available(&self, sandboxed: bool, version: Option<i32>) -> (res: bool)
        ensures
            res == (!sandboxed && version is Some && speaks(version->0)),
    {
        if sandboxed {
            return false;
        }
        match version {
            Some(version) => MIN_API_VERSION <= version && version <= MAX_API_VERSION,
            None => false,
        }
    }

    /// What can be captured.
    pub fn supported_sources(&self, available: bool) -> (res: Vec<SourceType>)
        ensures
            res@ == (if available {
                seq![SourceType::Monitor, SourceType::Window, SourceType::Virtual]
            } else {
                Seq::empty()
            }),
    {
        let mut out: Vec<SourceType> = Vec::new();
        if available {
            out.push(SourceType::Monitor);
            out.push(SourceType::Window);
            out.push(SourceType::Virtual);
            assert(out@ =~= seq![SourceType::Monitor, SourceType::Window, SourceType::Virtual]);
        }
        out
    }

    /// Decides what to record for a source. `primary` is the primary monitor's
    /// connector, where it could be found. Picking a window is the portal's job.
    pub fn start(&self, source_type: SourceType, primary: Option<&str>) -> (res: Result<
        Recording,
        NdError,
    >)
        ensures
            match source_type {
                SourceType::Monitor => {
                    let connector = match self.monitor_connector {
                        Some(chosen) => Some(chosen@),
                        None => match primary {
                            Some(primary) => Some(primary@),
                            None => None,
                        },
                    };
                    match connector {
                        Some(wanted) => res matches Ok(
                            Recording::Monitor { connector, cursor_mode },
                        ) && connector@ == wanted && cursor_mode == self.cursor_mode,
                        None => res matches Err(error) && error@ == ErrorView::Capture(
                            "could not identify the primary monitor"@,
                        ),
                    }
                },
                SourceType::Virtual => res == Ok::<Recording, NdError>(
                    Recording::Virtual {
                        size: self.virtual_size,
                        cursor_mode: self.cursor_mode,
                    },
                ),
                SourceType::Window => res matches Err(error) && error@ == ErrorView::Unsupported(
                    "window capture through Mutter directly is not supported; use the portal"@,
                ),
            },
    {
        match source_type {
            SourceType::Monitor => {
                let connector = match copied_option(&self.monitor_connector) {
                    Some(chosen) => chosen,
                    None => match primary {
                        Some(primary) => copied(primary),
                        None => {
                            return Err(capture_error("could not identify the primary monitor"));
                        },
                    },
                };
                Ok(Recording::Monitor { connector, cursor_mode: self.cursor_mode })
            },
            SourceType::Virtual => Ok(
                Recording::Virtual { size: self.virtual_size, cursor_mode: self.cursor_mode },
            ),
            SourceType::Window => Err(
                unsupported_error(
                    "window capture through Mutter directly is not supported; use the portal",
                ),
            ),
        }
    }

    /// The capture that has started. The node is in the user session's PipeWire
    /// daemon, so there is no descriptor to hand over; only a virtual monitor has
    /// a size of its own.
    pub fn started(&self, source_type: SourceType, node_id: u32) -> (res: CaptureSource)
        ensures
            res == captured(source_type, node_id, self.virtual_size),
    {
        let size = if source_type == SourceType::Virtual {
            Some(self.virtual_size)
        } else {
            None
        };
        CaptureSource { pipewire_fd: None, node_id, source_type, size, media: None }
    }
}

/// A step of starting a capture.
#[derive(Clone, Copy, Debug, PartialEq, Eq, Structural)]
pub enum StartStep {
    /// Close any previous session.
    CloseOld,
    CreateSession,
    /// Take a snapshot of the desktop's arrangement.
    SnapshotLayout,
    Record,
    /// Subscribe to the announcement of the node.
    Subscribe,
    StartSession,
    AwaitNode,
    /// Hold the virtual stream open.
    HoldOpen,
    AwaitConnector,
    /// Put the extra screen to the right of the others.
    Arrange,
    /// Record the extra screen as a monitor.
    RecordScreen,
    Done,
}

/// The place of a step in the order of starting.
pub open spec fn place_of(step: StartStep) -> int {
    match step {
        StartStep::CloseOld => 0,
        StartStep::CreateSession => 1,
        StartStep::SnapshotLayout => 2,
        StartStep::Record => 3,
        StartStep::Subscribe => 4,
        StartStep::StartSession => 5,
        StartStep::AwaitNode => 6,
        StartStep::HoldOpen => 7,
        StartStep::AwaitConnector => 8,
        StartStep::Arrange => 9,
        StartStep::RecordScreen => 10,
        StartStep::Done => 11,
    }
}

/// Whether a step is for the virtual monitor alone.
pub open spec fn is_for_virtual(step: StartStep) -> bool {
    ||| step == StartStep::SnapshotLayout
    ||| step == StartStep::HoldOpen
    ||| step == StartStep::AwaitConnector
    ||| step == StartStep::Arrange
    ||| step == StartStep::RecordScreen
}

/// Whether a step is taken for a source.
pub open spec fn is_taken(step: StartStep, source_type: SourceType) -> bool {
    source_type == SourceType::Virtual || !is_for_virtual(step)
}

/// The step that follows one that succeeded: the next of those taken for the
/// source.
///
/// The arrangement is saved before the set of monitors changes. Subscribing comes
/// before the session starts: the announcement arrives immediately, and a late
/// subscription would miss the node. A virtual monitor needs two sessions, and the
/// reason is the pointer: the first creates the screen, the second records it.
pub fn after_step(step: StartStep, source_type: SourceType) -> (res: StartStep)
    ensures
        step == StartStep::Done ==> res == StartStep::Done,
        step != StartStep::Done ==> {
            &&& is_taken(res, source_type)
            &&& place_of(res) > place_of(step)
            &&& forall|other: StartStep|
                place_of(step) < #[trigger] place_of(other) < place_of(res) ==> !is_taken(
                    other,
                    source_type,
                )
        },
{
    let is_virtual = source_type == SourceType::Virtual;
    match step {
        StartStep::CloseOld => StartStep::CreateSession,
        StartStep::CreateSession => if is_virtual {
            StartStep::SnapshotLayout
        } else {
            StartStep::Record
        },
        StartStep::SnapshotLayout => StartStep::Record,
        StartStep::Record => StartStep::Subscribe,
        StartStep::Subscribe => StartStep::StartSession,
        StartStep::StartSession => StartStep::AwaitNode,
        StartStep::AwaitNode => if is_virtual {
            StartStep::HoldOpen
        } else {
            StartStep::Done
        },
        StartStep::HoldOpen => if is_virtual {
            StartStep::AwaitConnector
        } else {
            StartStep::Done
        },
        StartStep::AwaitConnector => if is_virtual {
            StartStep::Arrange
        } else {
            StartStep::Done
        },
        StartStep::Arrange => if is_virtual {
            StartStep::RecordScreen
        } else {
            StartStep::Done
        },
        StartStep::RecordScreen => StartStep::Done,
        StartStep::Done => StartStep::Done,
    }
}

/// What to undo when a step of starting fails.
#[derive(Clone, Copy, Debug, PartialEq, Eq, Structural)]
pub struct Cleanup {
    /// Stop the session that was started.
    pub stop_session: bool,
    /// Take down the pipeline that holds the virtual stream open.
    pub release_stream: bool,
}

/// What to undo when a step fails.
pub open spec fn cleanup_of(step: StartStep) -> Cleanup {
    Cleanup {
        stop_session: step == StartStep::AwaitNode || step == StartStep::AwaitConnector,
        release_stream: step == StartStep::AwaitConnector || step == StartStep::RecordScreen,
    }
}

/// Decides what to undo when a step fails: a session that gives no node, or no
/// monitor, is stopped; a stream that was held open is released.
pub fn cleanup_after(step: StartStep) -> (res: Cleanup)
    ensures
        res == cleanup_of(step),
{
    Cleanup {
        stop_session: step == StartStep::AwaitNode || step == StartStep::AwaitConnector,
        release_stream: step == StartStep::AwaitConnector || step == StartStep::RecordScreen,
    }
}

/// What a running capture consists of.
#[derive(Clone, Copy, Debug, PartialEq, Eq, Structural)]
pub struct ActiveSession {
    /// A pipeline holds the virtual stream open.
    pub holds_stream: bool,
    /// A session of its own created the extra screen.
    pub has_virtual: bool,
    /// The arrangement from before is kept.
    pub has_layout: bool,
}

/// A step of stopping a capture.
#[derive(Clone, Copy, Debug, PartialEq, Eq, Structural)]
pub enum StopStep {
    /// Stop the session that records.
    StopRecording,
    /// Take down the pipeline that holds the virtual stream open.
    ReleaseStream,
    /// Stop the session that created the extra screen.
    StopVirtual,
    /// Put the arrangement back.
    RestoreLayout,
}

/// The steps of stopping a capture, in order. What keeps the extra screen goes
/// after the session that records it: dropping it first would remove the screen
/// out from under that session. The arrangement comes last, once the set of
/// monitors has changed again.
pub open spec fn stop_order(active: Option<ActiveSession>) -> Seq<StopStep> {
    match active {
        None => Seq::empty(),
        Some(active) => seq![StopStep::StopRecording] + (if active.holds_stream {
            seq![StopStep::ReleaseStream]
        } else {
            Seq::empty()
        }) + (if active.has_virtual {
            seq![StopStep::StopVirtual]
        } else {
            Seq::empty()
        }) + (if active.has_layout {
            seq![StopStep::RestoreLayout]
        } else {
            Seq::empty()
        }),
    }
}

/// The steps of stopping. Stopping what was never started does nothing.
pub fn stop(active: Option<ActiveSession>) -> (res: Vec<StopStep>)
    ensures
        res@ == stop_order(active),
{
    let mut out: Vec<StopStep> = Vec::new();
    if let Some(active) = active {
        out.push(StopStep::StopRecording);
        if active.holds_stream {
            out.push(StopStep::ReleaseStream);
        }
        if active.has_virtual {
            out.push(StopStep::StopVirtual);
        }
        if active.has_layout {
            out.push(StopStep::RestoreLayout);
        }
    }
    assert(out@ =~= stop_order(active));
    out
}

/// The layout of the desktop is restored after everything else has stopped, and
/// the recording stops before anything that it records.
pub proof fn the_layout_is_restored_last(active: ActiveSession)
    ensures
        stop_order(Some(active))[0] == StopStep::StopRecording,
        active.has_layout ==> stop_order(Some(active)).last() == StopStep::RestoreLayout,
{
}

/// The failure to create a session.
pub fn session_refused(cause: &str) -> (res: NdError)
    ensures
        res@ == ErrorView::Capture(
            "Mutter refused to create the capture session ("@ + cause@
                + ") — use the portal (BIGNETSCREEN_CAPTURE=portal)"@,
        ),
{
    NdError::Capture(
        copied("Mutter refused to create the capture session (").concat(cause).concat(
            ") — use the portal (BIGNETSCREEN_CAPTURE=portal)",
        ),
    )
}

/// The node of a recording, or why there is none.
pub fn recorded_node(wait: NodeWait) -> (res: Result<u32, NdError>)
    ensures
        match wait {
            NodeWait::Announced(node_id) => res == Ok::<u32, NdError>(node_id),
            NodeWait::Closed => res matches Err(error) && error@ == ErrorView::Capture(
                "Mutter closed the stream before announcing the PipeWire node"@,
            ),
            NodeWait::TimedOut => res matches Err(error) && error@ == ErrorView::Capture(
                "Mutter did not announce the PipeWire node within "@ + decimal(
                    STREAM_TIMEOUT_SECS as nat,
                ) + "s"@,
            ),
        },
{
    match wait {
        NodeWait::Announced(node_id) => Ok(node_id),
        NodeWait::Closed => Err(
            capture_error("Mutter closed the stream before announcing the PipeWire node"),
        ),
        NodeWait::TimedOut => {
            let secs = number_text(STREAM_TIMEOUT_SECS);
            Err(
                NdError::Capture(
                    copied("Mutter did not announce the PipeWire node within ").concat(
                        secs.as_str(),
                    ).concat("s"),
                ),
            )
        },
    }
}

/// The node of the extra screen, recorded as a monitor, or why there is none.
pub fn extra_screen_node(wait: NodeWait) -> (res: Result<u32, NdError>)
    ensures
        match wait {
            NodeWait::Announced(node_id) => res == Ok::<u32, NdError>(node_id),
            _ => res matches Err(error) && error@ == ErrorView::Capture(
                "the extra screen did not announce a PipeWire node"@,
            ),
        },
{
    match wait {
        NodeWait::Announced(node_id) => Ok(node_id),
        _ => Err(capture_error("the extra screen did not announce a PipeWire node")),
    }
}

/// The failure of a virtual monitor that never appeared.
pub fn monitor_missing() -> (res: NdError)
    ensures
        res@ == ErrorView::Capture(
            "the virtual monitor never appeared in the display configuration"@,
        ),
{
    capture_error("the virtual monitor never appeared in the display configuration")
}

/// Is a virtual monitor so small that the receiver will show it blurred?
pub fn is_far_too_small(width: i32, height: i32) -> (res: bool)
    ensures
        res == (width < 640 || height < 480),
{
    width < 640 || height < 480
}

/// What holds a virtual stream open: it reads the node and shows it nowhere.
pub open spec fn keep_alive_text(node_id: u32) -> Seq<char> {
    source_text(VideoSource::PipeWire { fd: None, node_id })
        + " ! videorate drop-only=true ! video/x-raw,framerate=1/1 ! videoconvert ! fakesink sync=false"@
}

/// The pipeline that holds the virtual stream open. The screen exists only while
/// something consumes its stream; its frames are thrown away, and dropped before
/// they cost a conversion.
pub fn keep_alive_description(node_id: u32) -> (res: String)
    ensures
        res@ == keep_alive_text(node_id),
{
    let source = VideoSource::PipeWire { fd: None, node_id };
    source.description().concat(
        " ! videorate drop-only=true ! video/x-raw,framerate=1/1 ! videoconvert ! fakesink sync=false",
    )
}

/// Decides how holding the virtual stream open goes on after a failed attempt:
/// with another, or as a failure after the last. The node is announced before it
/// can be connected to. Attempts count from one.
pub fn after_keep_alive_failure(attempt: u32, cause: &str) -> (res: Option<NdError>)
    ensures
        if attempt < KEEP_ALIVE_ATTEMPTS {
            res is None
        } else {
            res matches Some(error) && error@ == ErrorView::Capture(
                "could not hold the virtual screen open after "@ + decimal(
                    KEEP_ALIVE_ATTEMPTS as nat,
                ) + " attempts: "@ + cause@,
            )
        },
{
    if attempt < KEEP_ALIVE_ATTEMPTS {
        return None;
    }
    let attempts = number_text(KEEP_ALIVE_ATTEMPTS as u64);
    Some(
        NdError::Capture(
            copied("could not hold the virtual screen open after ").concat(
                attempts.as_str(),
            ).concat(" attempts: ").concat(cause),
        ),
    )
}

/// The interface is spoken in its third and fourth version, and in no other.
pub proof fn only_known_versions_are_spoken(version: i32)
    ensures
        speaks(version) <==> version == 3 || version == 4,
{
}

/// A capture starts in an order in which each step finds what it needs: the
/// arrangement is saved before the recording changes it, the announcement is
/// subscribed to before the session that makes it starts, and the extra screen is
/// held open, awaited and arranged before it is recorded.
pub proof fn each_start_step_finds_what_it_needs()
    ensures
        place_of(StartStep::CloseOld) < place_of(StartStep::CreateSession),
        place_of(StartStep::CreateSession) < place_of(StartStep::SnapshotLayout),
        place_of(StartStep::SnapshotLayout) < place_of(StartStep::Record),
        place_of(StartStep::Record) < place_of(StartStep::Subscribe),
        place_of(StartStep::Subscribe) < place_of(StartStep::StartSession),
        place_of(StartStep::StartSession) < place_of(StartStep::AwaitNode),
        place_of(StartStep::AwaitNode) < place_of(StartStep::HoldOpen),
        place_of(StartStep::HoldOpen) < place_of(StartStep::AwaitConnector),
        place_of(StartStep::AwaitConnector) < place_of(StartStep::Arrange),
        place_of(StartStep::Arrange) < place_of(StartStep::RecordScreen),
        place_of(StartStep::RecordScreen) < place_of(StartStep::Done),
{
}

/// A virtual monitor takes every step. A monitor and a window take those of a
/// session and its node, and none that is about the extra screen.
pub proof fn only_a_virtual_monitor_arranges_the_desktop(step: StartStep, source_type: SourceType)
    ensures
        source_type == SourceType::Virtual ==> is_taken(step, source_type),
        source_type != SourceType::Virtual ==> (is_taken(step, source_type) <==> step
            == StartStep::CloseOld || step == StartStep::CreateSession || step == StartStep::Record
            || step == StartStep::Subscribe || step == StartStep::StartSession || step
            == StartStep::AwaitNode || step == StartStep::Done),
{
}

/// Stopping undoes what there is, and nothing else: the stream is released where it
/// is held, the extra screen's session stopped where there is one, in that order,
/// and the arrangement put back where it was kept. What was never started needs
/// nothing.
pub proof fn stopping_undoes_what_there_is(active: ActiveSession)
    ensures
        ({
            let steps = stop_order(Some(active));
            &&& steps.len() == 1 + (if active.holds_stream {
                1int
            } else {
                0
            }) + (if active.has_virtual {
                1int
            } else {
                0
            }) + (if active.has_layout {
                1int
            } else {
                0
            })
            &&& active.holds_stream ==> steps[1] == StopStep::ReleaseStream
            &&& active.has_virtual && active.holds_stream ==> steps[2] == StopStep::StopVirtual
            &&& active.has_virtual && !active.holds_stream ==> steps[1] == StopStep::StopVirtual
            &&& steps.contains(StopStep::ReleaseStream) <==> active.holds_stream
            &&& steps.contains(StopStep::StopVirtual) <==> active.has_virtual
            &&& steps.contains(StopStep::RestoreLayout) <==> active.has_layout
        }),
        stop_order(None).len() == 0,
{
    let steps = stop_order(Some(active));
    assert(active.holds_stream ==> steps[1] == StopStep::ReleaseStream);
    assert(active.has_virtual ==> steps[if active.holds_stream {
        2
    } else {
        1
    }] == StopStep::StopVirtual);
    assert(active.has_layout ==> steps[steps.len() - 1] == StopStep::RestoreLayout);
}

/// Holding a virtual stream open reads the node that was announced, at one frame a
/// second, and shows it nowhere.
pub proof fn a_held_stream_is_read_and_not_shown(node_id: u32)
    ensures
        has_part(keep_alive_text(node_id), "pipewiresrc path="@ + decimal(node_id as nat)),
        has_part(keep_alive_text(node_id), "framerate=1/1"@),
        has_part(keep_alive_text(node_id), "fakesink sync=false"@),
{
    reveal(source_text);
    let tail =
        " ! videorate drop-only=true ! video/x-raw,framerate=1/1 ! videoconvert ! fakesink sync=false"@;
    let from = "pipewiresrc path="@ + decimal(node_id as nat);
    let kept = " do-timestamp=true keepalive-time=1000 resend-last=true"@;
    reveal_strlit(
        " ! videorate drop-only=true ! video/x-raw,framerate=1/1 ! videoconvert ! fakesink sync=false",
    );
    part_of_itself(from);
    part_of_first(from, kept, from);
    part_of_first(from + kept, tail, from);
    reveal_strlit("framerate=1/1");
    assert(tail.subrange(42, 55) =~= "framerate=1/1"@);
    part_stands_at(tail, "framerate=1/1"@, 42);
    part_of_second(from + kept, tail, "framerate=1/1"@);
    reveal_strlit("fakesink sync=false");
    part_stands_at(tail, "fakesink sync=false"@, tail.len() - 19);
    part_of_second(from + kept, tail, "fakesink sync=false"@);
}

/// A step that fails leaves nothing of what came before it behind: a session that
/// was started is stopped where its node, or its monitor, does not come, and a
/// stream that was held open is released from then on. Before the session starts
/// there is nothing to undo.
pub proof fn a_failed_step_leaves_nothing_behind(step: StartStep)
    ensures
        cleanup_of(step).stop_session ==> place_of(step) > place_of(StartStep::StartSession),
        cleanup_of(step).release_stream ==> place_of(step) > place_of(StartStep::HoldOpen),
        cleanup_of(StartStep::AwaitNode).stop_session,
        cleanup_of(StartStep::AwaitConnector) == (Cleanup {
            stop_session: true,
            release_stream: true,
        }),
        cleanup_of(StartStep::RecordScreen).release_stream,
        place_of(step) <= place_of(StartStep::StartSession) ==> cleanup_of(step) == (Cleanup {
            stop_session: false,
            release_stream: false,
        }),
{
}

/// A virtual monitor is captured at the size it was asked for, and nothing else has
/// a size before its stream does; what is captured is the node that was announced.
pub proof fn a_virtual_monitor_has_the_size_asked_for(
    source_type: SourceType,
    node_id: u32,
    size: (u32, u32),
)
    ensures
        captured(source_type, node_id, size).node_id == node_id,
        captured(source_type, node_id, size).source_type == source_type,
        captured(source_type, node_id, size).size == Some(size) <==> source_type
            == SourceType::Virtual,
        captured(source_type, node_id, size).size is None <==> source_type != SourceType::Virtual,
        captured(source_type, node_id, size).pipewire_fd is None,
        captured(source_type, node_id, size).media is None,
{
}

} // verus!
