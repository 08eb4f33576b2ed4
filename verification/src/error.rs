//! Unified error type.
use crate::capture::CaptureSource;
use crate::text::copied;
use vstd::prelude::*;

verus! {

/// An error from any layer.
#[derive(Debug)]
pub enum NdError {
    /// Failure coming from GStreamer (init, pipeline parsing, state change).
    Gst(String),
    /// Screen capture failure (portal/Mutter).
    Capture(String),
    /// Protocol failure (WFD/RTSP negotiation, Cast channel).
    Protocol(String),
    /// Network failure (D-Bus, NetworkManager, firewalld, sockets).
    Network(String),
    /// Feature unavailable in the current environment (e.g. WFD under Flatpak).
    Unsupported(String),
    /// The receiver joined (or was paired with) and then never opened the
    /// connection back.
    ///
    /// Its own variant because it is the one failure worth **retrying**. It
    /// carries the capture back so that retrying does not put a second
    /// permission dialog in front of someone who already agreed to the first.
    SinkNeverConnected { capture: Box<CaptureSource>, reason: String },
    /// Operation cancelled (e.g. the user disconnected mid-negotiation).
    Cancelled,
}

/// The standard alias.
pub type Result<T> = std::result::Result<T, NdError>;

/// What an error says to a reader.
pub open spec fn error_text(error: NdError) -> Seq<char> {
    match error {
        NdError::Gst(cause) => "gstreamer: "@ + cause@,
        NdError::Capture(cause) => "capture: "@ + cause@,
        NdError::Protocol(cause) => "protocol: "@ + cause@,
        NdError::Network(cause) => "network: "@ + cause@,
        NdError::Unsupported(cause) => "unsupported: "@ + cause@,
        NdError::SinkNeverConnected { capture, reason } => "protocol: "@ + reason@,
        NdError::Cancelled => "cancelled"@,
    }
}

fn labelled(label: &str, cause: &String) -> (res: String)
    ensures
        res@ == label@ + cause@,
{
    copied(label).concat(cause.as_str())
}

impl NdError {
    /// The text to show or log.
    pub fn message(&self) -> (res: String)
        ensures
            res@ == error_text(*self),
    {
        match self {
            NdError::Gst(cause) => labelled("gstreamer: ", cause),
            NdError::Capture(cause) => labelled("capture: ", cause),
            NdError::Protocol(cause) => labelled("protocol: ", cause),
            NdError::Network(cause) => labelled("network: ", cause),
            NdError::Unsupported(cause) => labelled("unsupported: ", cause),
            NdError::SinkNeverConnected { capture: _, reason } => labelled("protocol: ", reason),
            NdError::Cancelled => copied("cancelled"),
        }
    }
}

/// What an error says, without what it carries.
pub ghost enum ErrorView {
    Gst(Seq<char>),
    Capture(Seq<char>),
    Protocol(Seq<char>),
    Network(Seq<char>),
    Unsupported(Seq<char>),
    SinkNeverConnected(Seq<char>),
    Cancelled,
}

impl View for NdError {
    type V = ErrorView;

    open spec fn view(&self) -> ErrorView {
        match self {
            NdError::Gst(cause) => ErrorView::Gst(cause@),
            NdError::Capture(cause) => ErrorView::Capture(cause@),
            NdError::Protocol(cause) => ErrorView::Protocol(cause@),
            NdError::Network(cause) => ErrorView::Network(cause@),
            NdError::Unsupported(cause) => ErrorView::Unsupported(cause@),
            NdError::SinkNeverConnected { capture, reason } => ErrorView::SinkNeverConnected(
                reason@,
            ),
            NdError::Cancelled => ErrorView::Cancelled,
        }
    }
}

/// A protocol failure.
pub fn protocol_error(cause: &str) -> (res: NdError)
    ensures
        res@ == ErrorView::Protocol(cause@),
{
    NdError::Protocol(copied(cause))
}

/// A network failure.
pub fn network_error(cause: &str) -> (res: NdError)
    ensures
        res@ == ErrorView::Network(cause@),
{
    NdError::Network(copied(cause))
}

/// An unavailable feature.
pub fn unsupported_error(cause: &str) -> (res: NdError)
    ensures
        res@ == ErrorView::Unsupported(cause@),
{
    NdError::Unsupported(copied(cause))
}

/// A capture failure.
pub fn capture_error(cause: &str) -> (res: NdError)
    ensures
        res@ == ErrorView::Capture(cause@),
{
    NdError::Capture(copied(cause))
}

/// An error tells what failed and why: the layer it comes from, then its cause,
/// unchanged. A receiver that never connected reads as a protocol failure.
pub proof fn an_error_tells_its_cause(cause: String, capture: Box<CaptureSource>)
    ensures
        error_text(NdError::Gst(cause)) == "gstreamer: "@ + cause@,
        error_text(NdError::Capture(cause)) == "capture: "@ + cause@,
        error_text(NdError::Protocol(cause)) == "protocol: "@ + cause@,
        error_text(NdError::Network(cause)) == "network: "@ + cause@,
        error_text(NdError::Unsupported(cause)) == "unsupported: "@ + cause@,
        error_text(NdError::SinkNeverConnected { capture, reason: cause }) == error_text(
            NdError::Protocol(cause),
        ),
{
}

} // verus!
