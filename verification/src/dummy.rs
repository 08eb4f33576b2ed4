//! Made-up receivers, for testing an interface without hardware.
use crate::error::{unsupported_error, NdError};
use crate::sink::{SinkInfo, SinkKind, SinkState, SinkStatus};
use crate::text::copied;
use vstd::prelude::*;

verus! {

use crate::error::ErrorView;
use crate::sink::StatusView;
use crate::text::text_of;

/// A receiver that never streams.
#[derive(Debug)]
pub struct DummySink {
    pub info: SinkInfo,
    pub status: SinkStatus,
}

/// Whether a receiver is announced with exactly these data.
pub open spec fn announces(
    info: SinkInfo,
    id: Seq<char>,
    name: Seq<char>,
    kind: SinkKind,
    address: Seq<char>,
) -> bool {
    &&& info.id@ == id
    &&& info.display_name@ == name
    &&& info.kind == kind
    &&& text_of(info.address) == Some(address)
}

fn make(id: &str, name: &str, kind: SinkKind, address: &str) -> (res: DummySink)
    ensures
        announces(res.info, id@, name@, kind, address@),
        res.status@ == (StatusView { state: SinkState::Disconnected, message: None }),
{
    DummySink {
        info: SinkInfo {
            id: copied(id),
            display_name: copied(name),
            kind,
            address: Some(copied(address)),
        },
        status: SinkStatus::new(),
    }
}

impl DummySink {
    /// Refuses to stream, and says so in the status.
    pub fn start_stream(&mut self) -> (res: Result<(), NdError>)
        ensures
            res matches Err(error) && error@ == ErrorView::Unsupported("the dummy sink does not stream"@),
            final(self).info == old(self).info,
            final(self).status@ == (StatusView {
                state: SinkState::Error,
                message: Some("a test sink does not stream"@),
            }),
    {
        self.status.fail("a test sink does not stream");
        Err(unsupported_error("the dummy sink does not stream"))
    }

    /// Returns to idle.
    pub fn stop_stream(&mut self)
        ensures
            final(self).info == old(self).info,
            final(self).status@ == (StatusView { state: SinkState::Disconnected, message: None }),
    {
        self.status.reset();
    }
}

/// A provider that announces a few made-up receivers once.
#[derive(Clone, Copy, Debug)]
pub struct DummyProvider;

impl DummyProvider {
    /// Short identifier for logs.
    pub fn id(&self) -> (res: &'static str)
        ensures
            res@ == "dummy"@,
    {
        "dummy"
    }

    /// Name to show the user.
    pub fn display_name(&self) -> (res: &'static str)
        ensures
            res@ == "Test"@,
    {
        "Test"
    }

    /// The receivers it announces.
    pub fn discover(&self) -> (res: Vec<DummySink>)
        ensures
            res@.len() == 2,
            announces(
                res@[0].info,
                "dummy-cc"@,
                "Test Chromecast"@,
                SinkKind::Chromecast,
                "192.168.0.50"@,
            ),
            announces(
                res@[1].info,
                "dummy-wfd"@,
                "Test Miracast"@,
                SinkKind::WfdP2p,
                "AA:BB:CC:DD:EE:FF"@,
            ),
            forall|i: int|
                0 <= i < 2 ==> (#[trigger] res@[i]).status@ == (StatusView {
                    state: SinkState::Disconnected,
                    message: None,
                }),
    {
        let mut sinks: Vec<DummySink> = Vec::new();
        sinks.push(make("dummy-cc", "Test Chromecast", SinkKind::Chromecast, "192.168.0.50"));
        sinks.push(make("dummy-wfd", "Test Miracast", SinkKind::WfdP2p, "AA:BB:CC:DD:EE:FF"));
        sinks
    }
}

} // verus!
