//! Receiver discovery: the events, and merging several providers into one.
use crate::error::NdError;
use crate::sink::SinkInfo;
use crate::text::copied;
use vstd::prelude::*;

verus! {

use crate::error::error_text;

/// A discovery event emitted by a provider. `S` is what stands for a receiver.
///
/// The diagnostic variants exist so that **failures are visible**: without them
/// nobody can tell "there is no receiver on this network" from "Miracast never
/// even started".
#[derive(Clone, Debug)]
pub enum DiscoveryEvent<S> {
    /// A new receiver showed up.
    Added(S),
    /// An already known receiver had its data refreshed (name, IP).
    ///
    /// Kept apart from `Added` so the UI updates the existing row instead of
    /// replacing the instance.
    Updated(S),
    /// A receiver went away (identified by `SinkInfo::id`).
    Removed(String),
    /// A provider could not start, or stopped working.
    ProviderUnavailable {
        provider: String,
        /// Text ready to be shown to the user, not just logged.
        reason: String,
    },
    /// A provider started (or recovered) and is scanning.
    ProviderReady { provider: String },
}

/// How an event reads in a log.
pub open spec fn event_text(event: DiscoveryEvent<SinkInfo>) -> Seq<char> {
    match event {
        DiscoveryEvent::Added(sink) => "Added("@ + sink.id@ + ")"@,
        DiscoveryEvent::Updated(sink) => "Updated("@ + sink.id@ + ")"@,
        DiscoveryEvent::Removed(id) => "Removed("@ + id@ + ")"@,
        DiscoveryEvent::ProviderUnavailable { provider, reason } => "ProviderUnavailable("@
            + provider@ + ": "@ + reason@ + ")"@,
        DiscoveryEvent::ProviderReady { provider } => "ProviderReady("@ + provider@ + ")"@,
    }
}

fn bracketed(label: &str, what: &String) -> (res: String)
    ensures
        res@ == label@ + what@ + ")"@,
{
    copied(label).concat(what.as_str()).concat(")")
}

impl DiscoveryEvent<SinkInfo> {
    /// How the event reads in a log.
    pub fn describe(&self) -> (res: String)
        ensures
            res@ == event_text(*self),
    {
        match self {
            DiscoveryEvent::Added(sink) => bracketed("Added(", &sink.id),
            DiscoveryEvent::Updated(sink) => bracketed("Updated(", &sink.id),
            DiscoveryEvent::Removed(id) => bracketed("Removed(", id),
            DiscoveryEvent::ProviderUnavailable { provider, reason } => copied(
                "ProviderUnavailable(",
            ).concat(provider.as_str()).concat(": ").concat(reason.as_str()).concat(")"),
            DiscoveryEvent::ProviderReady { provider } => bracketed("ProviderReady(", provider),
        }
    }
}

/// Combines several providers into a single observable stream. `P` is what
/// stands for a provider.
#[derive(Debug)]
pub struct MetaProvider<P> {
    providers: Vec<P>,
}

impl<P> View for MetaProvider<P> {
    type V = Seq<P>;

    closed spec fn view(&self) -> Seq<P> {
        self.providers@
    }
}

impl<P> MetaProvider<P> {
    /// Builds the aggregator from a list of providers.
    pub fn new(providers: Vec<P>) -> (res: Self)
        ensures
            res@ == providers@,
    {
        MetaProvider { providers }
    }

    /// How many providers are registered.
    pub fn len(&self) -> (res: usize)
        ensures
            res == self@.len(),
    {
        self.providers.len()
    }

    /// Is no provider registered?
    pub fn is_empty(&self) -> (res: bool)
        ensures
            res == (self@.len() == 0),
    {
        self.providers.len() == 0
    }

    /// The providers, in the order given.
    pub fn providers(&self) -> (res: &[P])
        ensures
            res@ == self@,
    {
        self.providers.as_slice()
    }
}

/// The first event of a provider's part of the merged stream. One that started
/// announces itself before its findings; one that did not is **not silenced**:
/// its failure becomes an event that carries readable text.
pub fn opening_event<S>(provider: &str, failure: Option<&NdError>) -> (res: DiscoveryEvent<S>)
    ensures
        match failure {
            None => res matches DiscoveryEvent::ProviderReady { provider: id } && id@ == provider@,
            Some(error) => res matches DiscoveryEvent::ProviderUnavailable {
                provider: id,
                reason,
            } && id@ == provider@ && reason@ == error_text(*error),
        },
{
    match failure {
        None => DiscoveryEvent::ProviderReady { provider: copied(provider) },
        Some(error) => DiscoveryEvent::ProviderUnavailable {
            provider: copied(provider),
            reason: error.message(),
        },
    }
}

/// An event tells what it is about: the receiver by its id, a provider by its own,
/// and a failure with its reason.
pub proof fn an_event_tells_what_it_is_about(sink: SinkInfo, id: String, reason: String)
    ensures
        event_text(DiscoveryEvent::Added(sink)) == "Added("@ + sink.id@ + ")"@,
        event_text(DiscoveryEvent::Updated(sink)) == "Updated("@ + sink.id@ + ")"@,
        event_text(DiscoveryEvent::Removed(id)) == "Removed("@ + id@ + ")"@,
        event_text(DiscoveryEvent::ProviderReady { provider: id }) == "ProviderReady("@ + id@
            + ")"@,
        event_text(DiscoveryEvent::ProviderUnavailable { provider: id, reason })
            == "ProviderUnavailable("@ + id@ + ": "@ + reason@ + ")"@,
{
}

} // verus!
