//! Receivers discovered over mDNS, and the course of a cast to one.
use crate::address::{best_address, Address};
use crate::error::{network_error, unsupported_error, NdError};
use crate::provider::DiscoveryEvent;
use crate::sink::{sanitize_name, SinkInfo, SinkKind, SinkState, SinkStatus};
use crate::text::{chars_of, string_of, up_to};
use vstd::prelude::*;

verus! {

use crate::address::{best_of, unusable_addresses_are_never_chosen};
use crate::error::{error_text, ErrorView};
use crate::sink::{sanitized, status_after, StatusView};
use crate::text::{before, first_index_unique, text_of};

/// The service type that Chromecasts announce.
pub const CHROMECAST_SERVICE: &'static str = "_googlecast._tcp.local.";

/// The service type that AirPlay receivers announce.
pub const AIRPLAY_SERVICE: &'static str = "_airplay._tcp.local.";

/// An mDNS service type to browse and the protocol it stands for.
#[derive(Clone, Copy, Debug)]
pub struct ServiceKind {
    pub service_type: &'static str,
    pub kind: SinkKind,
}

/// Why a cast to a receiver cannot begin, as an error and as its cause; none where
/// it can.
pub open spec fn refusal_of(kind: SinkKind, address: Option<Address>) -> Option<
    (ErrorView, Seq<char>),
> {
    let airplay =
        "streaming to AirPlay is not supported; this receiver shows up in discovery only"@;
    let unreachable = "the receiver was announced with no usable IP address"@;
    if kind != SinkKind::Chromecast {
        Some((ErrorView::Unsupported(airplay), airplay))
    } else if address is None {
        Some((ErrorView::Network(unreachable), unreachable))
    } else {
        None
    }
}

/// The service that Chromecasts announce.
pub open spec fn chromecast_kind(kind: ServiceKind) -> bool {
    kind.service_type@ == CHROMECAST_SERVICE@ && kind.kind == SinkKind::Chromecast
}

/// The service that AirPlay receivers announce.
pub open spec fn airplay_kind(kind: ServiceKind) -> bool {
    kind.service_type@ == AIRPLAY_SERVICE@ && kind.kind == SinkKind::AirPlay
}

impl ServiceKind {
    /// The service that Chromecasts announce.
    pub fn chromecast() -> (res: Self)
        ensures
            chromecast_kind(res),
    {
        ServiceKind { service_type: CHROMECAST_SERVICE, kind: SinkKind::Chromecast }
    }

    /// The service that AirPlay receivers announce.
    pub fn airplay() -> (res: Self)
        ensures
            airplay_kind(res),
    {
        ServiceKind { service_type: AIRPLAY_SERVICE, kind: SinkKind::AirPlay }
    }
}

/// An mDNS discovery provider able to browse several services with one daemon.
#[derive(Debug)]
pub struct MdnsProvider {
    pub id: &'static str,
    pub display_name: &'static str,
    pub services: Vec<ServiceKind>,
}

impl MdnsProvider {
    /// A provider that browses the given services.
    pub fn new(id: &'static str, display_name: &'static str, services: Vec<ServiceKind>) -> (res:
        Self)
        ensures
            res.id@ == id@,
            res.display_name@ == display_name@,
            res.services == services,
    {
        MdnsProvider { id, display_name, services }
    }

    /// Browses Chromecast **and** AirPlay on a single daemon (the app's case).
    pub fn all_media_receivers() -> (res: Self)
        ensures
            res.id@ == "mdns"@,
            res.display_name@ == "Chromecast/AirPlay"@,
            res.services@.len() == 2,
            chromecast_kind(res.services@[0]),
            airplay_kind(res.services@[1]),
    {
        let mut services: Vec<ServiceKind> = Vec::new();
        services.push(ServiceKind::chromecast());
        services.push(ServiceKind::airplay());
        Self::new("mdns", "Chromecast/AirPlay", services)
    }

    /// Chromecast only (`_googlecast._tcp.local.`).
    pub fn chromecast() -> (res: Self)
        ensures
            res.id@ == "chromecast"@,
            res.display_name@ == "Chromecast"@,
            res.services@.len() == 1,
            chromecast_kind(res.services@[0]),
    {
        let mut services: Vec<ServiceKind> = Vec::new();
        services.push(ServiceKind::chromecast());
        Self::new("chromecast", "Chromecast", services)
    }

    /// AirPlay only (`_airplay._tcp.local.`) — discovery alone.
    pub fn airplay() -> (res: Self)
        ensures
            res.id@ == "airplay"@,
            res.display_name@ == "AirPlay"@,
            res.services@.len() == 1,
            airplay_kind(res.services@[0]),
    {
        let mut services: Vec<ServiceKind> = Vec::new();
        services.push(ServiceKind::airplay());
        Self::new("airplay", "AirPlay", services)
    }
}

/// An address that a service announces, with the text of it.
#[derive(Debug)]
pub struct AnnouncedAddress {
    pub address: Address,
    pub text: String,
}

/// What a resolved service announces.
#[derive(Debug)]
pub struct Announcement {
    pub fullname: String,
    /// The friendly name from the `fn` TXT record, where there is one.
    pub friendly_name: Option<String>,
    pub addresses: Vec<AnnouncedAddress>,
    pub port: u16,
}

/// The addresses of an announcement.
pub open spec fn addresses_of(announced: Seq<AnnouncedAddress>) -> Seq<Address> {
    Seq::new(announced.len(), |i: int| announced[i].address)
}

/// The text of the first announced address that is `address`.
pub open spec fn text_for(announced: Seq<AnnouncedAddress>, address: Address) -> Option<Seq<char>>
    decreases announced.len(),
{
    if announced.len() == 0 {
        None
    } else if announced[0].address == address {
        Some(announced[0].text@)
    } else {
        text_for(announced.skip(1), address)
    }
}

/// The name that an announcement gives: the friendly one, else the instance part
/// of the full name. Sanitised: it comes off the network.
pub open spec fn name_of(fullname: Seq<char>, friendly_name: Option<Seq<char>>) -> Seq<char> {
    sanitized(
        match friendly_name {
            Some(name) => name,
            None => before(fullname, '.'),
        },
    )
}

fn find_text(announced: &Vec<AnnouncedAddress>, address: Address) -> (res: Option<String>)
    ensures
        text_of(res) == text_for(announced@, address),
{
    let mut i: usize = 0;
    assert(announced@.skip(0) =~= announced@);
    while i < announced.len()
        invariant
            i <= announced@.len(),
            text_for(announced@, address) == text_for(announced@.skip(i as int), address),
        decreases announced@.len() - i,
    {
        assert(announced@.skip(i as int).skip(1) =~= announced@.skip(i + 1));
        if announced[i].address == address {
            return Some(announced[i].text.clone());
        }
        i += 1;
    }
    None
}

/// A receiver discovered over mDNS.
#[derive(Debug)]
pub struct MdnsSink {
    pub info: SinkInfo,
    /// The already resolved address, ready for the Cast channel.
    pub address: Option<Address>,
    pub port: u16,
    pub status: SinkStatus,
}

/// How a cast goes on after mirroring was tried.
#[derive(Debug)]
pub enum AfterMirroring {
    /// The receiver does not mirror: use the HTTP path.
    UseHttp,
    /// The session is over, this way.
    Done(Result<(), NdError>),
}

impl MdnsSink {
    /// The receiver that an announcement describes.
    pub fn from_service(service: &Announcement, kind: SinkKind) -> (res: Self)
        ensures
            res.info.id@ == service.fullname@,
            res.info.display_name@ == name_of(service.fullname@, text_of(service.friendly_name)),
            res.info.kind == kind,
            text_of(res.info.address) == (match best_of(addresses_of(service.addresses@)) {
                Some(address) => text_for(service.addresses@, address),
                None => None,
            }),
            res.address == best_of(addresses_of(service.addresses@)),
            res.port == service.port,
            res.status@ == (StatusView { state: SinkState::Disconnected, message: None }),
    {
        let display_name = match &service.friendly_name {
            Some(name) => sanitize_name(name.as_str()),
            None => {
                let chars = chars_of(service.fullname.as_str());
                let instance = string_of(up_to(chars.as_slice(), '.'));
                sanitize_name(instance.as_str())
            },
        };
        let mut addresses: Vec<Address> = Vec::new();
        let mut i: usize = 0;
        while i < service.addresses.len()
            invariant
                i <= service.addresses@.len(),
                addresses@.len() == i,
                forall|j: int|
                    0 <= j < i ==> #[trigger] addresses@[j] == service.addresses@[j].address,
            decreases service.addresses@.len() - i,
        {
            addresses.push(service.addresses[i].address);
            i += 1;
        }
        assert(addresses@ =~= addresses_of(service.addresses@));
        let address = best_address(addresses.as_slice());
        let text = match address {
            Some(address) => find_text(&service.addresses, address),
            None => None,
        };
        MdnsSink {
            info: SinkInfo { id: service.fullname.clone(), display_name, kind, address: text },
            address,
            port: service.port,
            status: SinkStatus::new(),
        }
    }

    /// The receiver's resolved IP address.
    pub fn ip(&self) -> (res: Option<Address>)
        ensures
            res == self.address,
    {
        self.address
    }

    /// Port announced over mDNS (8009 on Chromecasts).
    pub fn port(&self) -> (res: u16)
        ensures
            res == self.port,
    {
        self.port
    }

    /// Whether a cast can begin, and to which address. Only a Chromecast with a
    /// usable address streams; anything else fails, and the status says why.
    pub fn start_stream(&mut self) -> (res: Result<Address, NdError>)
        ensures
            final(self).info == old(self).info,
            final(self).address == old(self).address,
            final(self).port == old(self).port,
            match refusal_of(old(self).info.kind, old(self).address) {
                Some((refusal, cause)) => {
                    &&& res matches Err(error) && error@ == refusal
                    &&& final(self).status@ == (StatusView {
                        state: SinkState::Error,
                        message: Some(cause),
                    })
                },
                None => {
                    &&& res == Ok::<Address, NdError>(old(self).address->0)
                    &&& final(self).status@ == old(self).status@
                },
            },
    {
        if self.info.kind != SinkKind::Chromecast {
            let message =
                "streaming to AirPlay is not supported; this receiver shows up in discovery only";
            self.status.fail(message);
            return Err(unsupported_error(message));
        }
        match self.address {
            Some(address) => Ok(address),
            None => {
                let message = "the receiver was announced with no usable IP address";
                self.status.fail(message);
                Err(network_error(message))
            },
        }
    }

    /// Decides how a cast goes on after mirroring. Not every Cast device ships the
    /// mirroring app, so the fall back to the HTTP path is automatic — and only
    /// happens where the **negotiation** was refused, never in the middle of a
    /// stream that already started.
    pub fn after_mirroring(&mut self, outcome: Result<(), NdError>) -> (res: AfterMirroring)
        ensures
            final(self).info == old(self).info,
            final(self).address == old(self).address,
            final(self).port == old(self).port,
            if outcome is Err && outcome->Err_0 is Unsupported {
                &&& res is UseHttp
                &&& final(self).status@ == (StatusView {
                    state: SinkState::Disconnected,
                    message: None,
                })
            } else {
                &&& res == AfterMirroring::Done(outcome)
                &&& final(self).status@ == old(self).status@
            },
    {
        if let Err(error) = &outcome {
            if crate::mirror_session::is_unsupported(error) {
                self.status.reset();
                return AfterMirroring::UseHttp;
            }
        }
        AfterMirroring::Done(outcome)
    }

    /// Records how a cast ended.
    pub fn finish_stream(&mut self, outcome: Result<(), NdError>) -> (res: Result<(), NdError>)
        ensures
            res == outcome,
            final(self).info == old(self).info,
            final(self).address == old(self).address,
            final(self).port == old(self).port,
            final(self).status@ == (match outcome {
                Ok(_) => status_after(old(self).status@, SinkState::Disconnected),
                Err(error) => StatusView {
                    state: SinkState::Error,
                    message: Some(error_text(error)),
                },
            }),
    {
        match &outcome {
            Ok(()) => {
                self.status.set(SinkState::Disconnected);
            },
            Err(error) => {
                let message = error.message();
                self.status.fail(message.as_str());
            },
        }
        outcome
    }

    /// Ends the cast: idle, with nothing to say.
    pub fn stop_stream(&mut self)
        ensures
            final(self).info == old(self).info,
            final(self).address == old(self).address,
            final(self).port == old(self).port,
            final(self).status@ == (StatusView { state: SinkState::Disconnected, message: None }),
    {
        self.status.reset();
    }
}

/// What a browse reports of a service.
#[derive(Debug)]
pub enum ServiceReport {
    Resolved(Announcement),
    Removed(String),
    Other,
}

/// The discovery event for a report. Each device announces itself several times,
/// and an announcement with no usable address must not replace a working one in
/// the list.
pub fn discover(report: ServiceReport, kind: SinkKind) -> (res: Option<DiscoveryEvent<MdnsSink>>)
    ensures
        match report {
            ServiceReport::Resolved(service) => {
                let address = best_of(addresses_of(service.addresses@));
                match res {
                    Some(DiscoveryEvent::Added(sink)) => {
                        &&& address is Some
                        &&& sink.address == address
                        &&& sink.info.id@ == service.fullname@
                        &&& sink.info.display_name@ == name_of(
                            service.fullname@,
                            text_of(service.friendly_name),
                        )
                        &&& sink.info.kind == kind
                        &&& text_of(sink.info.address) == text_for(
                            service.addresses@,
                            address->0,
                        )
                        &&& sink.port == service.port
                        &&& sink.status@ == (StatusView {
                            state: SinkState::Disconnected,
                            message: None,
                        })
                    },
                    Some(_) => false,
                    None => address is None,
                }
            },
            ServiceReport::Removed(fullname) => res matches Some(DiscoveryEvent::Removed(id))
                && id@ == fullname@,
            ServiceReport::Other => res is None,
        },
{
    match report {
        ServiceReport::Resolved(service) => {
            let sink = MdnsSink::from_service(&service, kind);
            if sink.address.is_none() {
                return None;
            }
            Some(DiscoveryEvent::Added(sink))
        },
        ServiceReport::Removed(fullname) => Some(DiscoveryEvent::Removed(fullname)),
        ServiceReport::Other => None,
    }
}

/// A receiver goes by its friendly name; one that announces none goes by the first
/// part of its full name, up to the dot.
pub proof fn a_receiver_goes_by_its_friendly_name(
    friendly: Seq<char>,
    instance: Seq<char>,
    service: Seq<char>,
)
    requires
        forall|i: int| 0 <= i < instance.len() ==> instance[i] != '.',
    ensures
        name_of(instance + "."@ + service, Some(friendly)) == sanitized(friendly),
        name_of(instance + "."@ + service, None) == sanitized(instance),
        name_of(instance, None) == sanitized(instance),
{
    reveal_strlit(".");
    let full = instance + "."@ + service;
    assert(full[instance.len() as int] == '.');
    assert(forall|i: int| 0 <= i < instance.len() ==> full[i] == instance[i]);
    first_index_unique(full, '.', instance.len() as int);
    first_index_unique(instance, '.', instance.len() as int);
    assert(full.take(instance.len() as int) =~= instance);
    assert(instance.take(instance.len() as int) =~= instance);
}

/// The address shown is the text announced with the one that is used.
pub proof fn the_address_shown_is_the_one_used(announced: Seq<AnnouncedAddress>, address: Address)
    ensures
        match text_for(announced, address) {
            Some(text) => exists|i: int|
                0 <= i < announced.len() && (#[trigger] announced[i]).address == address
                    && announced[i].text@ == text,
            None => forall|i: int|
                0 <= i < announced.len() ==> (#[trigger] announced[i]).address != address,
        },
        best_of(addresses_of(announced)) == Some(address) ==> text_for(announced, address) is Some,
    decreases announced.len(),
{
    text_is_that_of_the_address(announced, address);
    if best_of(addresses_of(announced)) == Some(address) {
        unusable_addresses_are_never_chosen(addresses_of(announced));
        let all = addresses_of(announced);
        let i = choose|i: int| 0 <= i < all.len() && all[i] == address;
        assert(announced[i].address == address);
    }
}

proof fn text_is_that_of_the_address(announced: Seq<AnnouncedAddress>, address: Address)
    ensures
        match text_for(announced, address) {
            Some(text) => exists|i: int|
                0 <= i < announced.len() && (#[trigger] announced[i]).address == address
                    && announced[i].text@ == text,
            None => forall|i: int|
                0 <= i < announced.len() ==> (#[trigger] announced[i]).address != address,
        },
    decreases announced.len(),
{
    if announced.len() > 0 {
        let rest = announced.skip(1);
        text_is_that_of_the_address(rest, address);
        if announced[0].address == address {
            assert(announced[0].text@ == text_for(announced, address)->0);
        } else if let Some(text) = text_for(rest, address) {
            let i = choose|i: int|
                0 <= i < rest.len() && (#[trigger] rest[i]).address == address && rest[i].text@
                    == text;
            assert(announced[i + 1] == rest[i]);
        } else {
            assert forall|i: int| 0 <= i < announced.len() implies (
            #[trigger] announced[i]).address != address by {
                if i > 0 {
                    assert(rest[i - 1] == announced[i]);
                }
            }
        }
    }
}

/// A receiver is cast to exactly where it is a Chromecast with a usable address.
/// What cannot be cast to at all is told apart from what cannot be reached.
pub proof fn only_a_reachable_chromecast_streams(kind: SinkKind, address: Option<Address>)
    ensures
        refusal_of(kind, address) is None <==> kind == SinkKind::Chromecast && address is Some,
        refusal_of(kind, address) matches Some((error, cause)) ==> cause.len() > 0 && (if kind
            == SinkKind::Chromecast {
            error == ErrorView::Network(cause)
        } else {
            error == ErrorView::Unsupported(cause)
        }),
{
    reveal_strlit(
        "streaming to AirPlay is not supported; this receiver shows up in discovery only",
    );
    reveal_strlit("the receiver was announced with no usable IP address");
}

/// The services are told apart by what is browsed for, and each stands for its own
/// protocol.
pub proof fn each_service_stands_for_its_protocol(a: ServiceKind, b: ServiceKind)
    requires
        chromecast_kind(a),
        airplay_kind(b),
    ensures
        a.service_type@ == "_googlecast._tcp.local."@,
        b.service_type@ == "_airplay._tcp.local."@,
        a.service_type@ != b.service_type@,
        a.kind == SinkKind::Chromecast,
        b.kind == SinkKind::AirPlay,
{
    reveal_strlit("_googlecast._tcp.local.");
    reveal_strlit("_airplay._tcp.local.");
    assert(a.service_type@.len() != b.service_type@.len());
}

} // verus!
