use bignetscreen::address::{best_address, is_link_local, is_loopback, Address};
use bignetscreen::discovery::{
    discover, AfterMirroring, AnnouncedAddress, Announcement, MdnsProvider, MdnsSink, ServiceKind,
    ServiceReport,
};
use bignetscreen::error::NdError;
use bignetscreen::provider::DiscoveryEvent;
use bignetscreen::sink::{SinkKind, SinkState};

const ROUTED: Address = Address::V4(0xC0A8_4472); // 192.168.68.114
const LL_V6: Address = Address::V6(0xfe80_0000_0000_0000_25af_8855_5a42_286b);
const LL_V4: Address = Address::V4(0xA9FE_0102); // 169.254.1.2

#[test]
fn link_local_addresses_are_never_chosen() {
    // With a routable address in the list, link-local must not win.
    assert_eq!(best_address(&[LL_V6, ROUTED]), Some(ROUTED));
    assert_eq!(best_address(&[LL_V4, ROUTED]), Some(ROUTED));

    // And with link-local alone the answer is "none": connecting would give
    // EINVAL, and an error in the user's face is worse than ignoring the
    // announcement and waiting for the next one, which carries the good address.
    assert_eq!(best_address(&[LL_V6, LL_V4]), None);
}

#[test]
fn ipv4_wins_over_routable_ipv6_but_ipv6_still_works() {
    let v6 = Address::V6(0x2001_0db8_0000_0000_0000_0000_0000_0001);
    assert_eq!(best_address(&[v6, ROUTED]), Some(ROUTED));
    // On an IPv6-only network the receiver must not vanish from the list.
    assert_eq!(best_address(&[v6]), Some(v6));
}

#[test]
fn loopback_and_link_local_are_recognised_by_their_prefix() {
    assert!(is_loopback(Address::V4(0x7F00_0001)));
    assert!(is_loopback(Address::V4(0x7FFF_FFFF)));
    assert!(!is_loopback(Address::V4(0x8000_0001)));
    assert!(is_loopback(Address::V6(1)));
    assert!(is_link_local(Address::V6(0xfebf_ffff_0000_0000_0000_0000_0000_0000)));
    assert!(!is_link_local(Address::V6(0xfec0_0000_0000_0000_0000_0000_0000_0000)));
    assert!(!is_link_local(Address::V4(0xA9FF_0000)));
    assert_eq!(best_address(&[Address::V4(0x7F00_0001), Address::V6(1)]), None);
}

#[test]
fn service_kinds_use_the_right_mdns_types() {
    assert_eq!(ServiceKind::chromecast().service_type, "_googlecast._tcp.local.");
    assert_eq!(ServiceKind::airplay().service_type, "_airplay._tcp.local.");
}

#[test]
fn one_daemon_serves_both_protocols() {
    // Two providers created two daemons, duplicating 5353 sockets and multicast
    // traffic.
    let provider = MdnsProvider::all_media_receivers();
    assert_eq!(provider.services.len(), 2);
    assert_eq!(MdnsProvider::chromecast().services[0].kind, SinkKind::Chromecast);
    assert_eq!(MdnsProvider::airplay().services[0].kind, SinkKind::AirPlay);
}

fn announcement(addresses: &[(Address, &str)]) -> Announcement {
    Announcement {
        fullname: "Chromecast-1234._googlecast._tcp.local.".into(),
        friendly_name: Some("Living \"Room\" TV".into()),
        addresses: addresses
            .iter()
            .map(|(address, text)| AnnouncedAddress { address: *address, text: text.to_string() })
            .collect(),
        port: 8009,
    }
}

#[test]
fn an_announcement_becomes_a_receiver() {
    let service = announcement(&[(LL_V4, "169.254.1.2"), (ROUTED, "192.168.68.114")]);
    let sink = MdnsSink::from_service(&service, SinkKind::Chromecast);
    assert_eq!(sink.info.id, "Chromecast-1234._googlecast._tcp.local.");
    assert_eq!(sink.info.display_name, "Living Room TV");
    assert_eq!(sink.info.address.as_deref(), Some("192.168.68.114"));
    assert_eq!((sink.ip(), sink.port()), (Some(ROUTED), 8009));

    let mut nameless = announcement(&[]);
    nameless.friendly_name = None;
    let sink = MdnsSink::from_service(&nameless, SinkKind::Chromecast);
    assert_eq!(sink.info.display_name, "Chromecast-1234");
}

#[test]
fn an_announcement_without_an_address_replaces_nothing() {
    let useless = ServiceReport::Resolved(announcement(&[(LL_V4, "169.254.1.2")]));
    assert!(discover(useless, SinkKind::Chromecast).is_none());
    let useful = ServiceReport::Resolved(announcement(&[(ROUTED, "192.168.68.114")]));
    match discover(useful, SinkKind::Chromecast) {
        Some(DiscoveryEvent::Added(sink)) => assert_eq!(sink.ip(), Some(ROUTED)),
        other => panic!("{other:?}"),
    }
    match discover(ServiceReport::Removed("x".into()), SinkKind::Chromecast) {
        Some(DiscoveryEvent::Removed(id)) => assert_eq!(id, "x"),
        other => panic!("{other:?}"),
    }
    assert!(discover(ServiceReport::Other, SinkKind::AirPlay).is_none());
}

fn chromecast() -> MdnsSink {
    let service = announcement(&[(ROUTED, "192.168.68.114")]);
    MdnsSink::from_service(&service, SinkKind::Chromecast)
}

#[test]
fn only_a_reachable_chromecast_streams() {
    assert_eq!(chromecast().start_stream().unwrap(), ROUTED);

    let service = announcement(&[(ROUTED, "192.168.68.114")]);
    let mut airplay = MdnsSink::from_service(&service, SinkKind::AirPlay);
    assert!(matches!(airplay.start_stream(), Err(NdError::Unsupported(_))));
    assert_eq!(airplay.status.state(), SinkState::Error);

    let mut lost = MdnsSink::from_service(&announcement(&[]), SinkKind::Chromecast);
    assert_eq!(
        lost.start_stream().unwrap_err().message(),
        "network: the receiver was announced with no usable IP address"
    );
    assert_eq!(
        lost.status.message().as_deref(),
        Some("the receiver was announced with no usable IP address")
    );
}

#[test]
fn only_a_refused_negotiation_falls_back() {
    let mut sink = chromecast();
    sink.status.fail("refused");
    let refused = Err(NdError::Unsupported("no app".into()));
    assert!(matches!(sink.after_mirroring(refused), AfterMirroring::UseHttp));
    assert_eq!(sink.status.state(), SinkState::Disconnected);

    let broken = Err(NdError::Network("gone".into()));
    assert!(matches!(sink.after_mirroring(broken), AfterMirroring::Done(Err(_))));
    assert!(matches!(sink.after_mirroring(Ok(())), AfterMirroring::Done(Ok(()))));
}

#[test]
fn the_end_of_a_cast_is_recorded() {
    let mut sink = chromecast();
    sink.status.set(SinkState::Streaming);
    assert!(sink.finish_stream(Ok(())).is_ok());
    assert_eq!(sink.status.state(), SinkState::Disconnected);
    assert!(sink.finish_stream(Err(NdError::Network("gone".into()))).is_err());
    assert_eq!(sink.status.message().as_deref(), Some("network: gone"));
    sink.stop_stream();
    assert_eq!(sink.status.state(), SinkState::Disconnected);
    assert!(sink.status.message().is_none());
}
