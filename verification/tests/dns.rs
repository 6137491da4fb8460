use aria_mobile_core::dns::{
    lookup_srv, order_records, sort_by_rank, srv_name, HostLookup, Lookup, SipTransport,
    SrvRecord, SrvResolver, SrvTarget,
};
use aria_mobile_core::types::{IpAddress, Moment, SocketAddress};

const SECOND: u64 = 1_000_000_000;

fn at(secs: u64) -> Moment {
    Moment { nanos: secs * SECOND }
}

fn ip(n: u32) -> IpAddress {
    IpAddress::V4 { octets: n }
}

fn record(priority: u16, weight: u16, port: u16, target: &str) -> SrvRecord {
    SrvRecord { priority, weight, port, target: target.to_string() }
}

fn target(host: &str, priority: u16, weight: u16) -> SrvTarget {
    SrvTarget {
        host: host.to_string(),
        port: 5060,
        priority,
        weight,
        addr: SocketAddress { ip: ip(1), port: 5060 },
    }
}

fn hosts(targets: &[SrvTarget]) -> Vec<String> {
    targets.iter().map(|t| t.host.clone()).collect()
}

#[test]
fn srv_names() {
    assert_eq!(srv_name("example.com", SipTransport::Udp), "_sip._udp.example.com");
    assert_eq!(srv_name("example.com", SipTransport::Tcp), "_sip._tcp.example.com");
    assert_eq!(srv_name("example.com", SipTransport::Tls), "_sips._tcp.example.com");
}

#[test]
fn low_priority_and_high_weight_come_first() {
    let sorted = sort_by_rank(vec![
        target("a", 20, 100),
        target("b", 10, 1),
        target("c", 10, 50),
        target("d", 10, 1),
        target("e", 0, 0),
    ]);
    assert_eq!(hosts(&sorted), ["e", "c", "b", "d", "a"]);
}

#[test]
fn records_are_ordered_like_targets() {
    let sorted = order_records(vec![record(2, 0, 1, "x."), record(1, 5, 2, "y."), record(1, 6, 3, "z.")]);
    let ports: Vec<u16> = sorted.iter().map(|r| r.port).collect();
    assert_eq!(ports, [3, 2, 1]);
}

#[test]
fn unresolved_records_are_dropped() {
    let records = vec![
        record(1, 9, 5061, "a.example.com."),
        record(1, 8, 5062, "b.example.com"),
        record(2, 0, 5063, "c.example.com.."),
    ];
    let targets = lookup_srv(&records, &vec![Some(ip(7)), None, Some(ip(9))]);
    assert_eq!(hosts(&targets), ["a.example.com", "c.example.com"]);
    assert_eq!(targets[1].addr, SocketAddress { ip: ip(9), port: 5063 });
    assert_eq!((targets[1].port, targets[1].priority, targets[1].weight), (5063, 2, 0));
    assert!(lookup_srv(&Vec::new(), &Vec::new()).is_empty());
}

fn query(r: &SrvResolver, transport: SipTransport, now: Moment) -> Result<Vec<SrvTarget>, String> {
    match r.resolve_sip_server("example.com", transport, 5060, now) {
        Lookup::Cached(targets) => Ok(targets),
        Lookup::Query(name) => Err(name),
    }
}

#[test]
fn srv_answers_are_cached_for_five_minutes() {
    let mut r = SrvResolver::new();
    let name = query(&r, SipTransport::Tls, at(10)).unwrap_err();
    assert_eq!(name, "_sips._tcp.example.com");
    let answer = r.srv_answered(&name, Some(vec![target("a", 1, 1)]), at(10)).unwrap();
    assert_eq!(hosts(&answer), ["a"]);
    assert_eq!(hosts(&query(&r, SipTransport::Tls, at(10)).unwrap()), ["a"]);
    assert_eq!(hosts(&query(&r, SipTransport::Tls, at(309)).unwrap()), ["a"]);
    assert!(query(&r, SipTransport::Tls, at(310)).is_err());
    // Another transport is another name.
    assert!(query(&r, SipTransport::Tcp, at(10)).is_err());
}

#[test]
fn empty_answers_are_not_cached() {
    let mut r = SrvResolver::new();
    let name = query(&r, SipTransport::Udp, at(0)).unwrap_err();
    assert!(r.srv_answered(&name, Some(Vec::new()), at(0)).is_none());
    assert!(r.srv_answered(&name, None, at(0)).is_none());
    assert!(query(&r, SipTransport::Udp, at(0)).is_err());
}

#[test]
fn fallback_is_cached_for_two_minutes() {
    let mut r = SrvResolver::new();
    let name = query(&r, SipTransport::Udp, at(0)).unwrap_err();
    let found = HostLookup::Addresses(vec![ip(3), ip(4)]);
    let targets = r.fallback_a_record("example.com", 5060, &name, found, at(0)).unwrap();
    assert_eq!(hosts(&targets), ["example.com", "example.com"]);
    assert_eq!(targets[1].addr, SocketAddress { ip: ip(4), port: 5060 });
    assert_eq!((targets[0].port, targets[0].priority, targets[0].weight), (5060, 0, 0));
    assert_eq!(query(&r, SipTransport::Udp, at(119)).unwrap().len(), 2);
    assert!(query(&r, SipTransport::Udp, at(120)).is_err());
}

#[test]
fn fallback_is_answered_at_the_port_asked_for() {
    let mut r = SrvResolver::new();
    let name = query(&r, SipTransport::Tcp, at(0)).unwrap_err();
    let found = HostLookup::Addresses(vec![ip(3), ip(4)]);
    let first = r.fallback_a_record("example.com", 80, &name, found, at(0)).unwrap();
    assert!(first.iter().all(|t| t.port == 80 && t.addr.port == 80));
    match r.resolve_sip_server("example.com", SipTransport::Tcp, 8080, at(60)) {
        Lookup::Cached(targets) => {
            assert_eq!(hosts(&targets), ["example.com", "example.com"]);
            assert_eq!(targets[0].addr, SocketAddress { ip: ip(3), port: 8080 });
            assert_eq!(targets[1].addr, SocketAddress { ip: ip(4), port: 8080 });
            assert!(targets.iter().all(|t| t.port == 8080));
        }
        Lookup::Query(name) => panic!("not cached: {}", name),
    }
    // SRV answers bring their own ports.
    r.cache_targets(&name, &vec![target("a", 1, 1)], 60, at(60));
    match r.resolve_sip_server("example.com", SipTransport::Tcp, 8080, at(61)) {
        Lookup::Cached(targets) => assert_eq!(targets[0].port, 5060),
        Lookup::Query(name) => panic!("not cached: {}", name),
    }
}

#[test]
fn fallback_errors() {
    let mut r = SrvResolver::new();
    let mut fail = |outcome: HostLookup| {
        r.fallback_a_record("example.com", 5060, "key", outcome, at(0)).unwrap_err()
    };
    assert_eq!(fail(HostLookup::TimedOut), "DNS lookup timed out for example.com:5060");
    assert_eq!(
        fail(HostLookup::Failed("no route".to_string())),
        "DNS resolve failed for example.com:5060: no route"
    );
    assert_eq!(
        fail(HostLookup::Addresses(Vec::new())),
        "No address found for example.com:5060"
    );
}

#[test]
fn cache_can_be_filled_and_cleared() {
    let mut r = SrvResolver::new();
    r.cache_targets("_sip._udp.example.com", &vec![target("a", 1, 1)], 60, at(0));
    r.cache_targets("_sip._tcp.example.com", &vec![target("b", 1, 1)], 60, at(0));
    assert_eq!(hosts(&query(&r, SipTransport::Udp, at(59)).unwrap()), ["a"]);
    r.cache_targets("_sip._udp.example.com", &vec![target("c", 1, 1)], 60, at(30));
    assert_eq!(hosts(&query(&r, SipTransport::Udp, at(89)).unwrap()), ["c"]);
    assert_eq!(hosts(&query(&r, SipTransport::Tcp, at(59)).unwrap()), ["b"]);
    r.clear_cache();
    assert!(query(&r, SipTransport::Udp, at(30)).is_err());
    assert!(query(&r, SipTransport::Tcp, at(0)).is_err());
}
