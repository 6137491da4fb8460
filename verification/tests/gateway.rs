use aria_mobile_core::dns::{SipTransport, SrvTarget};
use aria_mobile_core::exchange::{Endpoint, Exchange, Reply, Step};
use aria_mobile_core::gateway_client::{
    build_target_url, decoded, enforce_https, CappedBody, GatewayCallOffer, GatewayClient,
    HttpMethod, RegisterDeviceResponse, RequestBody, Route, MAX_RESPONSE_BYTES,
};
use aria_mobile_core::host::read_dotted_quad;
use aria_mobile_core::types::{
    DeviceRegistration, HttpFailure, IpAddress, MobileError, SipCredentials, SocketAddress,
};

fn client(base_url: &str, api_key: &str) -> GatewayClient {
    GatewayClient::new(base_url.to_string(), api_key.to_string())
}

fn v4(a: u32, b: u32, c: u32, d: u32) -> IpAddress {
    IpAddress::V4 { octets: (a << 24) | (b << 16) | (c << 8) | d }
}

fn target(port: u16, ip: IpAddress) -> SrvTarget {
    SrvTarget {
        host: "sip.example.com".to_string(),
        port,
        priority: 10,
        weight: 5,
        addr: SocketAddress { ip, port },
    }
}

fn credentials() -> SipCredentials {
    SipCredentials {
        username: "alice".to_string(),
        password: "wonder".to_string(),
        domain: "pbx.example.com".to_string(),
        registrar: Some("reg.example.com".to_string()),
        transport: "tls".to_string(),
        port: 5061,
        auth_username: None,
        display_name: "Alice".to_string(),
    }
}

fn resolved_client() -> GatewayClient {
    let mut c = client("https://gw.example.com/api/", "key");
    let parts = c.resolve_gateway().expect("a URL");
    let found = vec![target(443, v4(10, 0, 0, 1)), target(8443, v4(10, 0, 0, 2))];
    c.adopt_targets(&parts, &Ok(found));
    c
}

// Failover URLs must keep the original domain as the host (never a bare IP),
// otherwise the certificate is rejected on a hostname mismatch and HTTPS
// failover breaks.
#[test]
fn failover_url_keeps_domain_not_ip() {
    // Default TLS port -> host only, no explicit port.
    assert_eq!(
        build_target_url("https", "gw.example.com", 443, ""),
        "https://gw.example.com"
    );
    // Non-default TLS port -> domain:port, path preserved.
    assert_eq!(
        build_target_url("https", "gw.example.com", 8443, "/api"),
        "https://gw.example.com:8443/api"
    );
    // Default plain-HTTP port -> host only.
    assert_eq!(
        build_target_url("http", "gw.local", 80, ""),
        "http://gw.local"
    );
    // Non-default plain-HTTP port -> domain:port.
    assert_eq!(
        build_target_url("http", "127.0.0.1", 8080, ""),
        "http://127.0.0.1:8080"
    );
}

#[test]
fn port_is_written_when_it_is_the_other_schemes_default() {
    assert_eq!(build_target_url("https", "h", 80, ""), "https://h:80");
    assert_eq!(build_target_url("http", "h", 443, ""), "http://h:443");
    assert_eq!(build_target_url("https", "h", 0, "/p"), "https://h:0/p");
    assert_eq!(build_target_url("https", "h", 65535, ""), "https://h:65535");
}

#[test]
fn cleartext_is_upgraded_for_remote_hosts() {
    let upgraded = [
        ("http://gw.example.com", "https://gw.example.com"),
        ("http://gw.example.com:8080/api", "https://gw.example.com:8080/api"),
        ("http://localhost.example.com", "https://localhost.example.com"),
        ("http://localhost:x@gw.example.com/", "https://localhost:x@gw.example.com/"),
        ("http://a@localhost@gw.example.com", "https://a@localhost@gw.example.com"),
        ("http://gw.example.com?@localhost", "https://gw.example.com?@localhost"),
        ("http://gw.example.com#.local", "https://gw.example.com#.local"),
        ("http://gw.example.com\\@localhost", "https://gw.example.com\\@localhost"),
        ("http://[2001:db8::1]:8080/", "https://[2001:db8::1]:8080/"),
        ("http://[::1", "https://[::1"),
        ("http://[::1]gw.example.com/", "https://[::1]gw.example.com/"),
        ("http://[localhost]", "https://[localhost]"),
        ("http://[127.0.0.1]:8080", "https://[127.0.0.1]:8080"),
        ("http://[x.local]/", "https://[x.local]/"),
        ("http://", "https://"),
    ];
    for (given, expected) in upgraded {
        assert_eq!(enforce_https(given.to_string()), expected);
        assert_eq!(enforce_https(expected.to_string()), expected);
    }
}

#[test]
fn cleartext_is_kept_for_local_hosts() {
    for url in [
        "http://localhost",
        "http://localhost:3000/api",
        "http://127.0.0.1:8080",
        "http://printer.local/x",
        "http://user:pw@localhost:3000/",
        "http://localhost?q=/gw.example.com",
        "http://[::1]:8080",
        "http://[::1]",
        "http://::1/",
        "https://gw.example.com",
        "HTTP://gw.example.com",
        "gw.example.com",
        "",
    ] {
        assert_eq!(enforce_https(url.to_string()), url);
    }
}

#[test]
fn dotted_quads() {
    assert_eq!(read_dotted_quad("192.0.2.1"), Some(0xC000_0201));
    assert_eq!(read_dotted_quad("0.0.0.0"), Some(0));
    assert_eq!(read_dotted_quad("255.255.255.255"), Some(u32::MAX));
    for s in [
        "", "1.2.3", "1.2.3.4.5", "1.2.3.256", "01.2.3.4", "1.2.3.00", "+1.2.3.4", "1.2.3.", "a.b.c.d",
        " 1.2.3.4", "1.2.3.4:5", "1..2.3",
    ] {
        assert_eq!(read_dotted_quad(s), None, "{:?}", s);
    }
}

#[test]
fn new_client_enforces_tls() {
    let c = client("http://gw.example.com/", "key");
    assert_eq!(c.base_url(), "https://gw.example.com/");
    assert_eq!(c.api_key(), "key");
    assert_eq!(c.url("/v1/x"), "https://gw.example.com/v1/x");
    assert_eq!(c.resolved_target_count(), 1);
    assert!(c.resolved_targets().is_empty());
}

#[test]
fn trailing_slashes_of_the_base_do_not_matter() {
    for base in ["https://gw.example.com", "https://gw.example.com/", "https://gw.example.com///"] {
        assert_eq!(client(base, "k").url("/v1/calls"), "https://gw.example.com/v1/calls");
    }
}

#[test]
fn jwt_keys_are_recognised() {
    assert!(client("https://h", "eyJhbGciOi").api_key_is_jwt());
    assert!(client("https://h", "eyJ").api_key_is_jwt());
    assert!(!client("https://h", "eyj").api_key_is_jwt());
    assert!(!client("https://h", "ey").api_key_is_jwt());
    assert!(!client("https://h", "xeyJ").api_key_is_jwt());
}

#[test]
fn base_url_is_taken_apart() {
    let parts = client("https://GW.example.com:8443/api/v2/?q=1", "k").resolve_gateway().unwrap();
    assert_eq!(parts.scheme, "https");
    assert_eq!(parts.domain.as_deref(), Some("gw.example.com"));
    assert_eq!(parts.port, Some(8443));
    assert_eq!(parts.path, "/api/v2/");

    let parts = client("https://gw.example.com:443", "k").resolve_gateway().unwrap();
    assert_eq!(parts.port, None);
    assert_eq!(parts.path, "/");

    assert!(client("not a url", "k").resolve_gateway().is_none());
}

#[test]
fn srv_query_depends_on_scheme_and_port() {
    let q = |base: &str| {
        let parts = client(base, "k").resolve_gateway().unwrap();
        GatewayClient::srv_query(&parts).unwrap()
    };
    let tls = q("https://gw.example.com");
    assert_eq!((tls.domain.as_str(), tls.transport, tls.port), ("gw.example.com", SipTransport::Tls, 443));
    let other = q("https://gw.example.com:8443");
    assert_eq!(other.port, 8443);
    let clear = q("http://gw.local");
    assert_eq!((clear.domain.as_str(), clear.transport, clear.port), ("gw.local", SipTransport::Tcp, 80));
}

#[test]
fn addresses_and_missing_hosts_are_not_resolved() {
    for base in ["https://10.1.2.3", "https://[2001:db8::1]:8443/", "mailto:someone@example.com"] {
        let parts = client(base, "k").resolve_gateway().unwrap();
        assert_eq!(parts.domain, None);
        assert!(GatewayClient::srv_query(&parts).is_none());
    }
    // A scheme that the URL standard does not know leaves the quad as it is.
    let parts = client("gw://10.1.2.3", "k").resolve_gateway().unwrap();
    assert_eq!(parts.domain.as_deref(), Some("10.1.2.3"));
    assert!(GatewayClient::srv_query(&parts).is_none());
}

#[test]
fn resolved_targets_keep_domain_and_path() {
    let c = resolved_client();
    assert_eq!(c.resolved_target_count(), 2);
    let targets = c.resolved_targets();
    assert_eq!(targets[0].url, "https://gw.example.com/api");
    assert_eq!(targets[0].domain, "gw.example.com");
    assert_eq!(targets[0].addr, SocketAddress { ip: v4(10, 0, 0, 1), port: 443 });
    assert_eq!(targets[1].url, "https://gw.example.com:8443/api");
    assert_eq!(targets[1].addr.port, 8443);
}

#[test]
fn empty_or_failed_lookups_keep_the_targets() {
    let mut c = resolved_client();
    let parts = c.resolve_gateway().unwrap();
    c.adopt_targets(&parts, &Ok(Vec::new()));
    assert_eq!(c.resolved_target_count(), 2);
    c.adopt_targets(&parts, &Err("no answer".to_string()));
    assert_eq!(c.resolved_target_count(), 2);
    c.adopt_targets(&parts, &Ok(vec![target(443, v4(10, 0, 0, 9))]));
    assert_eq!(c.resolved_target_count(), 1);
}

#[test]
fn requests_go_to_targets_then_base() {
    let c = resolved_client();
    assert_eq!(
        c.target_request(1, "/v1/calls"),
        (Route::Target(1), "https://gw.example.com:8443/api/v1/calls".to_string())
    );
    assert_eq!(
        c.target_request(2, "/v1/calls"),
        (Route::Base, "https://gw.example.com/api/v1/calls".to_string())
    );
}

#[test]
fn token_request_carries_the_key() {
    let r = resolved_client().create_token("alice@pbx", 0);
    assert_eq!(r.method, HttpMethod::Post);
    assert_eq!(r.route, Route::Target(0));
    assert_eq!(r.url, "https://gw.example.com/api/v1/auth/token");
    assert_eq!(r.bearer, None);
    match r.body {
        RequestBody::Token(body) => {
            assert_eq!(body.user_id, "alice@pbx");
            assert_eq!(body.api_key, "key");
        }
        other => panic!("unexpected body {:?}", other),
    }
}

#[test]
fn registration_request_carries_the_registration() {
    let registration = DeviceRegistration {
        platform: "ios".to_string(),
        push_token: "push".to_string(),
        bundle_id: Some("com.example".to_string()),
        sip: credentials(),
    };
    let r = resolved_client().register_device("tok", &registration, 1);
    assert_eq!(r.route, Route::Target(1));
    assert_eq!(r.url, "https://gw.example.com:8443/api/v1/devices");
    assert_eq!(r.bearer.as_deref(), Some("tok"));
    match r.body {
        RequestBody::Register(b) => {
            assert_eq!(b.platform, "ios");
            assert_eq!(b.push_token, "push");
            assert_eq!(b.bundle_id.as_deref(), Some("com.example"));
            assert_eq!(b.sip_username, "alice");
            assert_eq!(b.sip_password, "wonder");
            assert_eq!(b.sip_domain, "pbx.example.com");
            assert_eq!(b.sip_registrar.as_deref(), Some("reg.example.com"));
            assert_eq!(b.sip_transport, "tls");
            assert_eq!(b.sip_port, 5061);
            assert_eq!(b.sip_auth_username, None);
            assert_eq!(b.sip_display_name, "Alice");
        }
        other => panic!("unexpected body {:?}", other),
    }
}

#[test]
fn call_request_carries_offer_and_credentials() {
    let r = resolved_client().make_call("tok", "sip:bob@pbx", "v=0", &credentials(), 0);
    assert_eq!(r.url, "https://gw.example.com/api/v1/calls");
    match r.body {
        RequestBody::MakeCall(b) => {
            assert_eq!(b.destination_uri, "sip:bob@pbx");
            assert_eq!(b.sdp_offer, "v=0");
            assert_eq!(b.sip_username, "alice");
            assert_eq!(b.sip_port, 5061);
        }
        other => panic!("unexpected body {:?}", other),
    }
}

#[test]
fn other_requests_use_the_base_connection() {
    let c = resolved_client();
    let base = "https://gw.example.com/api";
    let cases = vec![
        (c.unregister_device("t", "d1"), HttpMethod::Delete, "/v1/devices/d1"),
        (c.get_call_offer("t", "c1"), HttpMethod::Get, "/v1/calls/c1"),
        (c.reject_call("t", "c1"), HttpMethod::Post, "/v1/calls/c1/reject"),
        (c.get_call_status("t", "c1"), HttpMethod::Get, "/v1/calls/c1/status"),
        (c.hangup_call("t", "c1"), HttpMethod::Post, "/v1/calls/c1/hangup"),
    ];
    for (request, method, path) in cases {
        assert_eq!(request.method, method);
        assert_eq!(request.route, Route::Base);
        assert_eq!(request.url, format!("{}{}", base, path));
        assert_eq!(request.bearer.as_deref(), Some("t"));
        assert!(matches!(request.body, RequestBody::Empty));
    }
    let accept = c.accept_call("t", "c1", "answer");
    assert_eq!(accept.url, format!("{}/v1/calls/c1/accept", base));
    match accept.body {
        RequestBody::Accept(b) => assert_eq!(b.sdp_answer, "answer"),
        other => panic!("unexpected body {:?}", other),
    }
    let beat = c.device_heartbeat("t", "d1", 1);
    assert_eq!(beat.route, Route::Target(1));
    assert_eq!(beat.url, "https://gw.example.com:8443/api/v1/devices/d1/heartbeat");
}

#[test]
fn replies_turn_into_results() {
    let body = RegisterDeviceResponse { device_id: "d".to_string(), status: "ok".to_string() };
    let r = body.registered("tok");
    assert_eq!((r.device_id.as_str(), r.auth_token.as_str()), ("d", "tok"));

    let offer = GatewayCallOffer {
        call_token: "c".to_string(),
        caller_uri: "sip:x".to_string(),
        caller_name: Some("X".to_string()),
        sdp_offer: "v=0".to_string(),
    }
    .into_offer();
    assert_eq!(offer.call_token, "c");
    assert_eq!(offer.caller_uri, "sip:x");
    assert_eq!(offer.caller_name.as_deref(), Some("X"));
    assert_eq!(offer.sdp_offer, "v=0");

    assert_eq!(decoded(Some(7u8)), Ok(7));
    assert_eq!(decoded::<u8>(None), Err(MobileError::GatewayError));
}

// ── Response bodies ─────────────────────────────────────────────────────────

#[test]
fn bodies_are_collected_up_to_the_cap() {
    assert_eq!(MAX_RESPONSE_BYTES, 4_194_304);
    let mut body = CappedBody::begin(None).unwrap();
    assert_eq!(body.push(Some(b"ab")), Ok(()));
    assert_eq!(body.push(Some(b"")), Ok(()));
    assert_eq!(body.push(Some(b"cd")), Ok(()));
    assert_eq!(body.bytes().as_slice(), b"abcd");
    let rest = vec![7u8; MAX_RESPONSE_BYTES - 4];
    assert_eq!(body.push(Some(&rest)), Ok(()));
    assert_eq!(body.bytes().len(), MAX_RESPONSE_BYTES);
    assert_eq!(body.push(Some(b"x")), Err(MobileError::GatewayError));
    assert_eq!(body.bytes().len(), MAX_RESPONSE_BYTES);
}

#[test]
fn oversized_declarations_are_rejected_up_front() {
    assert!(CappedBody::begin(Some(4_194_304)).is_ok());
    assert_eq!(CappedBody::begin(Some(4_194_305)).err(), Some(MobileError::GatewayError));
    assert_eq!(CappedBody::begin(Some(u64::MAX)).err(), Some(MobileError::GatewayError));
}

#[test]
fn broken_connection_fails_the_body() {
    let mut body = CappedBody::begin(Some(3)).unwrap();
    assert_eq!(body.push(Some(b"ab")), Ok(()));
    assert_eq!(body.push(None), Err(MobileError::NetworkError));
    assert_eq!(body.bytes().as_slice(), b"ab");
}

// ── Exchanges ───────────────────────────────────────────────────────────────

const DOWN: Reply = Reply::Failed(HttpFailure { timed_out: false });
const SLOW: Reply = Reply::Failed(HttpFailure { timed_out: true });

fn run(c: &GatewayClient, endpoint: Endpoint, replies: &[Reply]) -> (usize, Step) {
    let mut exchange = Exchange::begin(c, endpoint);
    loop {
        let attempt = exchange.attempt();
        match exchange.on_reply(replies[attempt]) {
            Step::Retry(next) => exchange = next,
            step => return (attempt, step),
        }
    }
}

#[test]
fn first_answer_ends_the_exchange() {
    let c = resolved_client();
    assert!(matches!(run(&c, Endpoint::Token, &[Reply::Status(200), DOWN]), (0, Step::ReadBody)));
    assert!(matches!(run(&c, Endpoint::Token, &[DOWN, Reply::Status(201)]), (1, Step::ReadBody)));
    assert!(matches!(
        run(&c, Endpoint::Token, &[Reply::Status(401), Reply::Status(200)]),
        (0, Step::Failed(MobileError::AuthenticationError))
    ));
    assert!(matches!(
        run(&c, Endpoint::Register, &[DOWN, Reply::Status(500)]),
        (1, Step::Failed(MobileError::RegistrationFailed))
    ));
    assert!(matches!(
        run(&c, Endpoint::MakeCall, &[Reply::Status(300), DOWN]),
        (0, Step::Failed(MobileError::CallFailed))
    ));
}

#[test]
fn last_failure_is_reported() {
    let c = resolved_client();
    assert!(matches!(
        run(&c, Endpoint::Token, &[DOWN, SLOW]),
        (1, Step::Failed(MobileError::Timeout))
    ));
    assert!(matches!(
        run(&c, Endpoint::Register, &[SLOW, DOWN]),
        (1, Step::Failed(MobileError::NetworkError))
    ));
}

#[test]
fn heartbeat_goes_on_after_a_refusal() {
    let c = resolved_client();
    assert!(matches!(
        run(&c, Endpoint::Heartbeat, &[Reply::Status(404), Reply::Status(204)]),
        (1, Step::Done)
    ));
    assert!(matches!(
        run(&c, Endpoint::Heartbeat, &[Reply::Status(404), SLOW]),
        (1, Step::Failed(MobileError::NetworkError))
    ));
    assert!(matches!(
        run(&c, Endpoint::Heartbeat, &[SLOW, Reply::Status(500)]),
        (1, Step::Failed(MobileError::NetworkError))
    ));
}

#[test]
fn other_requests_are_tried_once() {
    let c = resolved_client();
    for (endpoint, error) in [
        (Endpoint::Unregister, MobileError::GatewayError),
        (Endpoint::CallOffer, MobileError::CallFailed),
        (Endpoint::Accept, MobileError::CallFailed),
        (Endpoint::Reject, MobileError::CallFailed),
        (Endpoint::CallStatus, MobileError::CallFailed),
        (Endpoint::Hangup, MobileError::CallFailed),
    ] {
        match run(&c, endpoint, &[Reply::Status(199)]) {
            (0, Step::Failed(e)) => assert_eq!(e, error),
            other => panic!("unexpected end {:?}", other),
        }
        assert!(matches!(run(&c, endpoint, &[SLOW]), (0, Step::Failed(MobileError::Timeout))));
    }
    assert!(matches!(run(&c, Endpoint::CallOffer, &[Reply::Status(299)]), (0, Step::ReadBody)));
    assert!(matches!(run(&c, Endpoint::CallStatus, &[Reply::Status(200)]), (0, Step::ReadBody)));
    assert!(matches!(run(&c, Endpoint::Hangup, &[Reply::Status(204)]), (0, Step::Done)));
    assert!(matches!(run(&c, Endpoint::Unregister, &[Reply::Status(200)]), (0, Step::Done)));
}

#[test]
fn unresolved_gateway_is_tried_once() {
    let c = client("https://gw.example.com", "k");
    assert!(matches!(
        run(&c, Endpoint::Token, &[SLOW]),
        (0, Step::Failed(MobileError::Timeout))
    ));
}
