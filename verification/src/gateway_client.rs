//! Client for the push gateway REST API: which requests to make, to which
//! address, and what their responses mean.
//!
//! When the gateway base URL contains a domain name, it is resolved via DNS
//! SRV records. If the primary server fails, the next target in the SRV
//! priority list is tried. Sending requests and decoding JSON is left to the
//! caller.

use vstd::prelude::*;
use vstd::string::*;

use crate::dns::{SipTransport, SrvTarget};
use crate::host;
use crate::text;
use crate::types;
use crate::types::{
    CallOffer, DeviceRegistration, DeviceRegistrationResponse, MobileError, SipCredentials,
    SocketAddress,
};

verus! {

// ── Response bodies ─────────────────────────────────────────────────────────

/// Maximum size of a gateway JSON response we will buffer. Gateway payloads
/// are small (tokens, SDP, call metadata); anything larger is treated as
/// hostile. Bounding this prevents a malicious or MITM'd gateway from OOM-ing
/// the app by streaming an unbounded body.
pub const MAX_RESPONSE_BYTES: usize = 4 * 1024 * 1024;

/// A response body that is being read, never longer than
/// [`MAX_RESPONSE_BYTES`].
pub struct CappedBody {
    bytes: Vec<u8>,
}

impl View for CappedBody {
    type V = Seq<u8>;

    closed spec fn view(&self) -> Seq<u8> {
        self.bytes@
    }
}

/// `body` with `chunk` behind it, unless that would exceed the cap.
pub open spec fn capped_append(body: Seq<u8>, chunk: Seq<u8>) -> Option<Seq<u8>> {
    if body.len() + chunk.len() <= MAX_RESPONSE_BYTES {
        Some(body + chunk)
    } else {
        None
    }
}

/// A declared length over the cap.
pub open spec fn declared_too_long(declared: Option<u64>) -> bool {
    declared matches Some(len) && len > MAX_RESPONSE_BYTES
}

impl CappedBody {
    #[verifier::type_invariant]
    spec fn within_cap(self) -> bool {
        self.bytes@.len() <= MAX_RESPONSE_BYTES
    }

    /// Starts reading a body whose length was announced as `declared`.
    /// Rejects an oversized declared length up front.
    pub fn begin(declared: Option<u64>) -> (r: Result<CappedBody, MobileError>)
        ensures
            match r {
                Ok(body) => body@.len() == 0 && !declared_too_long(declared),
                Err(e) => e == MobileError::GatewayError && declared_too_long(declared),
            },
    {
        if let Some(len) = declared {
            if len > MAX_RESPONSE_BYTES as u64 {
                return Err(MobileError::GatewayError);
            }
        }
        Ok(CappedBody { bytes: Vec::new() })
    }

    /// Takes the next chunk, `None` if the connection failed. The body is
    /// capped as it arrives rather than after the whole thing is buffered.
    pub fn push(&mut self, chunk: Option<&[u8]>) -> (r: Result<(), MobileError>)
        ensures
            match chunk {
                None => r == Err::<(), MobileError>(MobileError::NetworkError) && final(self)@
                    == old(self)@,
                Some(data) => match capped_append(old(self)@, data@) {
                    Some(longer) => r is Ok && final(self)@ == longer,
                    None => r == Err::<(), MobileError>(MobileError::GatewayError) && final(self)@
                        == old(self)@,
                },
            },
    {
        proof {
            use_type_invariant(&*self);
        }
        match chunk {
            None => Err(MobileError::NetworkError),
            Some(data) => {
                if data.len() > MAX_RESPONSE_BYTES - self.bytes.len() {
                    return Err(MobileError::GatewayError);
                }
                let mut bytes: Vec<u8> = Vec::new();
                std::mem::swap(&mut bytes, &mut self.bytes);
                bytes.extend_from_slice(data);
                assert(bytes@ =~= old(self)@ + data@);
                self.bytes = bytes;
                Ok(())
            },
        }
    }

    /// The bytes read.
    pub fn bytes(&self) -> (r: &Vec<u8>)
        ensures
            r@ == self@,
            r@.len() <= MAX_RESPONSE_BYTES,
    {
        proof {
            use_type_invariant(self);
        }
        &self.bytes
    }
}

/// What a decoded body counts as: `None` stands for a body that is not the
/// JSON that was asked for.
pub fn decoded<T>(body: Option<T>) -> (r: Result<T, MobileError>)
    ensures
        match body {
            Some(value) => r == Ok::<T, MobileError>(value),
            None => r == Err::<T, MobileError>(MobileError::GatewayError),
        },
{
    match body {
        Some(value) => Ok(value),
        None => Err(MobileError::GatewayError),
    }
}

// ── URLs ────────────────────────────────────────────────────────────────────

/// A cleartext URL to a host that is not local.
pub open spec fn is_cleartext_remote(url: Seq<char>) -> bool {
    "http://"@.is_prefix_of(url) && !host::is_local_host(host::host_part(url.skip(7)))
}

/// The base URL to use for `url`.
pub open spec fn enforced(url: Seq<char>) -> Seq<char> {
    if is_cleartext_remote(url) {
        "https://"@ + url.skip(7)
    } else {
        url
    }
}

/// Enforce TLS on the gateway base URL to protect the SIP password and JWT
/// bearer token in transit. A `http://` URL to a non-loopback host is upgraded
/// to `https://` (an on-path attacker on a cleartext link could otherwise
/// capture full account credentials). Cleartext is tolerated only for local
/// development against loopback / `.local` hosts.
pub fn enforce_https(base_url: String) -> (r: String)
    ensures
        r@ == enforced(base_url@),
{
    let c = text::chars_of(base_url.as_str());
    let n = c.len();
    proof {
        reveal_strlit("http://");
        assert(c@.subrange(0, n as int) =~= c@);
    }
    if text::has_prefix(&c, 0, n, "http://") {
        if !host::points_at_local_host(&c, 7) {
            let rest = base_url.as_str().substring_char(7, n);
            assert(rest@ =~= base_url@.skip(7));
            return text::join2("https://", rest);
        }
    }
    base_url
}

/// The port that a scheme implies.
pub open spec fn is_default_port(scheme: Seq<char>, port: u16) -> bool {
    if scheme == "https"@ {
        port == 443
    } else {
        port == 80
    }
}

/// A URL with `domain` as its host.
pub open spec fn target_url(
    scheme: Seq<char>,
    domain: Seq<char>,
    port: u16,
    path_prefix: Seq<char>,
) -> Seq<char> {
    let host_port = if is_default_port(scheme, port) {
        domain
    } else {
        domain + ":"@ + text::decimal(port as nat)
    };
    scheme + "://"@ + host_port + path_prefix
}

/// Build a failover URL that keeps `domain` as the host (so TLS validates
/// against it) using the target `port`. The port is omitted when it is the
/// scheme default, mirroring how the base URL is normally written.
pub fn build_target_url(scheme: &str, domain: &str, port: u16, path_prefix: &str) -> (r: String)
    ensures
        r@ == target_url(scheme@, domain@, port, path_prefix@),
{
    let is_tls = text::same_text(scheme, "https");
    let mut host_port = domain.to_owned();
    if !((is_tls && port == 443) || (!is_tls && port == 80)) {
        host_port.append(":");
        text::push_decimal(&mut host_port, port as u64);
    }
    let mut url = text::join3(scheme, "://", host_port.as_str());
    url.append(path_prefix);
    url
}

/// The parts of a URL that resolution reads.
#[derive(Debug)]
pub struct UrlParts {
    pub scheme: String,
    /// Host, where it is a domain name and not an address.
    pub domain: Option<String>,
    /// Port, where the URL gives one that is not its scheme's default.
    pub port: Option<u16>,
    pub path: String,
}

/// [`UrlParts`] as plain values: scheme, domain, port and path.
pub type UrlPartsView = (Seq<char>, Option<Seq<char>>, Option<u16>, Seq<char>);

impl View for UrlParts {
    type V = UrlPartsView;

    open spec fn view(&self) -> UrlPartsView {
        (
            self.scheme@,
            match self.domain {
                Some(domain) => Some(domain@),
                None => None,
            },
            self.port,
            self.path@,
        )
    }
}

/// The scheme, domain, port and path that `reqwest::Url::parse` reads from a
/// text; nothing if it does not accept the text as a URL.
pub uninterp spec fn parsed_url(text: Seq<char>) -> Option<UrlPartsView>;

/// Calls `reqwest::Url::parse` and copies scheme, domain, port and path out of
/// the result. A URL whose host is an IP address has no domain. What they are for a given text is left to the URL standard.
#[verifier::external_body]
fn parse_url(text: &str) -> (r: Option<UrlParts>)
    ensures
        match r {
            Some(parts) => parsed_url(text@) == Some(parts@),
            None => parsed_url(text@) is None,
        },
{
    match reqwest::Url::parse(text) {
        Ok(url) => Some(
            UrlParts {
                scheme: url.scheme().to_string(),
                domain: url.domain().map(str::to_owned),
                port: url.port(),
                path: url.path().to_string(),
            },
        ),
        Err(_) => None,
    }
}

// ── Requests ────────────────────────────────────────────────────────────────

#[derive(Debug)]
pub struct TokenRequest {
    pub user_id: String,
    pub api_key: String,
}

#[derive(Debug)]
pub struct TokenResponse {
    pub token: String,
    /// Token lifetime in seconds, as reported by the gateway. Used to schedule
    /// a transparent refresh before expiry.
    pub expires_in: u64,
}

#[derive(Debug)]
pub struct RegisterDeviceRequest {
    pub platform: String,
    pub push_token: String,
    pub bundle_id: Option<String>,
    pub sip_username: String,
    pub sip_password: String,
    pub sip_domain: String,
    pub sip_registrar: Option<String>,
    pub sip_transport: String,
    pub sip_port: u16,
    pub sip_auth_username: Option<String>,
    pub sip_display_name: String,
}

#[derive(Debug)]
pub struct RegisterDeviceResponse {
    pub device_id: String,
    pub status: String,
}

#[derive(Debug)]
pub struct GatewayCallOffer {
    pub call_token: String,
    pub caller_uri: String,
    pub caller_name: Option<String>,
    pub sdp_offer: String,
}

#[derive(Debug)]
pub struct AcceptCallRequest {
    pub sdp_answer: String,
}

#[derive(Debug)]
pub struct MakeCallRequest {
    pub destination_uri: String,
    pub sdp_offer: String,
    pub sip_username: String,
    pub sip_password: String,
    pub sip_domain: String,
    pub sip_registrar: Option<String>,
    pub sip_transport: String,
    pub sip_port: u16,
    pub sip_auth_username: Option<String>,
    pub sip_display_name: String,
}

#[derive(Debug)]
pub struct MakeCallResponse {
    pub call_token: String,
    pub sdp_answer: String,
}

#[derive(Debug, Clone, Copy, PartialEq, Eq, Structural)]
pub enum HttpMethod {
    Get,
    Post,
    Delete,
}

/// Over which connection a request goes.
#[derive(Debug, Clone, Copy, PartialEq, Eq, Structural)]
pub enum Route {
    /// To wherever the host of the URL resolves.
    Base,
    /// To the address of the resolved target with this index.
    Target(usize),
}

/// The JSON body of a request.
#[derive(Debug)]
pub enum RequestBody {
    Empty,
    Token(TokenRequest),
    Register(RegisterDeviceRequest),
    Accept(AcceptCallRequest),
    MakeCall(MakeCallRequest),
}

/// One request to the gateway.
#[derive(Debug)]
pub struct HttpRequest {
    pub method: HttpMethod,
    pub route: Route,
    pub url: String,
    /// Bearer token to authenticate with.
    pub bearer: Option<String>,
    pub body: RequestBody,
}

/// A resolved SRV failover target.
///
/// The `url` keeps the **original gateway hostname** as its host so TLS SNI
/// and certificate validation are performed against the domain (matching the
/// cert's SANs), while the connection is pinned to `addr`. A URL with a bare
/// IP as its host would make TLS reject the certificate on a hostname
/// mismatch, and break HTTPS failover.
#[derive(Debug)]
pub struct ResolvedTarget {
    pub url: String,
    pub domain: String,
    pub addr: SocketAddress,
}

/// [`ResolvedTarget`] as plain values.
pub struct TargetView {
    pub url: Seq<char>,
    pub domain: Seq<char>,
    pub addr: SocketAddress,
}

impl View for ResolvedTarget {
    type V = TargetView;

    open spec fn view(&self) -> TargetView {
        TargetView { url: self.url@, domain: self.domain@, addr: self.addr }
    }
}

/// What to look up before talking to the gateway.
#[derive(Debug)]
pub struct SrvQuery {
    pub domain: String,
    pub transport: SipTransport,
    pub port: u16,
}

/// [`GatewayClient`] as plain values.
pub struct GatewayView {
    pub base_url: Seq<char>,
    pub api_key: Seq<char>,
    pub targets: Seq<TargetView>,
}

/// The gateway's address and key, and the failover targets found for it.
pub struct GatewayClient {
    base_url: String,
    api_key: String,
    /// Resolved gateway failover targets from SRV lookup, ordered by priority.
    /// First entry is the primary; rest are failover targets.
    resolved_targets: Vec<ResolvedTarget>,
}

impl View for GatewayClient {
    type V = GatewayView;

    closed spec fn view(&self) -> GatewayView {
        GatewayView {
            base_url: self.base_url@,
            api_key: self.api_key@,
            targets: self.resolved_targets@.map_values(|t: ResolvedTarget| t@),
        }
    }
}

/// `path` under a base URL, with exactly the slash of `path` between them.
pub open spec fn url_under(base: Seq<char>, path: Seq<char>) -> Seq<char> {
    text::trim_end_matches(base, '/') + path
}

/// Where attempt `idx` of a request goes.
pub open spec fn request_target(g: GatewayView, idx: int, path: Seq<char>) -> (Route, Seq<char>) {
    if 0 <= idx < g.targets.len() {
        (Route::Target(idx as usize), url_under(g.targets[idx].url, path))
    } else {
        (Route::Base, url_under(g.base_url, path))
    }
}

/// How many targets there are to try; the base URL counts as one if nothing
/// is resolved.
pub open spec fn target_count(g: GatewayView) -> nat {
    if g.targets.len() == 0 {
        1
    } else {
        g.targets.len()
    }
}

/// `request` asks for `path` by `method`, as attempt `idx`.
pub open spec fn asks(
    g: GatewayView,
    request: HttpRequest,
    method: HttpMethod,
    idx: int,
    path: Seq<char>,
) -> bool {
    &&& request.method == method
    &&& request.route == request_target(g, idx, path).0
    &&& request.url@ == request_target(g, idx, path).1
}

/// `request` asks for `path` by `method`, over the base connection.
pub open spec fn asks_base(
    g: GatewayView,
    request: HttpRequest,
    method: HttpMethod,
    path: Seq<char>,
) -> bool {
    &&& request.method == method
    &&& request.route == Route::Base
    &&& request.url@ == url_under(g.base_url, path)
}

/// `request` authenticates with `token`.
pub open spec fn bears(request: HttpRequest, token: Seq<char>) -> bool {
    request.bearer matches Some(t) && t@ == token
}

/// What to look up for a gateway at `parts`, unless its host is an IP address
/// already (or it has none).
pub open spec fn srv_query_of(parts: UrlPartsView) -> Option<(Seq<char>, SipTransport, u16)> {
    match parts.1 {
        Some(domain) => if host::dotted_quad(domain) is Some {
            None
        } else if parts.0 == "https"@ {
            Some((domain, SipTransport::Tls, parts.2.unwrap_or(443)))
        } else {
            Some((domain, SipTransport::Tcp, parts.2.unwrap_or(80)))
        },
        None => None,
    }
}

/// The failover target for one resolved address of the gateway at `parts`.
pub open spec fn failover_target(parts: UrlPartsView, domain: Seq<char>, t: SrvTarget) -> TargetView {
    TargetView {
        url: target_url(parts.0, domain, t.port, text::trim_end_matches(parts.3, '/')),
        domain,
        addr: t.addr,
    }
}

/// The gateway after its domain resolved to `found`.
pub open spec fn with_targets(
    g: GatewayView,
    parts: UrlPartsView,
    found: Seq<SrvTarget>,
) -> GatewayView {
    match parts.1 {
        Some(domain) => if found.len() == 0 {
            g
        } else {
            GatewayView {
                targets: found.map_values(|t: SrvTarget| failover_target(parts, domain, t)),
                ..g
            }
        },
        None => g,
    }
}

impl GatewayClient {
    /// A client for the gateway at `base_url`, upgraded to TLS where needed.
    pub fn new(base_url: String, api_key: String) -> (r: Self)
        ensures
            r@ == (GatewayView {
                base_url: enforced(base_url@),
                api_key: api_key@,
                targets: Seq::empty(),
            }),
    {
        let r = GatewayClient {
            base_url: enforce_https(base_url),
            api_key,
            resolved_targets: Vec::new(),
        };
        assert(r@.targets =~= Seq::<TargetView>::empty());
        r
    }

    /// Check if the api_key looks like a JWT (starts with "eyJ").
    pub fn api_key_is_jwt(&self) -> (r: bool)
        ensures
            r == "eyJ"@.is_prefix_of(self@.api_key),
    {
        let c = text::chars_of(self.api_key.as_str());
        assert(c@.subrange(0, c@.len() as int) =~= c@);
        text::has_prefix(&c, 0, c.len(), "eyJ")
    }

    /// Get the raw api_key value.
    pub fn api_key(&self) -> (r: &str)
        ensures
            r@ == self@.api_key,
    {
        self.api_key.as_str()
    }

    /// Get the base URL.
    pub fn base_url(&self) -> (r: &str)
        ensures
            r@ == self@.base_url,
    {
        self.base_url.as_str()
    }

    /// `path` under the base URL.
    pub fn url(&self, path: &str) -> (r: String)
        ensures
            r@ == url_under(self@.base_url, path@),
    {
        text::join2(text::without_trailing(self.base_url.as_str(), '/'), path)
    }

    /// Select the connection and URL to use for a given failover target index.
    ///
    /// For a resolved SRV target this is the connection pinned to that
    /// target's address together with a URL whose host is the original gateway
    /// domain. Falls back to the base URL when no such target is resolved.
    pub fn target_request(&self, target_idx: usize, path: &str) -> (r: (Route, String))
        ensures
            r.0 == request_target(self@, target_idx as int, path@).0,
            r.1@ == request_target(self@, target_idx as int, path@).1,
    {
        if target_idx < self.resolved_targets.len() {
            let target = &self.resolved_targets[target_idx];
            assert(self@.targets[target_idx as int] == target@);
            (
                Route::Target(target_idx),
                text::join2(text::without_trailing(target.url.as_str(), '/'), path),
            )
        } else {
            (Route::Base, self.url(path))
        }
    }

    /// The resolved failover targets, in order of preference.
    pub fn resolved_targets(&self) -> (r: &Vec<ResolvedTarget>)
        ensures
            r@.map_values(|t: ResolvedTarget| t@) == self@.targets,
    {
        &self.resolved_targets
    }

    /// Get the number of gateway targets available for failover.
    pub fn resolved_target_count(&self) -> (r: usize)
        ensures
            r == target_count(self@),
            r >= 1,
    {
        if self.resolved_targets.len() == 0 {
            1
        } else {
            self.resolved_targets.len()
        }
    }

    /// First step of resolving the gateway: the parts of its base URL. `None`
    /// if the base URL is not a URL; then there is nothing to resolve.
    pub fn resolve_gateway(&self) -> (r: Option<UrlParts>)
        ensures
            match r {
                Some(parts) => parsed_url(self@.base_url) == Some(parts@),
                None => parsed_url(self@.base_url) is None,
            },
    {
        parse_url(self.base_url.as_str())
    }

    /// Second step: what to look up for the gateway. If the host is already an
    /// IP address, SRV resolution is skipped. (A URL of a scheme that the URL
    /// standard does not know may hold a dotted quad for a domain.)
    pub fn srv_query(parts: &UrlParts) -> (r: Option<SrvQuery>)
        ensures
            match r {
                Some(q) => srv_query_of(parts@) == Some((q.domain@, q.transport, q.port)),
                None => srv_query_of(parts@) is None,
            },
    {
        match &parts.domain {
            Some(domain) => {
                if host::read_dotted_quad(domain.as_str()).is_some() {
                    return None;
                }
                let is_tls = text::same_text(parts.scheme.as_str(), "https");
                let default_port: u16 = if is_tls {
                    443
                } else {
                    80
                };
                let port: u16 = match parts.port {
                    Some(port) => port,
                    None => default_port,
                };
                let transport = if is_tls {
                    SipTransport::Tls
                } else {
                    SipTransport::Tcp
                };
                Some(SrvQuery { domain: domain.clone(), transport, port })
            },
            None => None,
        }
    }

    /// Third step: takes the outcome of the lookup. Targets replace the ones
    /// known before; an empty or failed lookup changes nothing.
    pub fn adopt_targets(&mut self, parts: &UrlParts, outcome: &Result<Vec<SrvTarget>, String>)
        ensures
            final(self)@ == match outcome {
                Ok(found) => with_targets(old(self)@, parts@, found@),
                Err(_) => old(self)@,
            },
    {
        if let (Ok(found), Some(domain)) = (outcome, &parts.domain) {
            if found.len() == 0 {
                return;
            }
            let prefix = text::without_trailing(parts.path.as_str(), '/');
            let mut targets: Vec<ResolvedTarget> = Vec::new();
            let mut i: usize = 0;
            while i < found.len()
                invariant
                    i <= found@.len(),
                    parts.domain == Some(*domain),
                    prefix@ == text::trim_end_matches(parts.path@, '/'),
                    targets@.len() == i,
                    forall|j: int|
                        0 <= j < i ==> (#[trigger] targets@[j])@ == failover_target(
                            parts@,
                            domain@,
                            found@[j],
                        ),
                decreases found@.len() - i,
            {
                targets.push(
                    ResolvedTarget {
                        url: build_target_url(
                            parts.scheme.as_str(),
                            domain.as_str(),
                            found[i].port,
                            prefix,
                        ),
                        domain: domain.clone(),
                        addr: found[i].addr,
                    },
                );
                i = i + 1;
            }
            self.resolved_targets = targets;
            assert(self@.targets =~= with_targets(old(self)@, parts@, found@).targets);
        }
    }

    /// Request for a JWT auth token, to failover target `idx`.
    pub fn create_token(&self, user_id: &str, idx: usize) -> (r: HttpRequest)
        ensures
            asks(self@, r, HttpMethod::Post, idx as int, "/v1/auth/token"@),
            r.bearer is None,
            r.body matches RequestBody::Token(body) && body.user_id@ == user_id@ && body.api_key@
                == self@.api_key,
    {
        let (route, url) = self.target_request(idx, "/v1/auth/token");
        HttpRequest {
            method: HttpMethod::Post,
            route,
            url,
            bearer: None,
            body: RequestBody::Token(
                TokenRequest { user_id: user_id.to_owned(), api_key: self.api_key.clone() },
            ),
        }
    }

    /// Request that registers a device, to failover target `idx`.
    ///
    /// The gateway resolves the SIP registrar itself: the registration goes
    /// out as it is.
    pub fn register_device(&self, token: &str, registration: &DeviceRegistration, idx: usize) -> (r:
        HttpRequest)
        ensures
            asks(self@, r, HttpMethod::Post, idx as int, "/v1/devices"@),
            bears(r, token@),
            r.body matches RequestBody::Register(body) && body == (RegisterDeviceRequest {
                platform: registration.platform,
                push_token: registration.push_token,
                bundle_id: registration.bundle_id,
                sip_username: registration.sip.username,
                sip_password: registration.sip.password,
                sip_domain: registration.sip.domain,
                sip_registrar: registration.sip.registrar,
                sip_transport: registration.sip.transport,
                sip_port: registration.sip.port,
                sip_auth_username: registration.sip.auth_username,
                sip_display_name: registration.sip.display_name,
            }),
    {
        let (route, url) = self.target_request(idx, "/v1/devices");
        HttpRequest {
            method: HttpMethod::Post,
            route,
            url,
            bearer: Some(token.to_owned()),
            body: RequestBody::Register(
                RegisterDeviceRequest {
                    platform: registration.platform.clone(),
                    push_token: registration.push_token.clone(),
                    bundle_id: types::clone_text(&registration.bundle_id),
                    sip_username: registration.sip.username.clone(),
                    sip_password: registration.sip.password.clone(),
                    sip_domain: registration.sip.domain.clone(),
                    sip_registrar: types::clone_text(&registration.sip.registrar),
                    sip_transport: registration.sip.transport.clone(),
                    sip_port: registration.sip.port,
                    sip_auth_username: types::clone_text(&registration.sip.auth_username),
                    sip_display_name: registration.sip.display_name.clone(),
                },
            ),
        }
    }

    /// Request for a device heartbeat, which forces SIP re-registration after
    /// a network change, to failover target `idx`.
    pub fn device_heartbeat(&self, token: &str, device_id: &str, idx: usize) -> (r: HttpRequest)
        ensures
            asks(
                self@,
                r,
                HttpMethod::Post,
                idx as int,
                "/v1/devices/"@ + device_id@ + "/heartbeat"@,
            ),
            bears(r, token@),
            r.body is Empty,
    {
        let path = text::join3("/v1/devices/", device_id, "/heartbeat");
        let (route, url) = self.target_request(idx, path.as_str());
        HttpRequest {
            method: HttpMethod::Post,
            route,
            url,
            bearer: Some(token.to_owned()),
            body: RequestBody::Empty,
        }
    }

    /// A request over the base connection, authenticated by `token`.
    fn base_request(
        &self,
        method: HttpMethod,
        path: &str,
        token: &str,
        body: RequestBody,
    ) -> (r: HttpRequest)
        ensures
            asks_base(self@, r, method, path@),
            bears(r, token@),
            r.body == body,
    {
        HttpRequest {
            method,
            route: Route::Base,
            url: self.url(path),
            bearer: Some(token.to_owned()),
            body,
        }
    }

    /// Request that unregisters a device.
    pub fn unregister_device(&self, token: &str, device_id: &str) -> (r: HttpRequest)
        ensures
            asks_base(self@, r, HttpMethod::Delete, "/v1/devices/"@ + device_id@),
            bears(r, token@),
            r.body is Empty,
    {
        let path = text::join2("/v1/devices/", device_id);
        self.base_request(HttpMethod::Delete, path.as_str(), token, RequestBody::Empty)
    }

    /// Request for the call offer of a pending incoming call.
    pub fn get_call_offer(&self, token: &str, call_token: &str) -> (r: HttpRequest)
        ensures
            asks_base(self@, r, HttpMethod::Get, "/v1/calls/"@ + call_token@),
            bears(r, token@),
            r.body is Empty,
    {
        let path = text::join2("/v1/calls/", call_token);
        self.base_request(HttpMethod::Get, path.as_str(), token, RequestBody::Empty)
    }

    /// Request that accepts an incoming call by sending the SDP answer.
    pub fn accept_call(&self, token: &str, call_token: &str, sdp_answer: &str) -> (r: HttpRequest)
        ensures
            asks_base(self@, r, HttpMethod::Post, "/v1/calls/"@ + call_token@ + "/accept"@),
            bears(r, token@),
            r.body matches RequestBody::Accept(body) && body.sdp_answer@ == sdp_answer@,
    {
        let path = text::join3("/v1/calls/", call_token, "/accept");
        self.base_request(
            HttpMethod::Post,
            path.as_str(),
            token,
            RequestBody::Accept(AcceptCallRequest { sdp_answer: sdp_answer.to_owned() }),
        )
    }

    /// Request that rejects an incoming call.
    pub fn reject_call(&self, token: &str, call_token: &str) -> (r: HttpRequest)
        ensures
            asks_base(self@, r, HttpMethod::Post, "/v1/calls/"@ + call_token@ + "/reject"@),
            bears(r, token@),
            r.body is Empty,
    {
        let path = text::join3("/v1/calls/", call_token, "/reject");
        self.base_request(HttpMethod::Post, path.as_str(), token, RequestBody::Empty)
    }

    /// Request that initiates an outgoing call, to failover target `idx`.
    /// The gateway acts as a B2BUA: it sends the SIP INVITE on our behalf and
    /// returns the SDP answer from the remote party.
    pub fn make_call(
        &self,
        token: &str,
        destination_uri: &str,
        sdp_offer: &str,
        credentials: &SipCredentials,
        idx: usize,
    ) -> (r: HttpRequest)
        ensures
            asks(self@, r, HttpMethod::Post, idx as int, "/v1/calls"@),
            bears(r, token@),
            r.body matches RequestBody::MakeCall(body) && body.destination_uri@
                == destination_uri@ && body.sdp_offer@ == sdp_offer@ && body == (MakeCallRequest {
                destination_uri: body.destination_uri,
                sdp_offer: body.sdp_offer,
                sip_username: credentials.username,
                sip_password: credentials.password,
                sip_domain: credentials.domain,
                sip_registrar: credentials.registrar,
                sip_transport: credentials.transport,
                sip_port: credentials.port,
                sip_auth_username: credentials.auth_username,
                sip_display_name: credentials.display_name,
            }),
    {
        let (route, url) = self.target_request(idx, "/v1/calls");
        HttpRequest {
            method: HttpMethod::Post,
            route,
            url,
            bearer: Some(token.to_owned()),
            body: RequestBody::MakeCall(
                MakeCallRequest {
                    destination_uri: destination_uri.to_owned(),
                    sdp_offer: sdp_offer.to_owned(),
                    sip_username: credentials.username.clone(),
                    sip_password: credentials.password.clone(),
                    sip_domain: credentials.domain.clone(),
                    sip_registrar: types::clone_text(&credentials.registrar),
                    sip_transport: credentials.transport.clone(),
                    sip_port: credentials.port,
                    sip_auth_username: types::clone_text(&credentials.auth_username),
                    sip_display_name: credentials.display_name.clone(),
                },
            ),
        }
    }

    /// Request for the status of a call.
    pub fn get_call_status(&self, token: &str, call_token: &str) -> (r: HttpRequest)
        ensures
            asks_base(self@, r, HttpMethod::Get, "/v1/calls/"@ + call_token@ + "/status"@),
            bears(r, token@),
            r.body is Empty,
    {
        let path = text::join3("/v1/calls/", call_token, "/status");
        self.base_request(HttpMethod::Get, path.as_str(), token, RequestBody::Empty)
    }

    /// Request that hangs up an active call.
    pub fn hangup_call(&self, token: &str, call_token: &str) -> (r: HttpRequest)
        ensures
            asks_base(self@, r, HttpMethod::Post, "/v1/calls/"@ + call_token@ + "/hangup"@),
            bears(r, token@),
            r.body is Empty,
    {
        let path = text::join3("/v1/calls/", call_token, "/hangup");
        self.base_request(HttpMethod::Post, path.as_str(), token, RequestBody::Empty)
    }
}

impl RegisterDeviceResponse {
    /// The registration that this response to a request with `token` means.
    pub fn registered(self, token: &str) -> (r: DeviceRegistrationResponse)
        ensures
            r.device_id == self.device_id,
            r.auth_token@ == token@,
    {
        DeviceRegistrationResponse { device_id: self.device_id, auth_token: token.to_owned() }
    }
}

impl GatewayCallOffer {
    /// The offer in the form that the app sees.
    pub fn into_offer(self) -> (r: CallOffer)
        ensures
            r == (CallOffer {
                call_token: self.call_token,
                caller_uri: self.caller_uri,
                caller_name: self.caller_name,
                sdp_offer: self.sdp_offer,
            }),
    {
        CallOffer {
            call_token: self.call_token,
            caller_uri: self.caller_uri,
            caller_name: self.caller_name,
            sdp_offer: self.sdp_offer,
        }
    }
}

} // verus!
