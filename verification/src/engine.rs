//! The engine: everything the core knows, and what it decides.
//!
//! Network, sockets and callbacks belong to the host. The host asks the engine
//! what to do, does it, and hands the outcome back.

use vstd::prelude::*;
use vstd::string::*;

use crate::ai;
use crate::ai::{AiDownloadProgress, AiModel, AiState, Download, ModelAvailability};
use crate::calls;
use crate::calls::{ActiveCallState, CallTable};
use crate::engine_laws;
use crate::gateway_client;
use crate::gateway_client::{
    GatewayCallOffer, GatewayClient, GatewayView, HttpMethod, HttpRequest, MakeCallResponse,
    RegisterDeviceResponse, RequestBody, Route,
};
use crate::media;
use crate::media::MobileMediaSession;
use crate::sdp;
use crate::table;
use crate::text;
use crate::types;
use crate::types::{
    AudioCodec, CallDirection, CallInfo, CallOffer, CallState, CallStatusResponse, Deadline,
    DeviceRegistration, DeviceRegistrationResponse, GatewayConfig, IpAddress, MediaCounters,
    MobileError, Moment,
};

verus! {

/// Refresh the gateway auth token this many seconds before it actually
/// expires, so an in-flight request never races the expiry boundary.
pub const TOKEN_REFRESH_SKEW_SECS: u64 = 60;

/// Length of the key that protects stored insights, in bytes.
pub const INSIGHT_KEY_LEN: usize = 32;

// ── State ───────────────────────────────────────────────────────────────────

/// [`AriaMobileEngine`] as plain values.
pub struct EngineView {
    pub gateway: GatewayView,
    pub calls: calls::Calls,
    pub auth_token: Option<Seq<char>>,
    pub token_expires_at: Option<Deadline>,
    pub device_id: Option<Seq<char>>,
    pub ai: Option<Map<Seq<char>, u64>>,
    pub codec_prefs: Seq<AudioCodec>,
    pub last_registration: Option<DeviceRegistration>,
    pub remote_ended: Seq<Seq<char>>,
}

pub struct AriaMobileEngine {
    gateway: GatewayClient,
    /// Active calls keyed by call_id.
    calls: CallTable,
    /// Auth token from gateway.
    auth_token: Option<String>,
    /// Deadline after which `auth_token` is considered expired, computed from
    /// the gateway's `expires_in`. `None` means "unknown lifetime" (e.g. an
    /// app-supplied JWT) and disables automatic refresh.
    token_expires_at: Option<Deadline>,
    /// Registered device ID.
    device_id: Option<String>,
    /// On-device AI, created by `ai_init`. `None` until a host asks for it.
    ai: Option<AiState>,
    /// Preferred codecs.
    codec_prefs: Vec<AudioCodec>,
    /// The most recent device registration, retained so `update_push_token`
    /// can re-register with a rotated push token without the app re-supplying
    /// the full SIP credentials.
    last_registration: Option<DeviceRegistration>,
    /// Call IDs that were ended by the remote party (detected via polling).
    /// The app checks this via `check_remote_hangup`.
    remote_ended: Vec<String>,
}

impl View for AriaMobileEngine {
    type V = EngineView;

    closed spec fn view(&self) -> EngineView {
        EngineView {
            gateway: self.gateway@,
            calls: self.calls@,
            auth_token: calls::text_view(self.auth_token),
            token_expires_at: self.token_expires_at,
            device_id: calls::text_view(self.device_id),
            ai: match self.ai {
                Some(state) => Some(state@),
                None => None,
            },
            codec_prefs: self.codec_prefs@,
            last_registration: self.last_registration,
            remote_ended: self.remote_ended@.map_values(|id: String| id@),
        }
    }
}

/// An engine that has just been created.
pub open spec fn fresh_engine(base_url: Seq<char>, api_key: Seq<char>) -> EngineView {
    EngineView {
        gateway: GatewayView {
            base_url: gateway_client::enforced(base_url),
            api_key,
            targets: Seq::empty(),
        },
        calls: Map::empty(),
        auth_token: None,
        token_expires_at: None,
        device_id: None,
        ai: None,
        codec_prefs: seq![AudioCodec::Opus, AudioCodec::Pcmu, AudioCodec::Pcma],
        last_registration: None,
        remote_ended: Seq::empty(),
    }
}

// ── Tokens ──────────────────────────────────────────────────────────────────

/// The key is a token already; the app manages its lifetime.
pub open spec fn key_is_jwt(e: EngineView) -> bool {
    "eyJ"@.is_prefix_of(e.gateway.api_key)
}

/// The account that a registration belongs to.
pub open spec fn user_of(registration: DeviceRegistration) -> Seq<char> {
    registration.sip.username@ + "@"@ + registration.sip.domain@
}

/// The token is missing, or expires within the refresh skew.
pub open spec fn needs_refresh(e: EngineView, now: Moment) -> bool {
    match (e.auth_token, e.token_expires_at) {
        (None, _) => true,
        (Some(_), Some(deadline)) => types::seconds_after(now, TOKEN_REFRESH_SKEW_SECS as nat)
            >= deadline.nanos,
        (Some(_), None) => false,
    }
}

/// Where the token for a request comes from.
#[derive(Debug)]
pub enum TokenPlan {
    /// Use this one.
    Use(String),
    /// Mint a new one for this user.
    Mint(String),
    /// There is none.
    Missing(MobileError),
}

/// [`TokenPlan`] as plain values.
pub enum TokenPlanView {
    Use(Seq<char>),
    Mint(Seq<char>),
    Missing(MobileError),
}

impl View for TokenPlan {
    type V = TokenPlanView;

    open spec fn view(&self) -> TokenPlanView {
        match *self {
            TokenPlan::Use(token) => TokenPlanView::Use(token@),
            TokenPlan::Mint(user) => TokenPlanView::Mint(user@),
            TokenPlan::Missing(e) => TokenPlanView::Missing(e),
        }
    }
}

/// The token at hand.
pub open spec fn held_token(e: EngineView) -> TokenPlanView {
    match e.auth_token {
        Some(token) => TokenPlanView::Use(token),
        None => TokenPlanView::Missing(MobileError::AuthenticationError),
    }
}

/// Where the token for a request comes from. A JWT is never re-minted, and a
/// token can be minted only for a registered account; in both cases the token
/// at hand has to do.
pub open spec fn token_plan(e: EngineView, now: Moment) -> TokenPlanView {
    if key_is_jwt(e) || !needs_refresh(e, now) {
        held_token(e)
    } else {
        match e.last_registration {
            Some(registration) => TokenPlanView::Mint(user_of(registration)),
            None => held_token(e),
        }
    }
}

/// The engine after a token was stored.
pub open spec fn with_token(
    e: EngineView,
    token: Seq<char>,
    expires_in: Option<u64>,
    now: Moment,
) -> EngineView {
    EngineView {
        auth_token: Some(token),
        token_expires_at: match expires_in {
            Some(secs) => Some(
                Deadline { nanos: types::seconds_after(now, secs as nat) as u128 },
            ),
            None => None,
        },
        ..e
    }
}

impl AriaMobileEngine {
    pub fn new(gateway_config: GatewayConfig) -> (r: Self)
        ensures
            r@ == fresh_engine(gateway_config.base_url@, gateway_config.api_key@),
    {
        let mut codec_prefs: Vec<AudioCodec> = Vec::new();
        codec_prefs.push(AudioCodec::Opus);
        codec_prefs.push(AudioCodec::Pcmu);
        codec_prefs.push(AudioCodec::Pcma);
        let r = AriaMobileEngine {
            gateway: GatewayClient::new(gateway_config.base_url, gateway_config.api_key),
            calls: CallTable::new(),
            auth_token: None,
            token_expires_at: None,
            device_id: None,
            ai: None,
            codec_prefs,
            last_registration: None,
            remote_ended: Vec::new(),
        };
        assert(r@.remote_ended =~= Seq::<Seq<char>>::empty());
        assert(r@.codec_prefs =~= seq![AudioCodec::Opus, AudioCodec::Pcmu, AudioCodec::Pcma]);
        r
    }

    /// The gateway that the engine talks to.
    pub fn gateway(&self) -> (r: &GatewayClient)
        ensures
            r@ == self@.gateway,
    {
        &self.gateway
    }

    /// Takes in the outcome of resolving the gateway.
    pub fn adopt_targets(
        &mut self,
        parts: &gateway_client::UrlParts,
        outcome: &Result<Vec<crate::dns::SrvTarget>, String>,
    )
        ensures
            final(self)@ == (EngineView {
                gateway: match outcome {
                    Ok(found) => gateway_client::with_targets(
                        old(self)@.gateway,
                        parts@,
                        found@,
                    ),
                    Err(_) => old(self)@.gateway,
                },
                ..old(self)@
            }),
    {
        self.gateway.adopt_targets(parts, outcome);
    }

    /// The token at hand.
    pub fn get_token(&self) -> (r: Result<String, MobileError>)
        ensures
            match r {
                Ok(token) => self@.auth_token == Some(token@),
                Err(e) => self@.auth_token is None && e == MobileError::AuthenticationError,
            },
    {
        match &self.auth_token {
            Some(token) => Ok(token.clone()),
            None => Err(MobileError::AuthenticationError),
        }
    }

    /// Store a freshly minted token and, when known, the deadline at which it
    /// expires (derived from the gateway's `expires_in` seconds). Passing
    /// `None` for `expires_in` disables automatic refresh for this token
    /// (used for app-supplied JWTs whose lifetime we don't manage).
    pub fn store_token(&mut self, token: String, expires_in: Option<u64>, now: Moment)
        ensures
            final(self)@ == with_token(old(self)@, token@, expires_in, now),
    {
        self.auth_token = Some(token);
        self.token_expires_at = match expires_in {
            Some(secs) => Some(now.after_secs(secs)),
            None => None,
        };
    }

    /// First step to a currently-valid auth token: use the one at hand, or
    /// mint a new one first if it is missing or within
    /// [`TOKEN_REFRESH_SKEW_SECS`] of expiry.
    ///
    /// App-supplied JWTs cannot be refreshed by us (the app is responsible for
    /// supplying a fresh one), so those are returned as-is with no refresh
    /// attempt (and no loop).
    pub fn ensure_valid_token(&self, now: Moment) -> (r: TokenPlan)
        ensures
            r@ == token_plan(self@, now),
    {
        let refresh = !self.gateway.api_key_is_jwt() && match (
            &self.auth_token,
            self.token_expires_at,
        ) {
            (None, _) => true,
            (Some(_), Some(deadline)) => now.after_secs(TOKEN_REFRESH_SKEW_SECS).nanos
                >= deadline.nanos,
            (Some(_), None) => false,
        };
        if refresh {
            if let Some(registration) = &self.last_registration {
                return TokenPlan::Mint(user_id(registration));
            }
        }
        match self.get_token() {
            Ok(token) => TokenPlan::Use(token),
            Err(e) => TokenPlan::Missing(e),
        }
    }

    /// Second step, after minting: the new token is stored and used. If
    /// minting failed, fall back to the existing token if we still have one,
    /// so a transient refresh failure doesn't break an otherwise-usable
    /// (possibly still-valid) token; otherwise surface the error.
    pub fn token_minted(&mut self, outcome: Result<(String, u64), MobileError>, now: Moment) -> (r:
        Result<String, MobileError>)
        ensures
            match outcome {
                Ok((token, expires_in)) => r is Ok && r->Ok_0@ == token@ && final(self)@
                    == with_token(old(self)@, token@, Some(expires_in), now),
                Err(e) => final(self)@ == old(self)@ && match old(self)@.auth_token {
                    Some(token) => r is Ok && r->Ok_0@ == token,
                    None => r == Err::<String, MobileError>(e),
                },
            },
    {
        match outcome {
            Ok((token, expires_in)) => {
                self.store_token(token.clone(), Some(expires_in), now);
                Ok(token)
            },
            Err(e) => match self.get_token() {
                Ok(token) => Ok(token),
                Err(_) => Err(e),
            },
        }
    }
}

/// The account that a registration belongs to.
fn user_id(registration: &DeviceRegistration) -> (r: String)
    ensures
        r@ == user_of(*registration),
{
    text::join3(
        registration.sip.username.as_str(),
        "@",
        registration.sip.domain.as_str(),
    )
}

// ── Device registration ─────────────────────────────────────────────────────

/// What to tell the app about a registration.
#[derive(Debug)]
pub struct RegistrationChanged {
    pub device_id: String,
    pub status: String,
    pub error: Option<String>,
}

/// Where the token for a registration comes from: the key, if it is a JWT,
/// else a new one is minted.
pub open spec fn registration_plan(
    e: EngineView,
    registration: DeviceRegistration,
) -> TokenPlanView {
    if key_is_jwt(e) {
        TokenPlanView::Use(e.gateway.api_key)
    } else {
        TokenPlanView::Mint(user_of(registration))
    }
}

/// The engine after a device was registered.
pub open spec fn registered(
    e: EngineView,
    registration: DeviceRegistration,
    token: Seq<char>,
    expires_in: Option<u64>,
    device_id: Seq<char>,
    now: Moment,
) -> EngineView {
    EngineView {
        last_registration: Some(registration),
        device_id: Some(device_id),
        ..with_token(e, token, expires_in, now)
    }
}

impl AriaMobileEngine {
    /// First step of a registration: use the key as token if it looks like a
    /// JWT, otherwise obtain a new token from the gateway.
    pub fn registration_token(&self, registration: &DeviceRegistration) -> (r: TokenPlan)
        ensures
            r@ == registration_plan(self@, *registration),
    {
        if self.gateway.api_key_is_jwt() {
            TokenPlan::Use(self.gateway.api_key().to_owned())
        } else {
            TokenPlan::Mint(user_id(registration))
        }
    }

    /// Second step, after the gateway replied to the registration that was
    /// sent with `token`. `expires_in` is `None` for a JWT (lifetime managed
    /// by the app) and the seconds for a minted token, which drives
    /// transparent refresh. The registration is retained so a later push-token
    /// rotation can re-register without the app re-supplying SIP credentials.
    pub fn register_device(
        &mut self,
        registration: DeviceRegistration,
        token: String,
        expires_in: Option<u64>,
        reply: Result<RegisterDeviceResponse, MobileError>,
        now: Moment,
    ) -> (r: Result<(DeviceRegistrationResponse, RegistrationChanged), MobileError>)
        ensures
            match reply {
                Ok(body) => {
                    &&& r is Ok
                    &&& r->Ok_0.0.device_id == body.device_id
                    &&& r->Ok_0.0.auth_token@ == token@
                    &&& r->Ok_0.1.device_id == body.device_id
                    &&& r->Ok_0.1.status@ == "registered"@
                    &&& r->Ok_0.1.error is None
                    &&& final(self)@ == registered(
                        old(self)@,
                        registration,
                        token@,
                        expires_in,
                        body.device_id@,
                        now,
                    )
                },
                Err(e) => r == Err::<
                    (DeviceRegistrationResponse, RegistrationChanged),
                    MobileError,
                >(e) && final(self)@ == old(self)@,
            },
    {
        match reply {
            Ok(body) => {
                let response = body.registered(token.as_str());
                self.last_registration = Some(registration);
                self.store_token(token, expires_in, now);
                self.device_id = Some(response.device_id.clone());
                let event = RegistrationChanged {
                    device_id: response.device_id.clone(),
                    status: "registered".to_owned(),
                    error: None,
                };
                Ok((response, event))
            },
            Err(e) => Err(e),
        }
    }

    /// Takes in the gateway's reply to an unregistration.
    pub fn unregister_device(&mut self, device_id: String, reply: Result<(), MobileError>) -> (r:
        Result<RegistrationChanged, MobileError>)
        ensures
            match reply {
                Ok(_) => {
                    &&& r is Ok
                    &&& r->Ok_0.device_id == device_id
                    &&& r->Ok_0.status@ == "unregistered"@
                    &&& r->Ok_0.error is None
                    &&& final(self)@ == (EngineView { device_id: None, ..old(self)@ })
                },
                Err(e) => r == Err::<RegistrationChanged, MobileError>(e) && final(self)@
                    == old(self)@,
            },
    {
        match reply {
            Ok(_) => {
                self.device_id = None;
                Ok(
                    RegistrationChanged {
                        device_id,
                        status: "unregistered".to_owned(),
                        error: None,
                    },
                )
            },
            Err(e) => Err(e),
        }
    }

    /// The registration to send again after the push token was rotated: the
    /// retained one with the new token. After the OS rotated the push token
    /// the device would otherwise stop receiving call pushes entirely.
    pub fn update_push_token(&self, new_token: String) -> (r: Result<
        DeviceRegistration,
        MobileError,
    >)
        ensures
            match self@.last_registration {
                Some(last) => r == Ok::<DeviceRegistration, MobileError>(
                    DeviceRegistration { push_token: new_token, ..last },
                ),
                None => r == Err::<DeviceRegistration, MobileError>(MobileError::InvalidState),
            },
    {
        match &self.last_registration {
            Some(last) => {
                let mut registration = last.clone();
                registration.push_token = new_token;
                Ok(registration)
            },
            None => Err(MobileError::InvalidState),
        }
    }

    /// Takes in the gateway's reply to a request for a call offer, after a
    /// push notification: the offer to report to the app.
    pub fn handle_push_notification(&self, reply: Result<GatewayCallOffer, MobileError>) -> (r:
        Result<CallOffer, MobileError>)
        ensures
            match reply {
                Ok(body) => r == Ok::<CallOffer, MobileError>(
                    CallOffer {
                        call_token: body.call_token,
                        caller_uri: body.caller_uri,
                        caller_name: body.caller_name,
                        sdp_offer: body.sdp_offer,
                    },
                ),
                Err(e) => r == Err::<CallOffer, MobileError>(e),
            },
    {
        match reply {
            Ok(body) => Ok(body.into_offer()),
            Err(e) => Err(e),
        }
    }
}

// ── Calls ───────────────────────────────────────────────────────────────────

/// Identifier of the incoming call with a given token. The full token, not a
/// truncated prefix: two concurrent incoming calls whose tokens share a prefix
/// must not collide.
pub open spec fn incoming_id(call_token: Seq<char>) -> Seq<char> {
    "incoming-"@ + call_token
}

/// A lower-case hexadecimal digit.
pub open spec fn is_lower_hex(c: char) -> bool {
    text::is_digit(c) || 'a' <= c <= 'f'
}

/// The 32 digits of a random (version 4) UUID.
pub open spec fn is_random_uuid(s: Seq<char>) -> bool {
    &&& s.len() == 32
    &&& forall|i: int| 0 <= i < 32 ==> is_lower_hex(#[trigger] s[i])
    &&& s[12] == '4'
    &&& s[16] == '8' || s[16] == '9' || s[16] == 'a' || s[16] == 'b'
}

/// An identifier of an outgoing call.
pub open spec fn is_outgoing_id(id: Seq<char>) -> bool {
    "outgoing-"@.is_prefix_of(id) && is_random_uuid(id.skip(9))
}

/// A new UUID from `uuid::Uuid::new_v4`, written by `Simple`'s `Display`: 32
/// lower-case hexadecimal digits, with the digits that mark version and
/// variant in their places. Nothing more is known of it: the other digits are
/// random. The call aborts the program if the system has no random numbers.
#[verifier::external_body]
fn random_uuid() -> (r: String)
    ensures
        is_random_uuid(r@),
{
    uuid::Uuid::new_v4().as_simple().to_string()
}

/// The identifier of the outgoing call with a given UUID.
pub fn outgoing_call_id(uuid: &str) -> (r: String)
    ensures
        r@ == "outgoing-"@ + uuid@,
        is_random_uuid(uuid@) ==> is_outgoing_id(r@),
{
    let id = text::join2("outgoing-", uuid);
    proof {
        reveal_strlit("outgoing-");
        assert(id@.subrange(0, 9) =~= "outgoing-"@);
        assert(id@.skip(9) =~= uuid@);
    }
    id
}

/// The codecs to use for a call: the caller's preferences, else the engine's.
pub open spec fn chosen_codecs(e: EngineView, preferred: Seq<AudioCodec>) -> Seq<AudioCodec> {
    if preferred.len() == 0 {
        e.codec_prefs
    } else {
        preferred
    }
}

/// An incoming call that is being answered.
pub struct IncomingCall {
    call_token: String,
    caller_uri: String,
    caller_name: Option<String>,
    session: MobileMediaSession,
    sdp_answer: String,
}

/// [`IncomingCall`] as plain values.
pub struct IncomingView {
    pub call_token: Seq<char>,
    pub caller_uri: Seq<char>,
    pub caller_name: Option<Seq<char>>,
    pub session: MobileMediaSession,
    pub sdp_answer: Seq<char>,
}

impl View for IncomingCall {
    type V = IncomingView;

    closed spec fn view(&self) -> IncomingView {
        IncomingView {
            call_token: self.call_token@,
            caller_uri: self.caller_uri@,
            caller_name: calls::text_view(self.caller_name),
            session: self.session,
            sdp_answer: self.sdp_answer@,
        }
    }
}

impl IncomingCall {
    #[verifier::type_invariant]
    spec fn has_fresh_media(self) -> bool {
        is_fresh(self.session)
    }

    /// The SDP answer to send to the gateway.
    pub fn sdp_answer(&self) -> (r: &str)
        ensures
            r@ == self@.sdp_answer,
    {
        self.sdp_answer.as_str()
    }

    /// The call's media.
    pub fn session(&self) -> (r: MobileMediaSession)
        ensures
            r == self@.session,
    {
        self.session
    }
}

/// An outgoing call that is ringing.
pub struct OutgoingCall {
    call_id: String,
    uri: String,
    session: MobileMediaSession,
    sdp_offer: String,
}

/// [`OutgoingCall`] as plain values.
pub struct OutgoingView {
    pub call_id: Seq<char>,
    pub uri: Seq<char>,
    pub session: MobileMediaSession,
    pub sdp_offer: Seq<char>,
}

impl View for OutgoingCall {
    type V = OutgoingView;

    closed spec fn view(&self) -> OutgoingView {
        OutgoingView {
            call_id: self.call_id@,
            uri: self.uri@,
            session: self.session,
            sdp_offer: self.sdp_offer@,
        }
    }
}

/// A session in which nothing has happened yet.
pub open spec fn is_fresh(s: MobileMediaSession) -> bool {
    s == media::fresh_session(s.remote_addr, s.codec, s.local_port, s.ssrc)
}

impl OutgoingCall {
    #[verifier::type_invariant]
    spec fn has_fresh_media(self) -> bool {
        is_fresh(self.session)
    }

    /// The SDP offer to send to the gateway.
    pub fn sdp_offer(&self) -> (r: &str)
        ensures
            r@ == self@.sdp_offer,
    {
        self.sdp_offer.as_str()
    }

    /// The call's media.
    pub fn session(&self) -> (r: MobileMediaSession)
        ensures
            r == self@.session,
    {
        self.session
    }

    /// What to tell the app while the call is ringing.
    pub fn ringing(&self) -> (r: CallInfo)
        ensures
            r@ == (calls::CallInfoView {
                call_id: self@.call_id,
                remote_uri: self@.uri,
                remote_name: None,
                state: CallState::Ringing,
                direction: CallDirection::Outbound,
                muted: false,
                on_hold: false,
                duration_secs: 0,
            }),
    {
        CallInfo {
            call_id: self.call_id.clone(),
            remote_uri: self.uri.clone(),
            remote_name: None,
            state: CallState::Ringing,
            direction: CallDirection::Outbound,
            muted: false,
            on_hold: false,
            duration_secs: 0,
        }
    }
}

/// The media of an outgoing call once it was answered: packets go where the
/// answer says, if it does, and are encrypted if that was negotiated.
pub open spec fn answered_session(
    s: MobileMediaSession,
    sdp_answer: Seq<char>,
    bracketed: Option<IpAddress>,
    srtp: bool,
) -> MobileMediaSession {
    MobileMediaSession {
        remote_addr: match media::remote_address(sdp_answer, bracketed) {
            Some(addr) => addr,
            None => s.remote_addr,
        },
        srtp_active: srtp,
        ..s
    }
}

impl AriaMobileEngine {
    /// The codecs to use for a call.
    pub fn choose_codecs(&self, preferred_codecs: Vec<AudioCodec>) -> (r: Vec<AudioCodec>)
        ensures
            r@ == chosen_codecs(self@, preferred_codecs@),
    {
        if preferred_codecs.len() == 0 {
            vstd::slice::slice_to_vec(self.codec_prefs.as_slice())
        } else {
            preferred_codecs
        }
    }

    /// First step of answering a call, once its offer is known: the media
    /// session and the SDP answer. See [`media::create_answer_session`] for
    /// `bracketed`, `local_port` and `local_ip`.
    pub fn begin_answer(
        &self,
        call_token: String,
        offer: CallOffer,
        preferred_codecs: Vec<AudioCodec>,
        bracketed: Option<IpAddress>,
        local_port: Option<u16>,
        local_ip: &str,
    ) -> (r: Result<IncomingCall, MobileError>)
        ensures
            match (media::remote_address(offer.sdp_offer@, bracketed), local_port) {
                (Some(addr), Some(port)) => {
                    let codec = sdp::negotiated(
                        offer.sdp_offer@,
                        chosen_codecs(self@, preferred_codecs@),
                    );
                    &&& r is Ok
                    &&& r->Ok_0@ == (IncomingView {
                        call_token: call_token@,
                        caller_uri: offer.caller_uri@,
                        caller_name: calls::text_view(offer.caller_name),
                        session: media::fresh_session(addr, codec, port, r->Ok_0@.session.ssrc),
                        sdp_answer: sdp::session_text(port, local_ip@, seq![codec]),
                    })
                },
                _ => r == Err::<IncomingCall, MobileError>(MobileError::MediaError),
            },
    {
        let codecs = self.choose_codecs(preferred_codecs);
        match media::create_answer_session(
            offer.sdp_offer.as_str(),
            codecs.as_slice(),
            bracketed,
            local_port,
            local_ip,
        ) {
            Ok((session, sdp_answer)) => Ok(
                IncomingCall {
                    call_token,
                    caller_uri: offer.caller_uri,
                    caller_name: offer.caller_name,
                    session,
                    sdp_answer,
                },
            ),
            Err(e) => Err(e),
        }
    }

    /// Second step, after the gateway replied to the answer: the call is
    /// connected.
    pub fn accept_incoming_call(&mut self, call: IncomingCall, reply: Result<(), MobileError>) -> (r:
        Result<CallInfo, MobileError>)
        ensures
            match reply {
                Ok(_) => {
                    &&& r is Ok
                    &&& final(self)@ == (EngineView {
                        calls: old(self)@.calls.insert(
                            incoming_id(call@.call_token),
                            calls::connected_call(
                                incoming_id(call@.call_token),
                                call@.caller_uri,
                                call@.caller_name,
                                CallDirection::Inbound,
                                call@.session,
                                call@.call_token,
                            ),
                        ),
                        ..old(self)@
                    })
                    &&& r->Ok_0@ == final(self)@.calls[incoming_id(call@.call_token)].info
                },
                Err(e) => r == Err::<CallInfo, MobileError>(e) && final(self)@ == old(self)@,
            },
    {
        match reply {
            Ok(_) => {
                proof {
                    use_type_invariant(&call);
                }
                let call_id = text::join2("incoming-", call.call_token.as_str());
                let info = self.calls.connect(
                    call_id,
                    call.caller_uri,
                    call.caller_name,
                    CallDirection::Inbound,
                    call.session,
                    call.call_token,
                );
                Ok(info)
            },
            Err(e) => Err(e),
        }
    }

    /// First step of an outgoing call: the media session, the SDP offer, and
    /// an identifier of its own.
    pub fn begin_call(
        &self,
        uri: String,
        preferred_codecs: Vec<AudioCodec>,
        local_port: Option<u16>,
        local_ip: &str,
    ) -> (r: Result<OutgoingCall, MobileError>)
        ensures
            match local_port {
                Some(port) => {
                    let codecs = sdp::offered_codecs(chosen_codecs(self@, preferred_codecs@));
                    &&& r is Ok
                    &&& is_outgoing_id(r->Ok_0@.call_id)
                    &&& r->Ok_0@ == (OutgoingView {
                        call_id: r->Ok_0@.call_id,
                        uri: uri@,
                        session: media::fresh_session(
                            types::unspecified_address(),
                            codecs[0],
                            port,
                            r->Ok_0@.session.ssrc,
                        ),
                        sdp_offer: sdp::session_text(port, local_ip@, codecs),
                    })
                },
                None => r == Err::<OutgoingCall, MobileError>(MobileError::MediaError),
            },
    {
        let codecs = self.choose_codecs(preferred_codecs);
        match media::create_offer_session(codecs.as_slice(), local_port, local_ip) {
            Ok((session, sdp_offer)) => {
                let uuid = random_uuid();
                let call_id = outgoing_call_id(uuid.as_str());
                Ok(OutgoingCall { call_id, uri, session, sdp_offer })
            },
            Err(e) => Err(e),
        }
    }

    /// Second step, after the gateway replied to the offer: the call is
    /// connected. See [`media::remote_from_sdp`] for `bracketed`; `srtp` tells
    /// whether encryption was negotiated.
    pub fn make_call(
        &mut self,
        call: OutgoingCall,
        reply: Result<MakeCallResponse, MobileError>,
        bracketed: Option<IpAddress>,
        srtp: bool,
    ) -> (r: Result<CallInfo, MobileError>)
        ensures
            match reply {
                Ok(body) => {
                    &&& r is Ok
                    &&& final(self)@ == (EngineView {
                        calls: old(self)@.calls.insert(
                            call@.call_id,
                            calls::connected_call(
                                call@.call_id,
                                call@.uri,
                                None,
                                CallDirection::Outbound,
                                answered_session(
                                    call@.session,
                                    body.sdp_answer@,
                                    bracketed,
                                    srtp,
                                ),
                                body.call_token@,
                            ),
                        ),
                        ..old(self)@
                    })
                    &&& r->Ok_0@ == final(self)@.calls[call@.call_id].info
                },
                Err(e) => r == Err::<CallInfo, MobileError>(e) && final(self)@ == old(self)@,
            },
    {
        match reply {
            Ok(body) => {
                proof {
                    use_type_invariant(&call);
                }
                let mut session = call.session;
                if let Some(addr) = media::remote_from_sdp(body.sdp_answer.as_str(), bracketed) {
                    session.update_remote(addr);
                }
                session.srtp_active = srtp;
                let info = self.calls.connect(
                    call.call_id,
                    call.uri,
                    None,
                    CallDirection::Outbound,
                    session,
                    body.call_token,
                );
                Ok(info)
            },
            Err(e) => Err(e),
        }
    }

    // ── Mid-call controls ───────────────────────────────────────────

    /// Ends a call. Returns it with its media stopped, as it is to be reported
    /// and, if it is gateway-routed, hung up at the gateway.
    pub fn hangup(&mut self, call_id: &str) -> (r: Result<ActiveCallState, MobileError>)
        ensures
            final(self)@ == (EngineView { calls: old(self)@.calls.remove(call_id@), ..old(self)@ }),
            match r {
                Ok(call) => old(self)@.calls.contains_key(call_id@) && call@ == calls::ended_call(
                    old(self)@.calls[call_id@],
                ),
                Err(e) => !old(self)@.calls.contains_key(call_id@) && e
                    == MobileError::InvalidState,
            },
    {
        match self.calls.end(call_id) {
            Some(call) => Ok(call),
            None => Err(MobileError::InvalidState),
        }
    }

    pub fn set_mute(&mut self, call_id: &str, muted: bool) -> (r: Result<CallInfo, MobileError>)
        ensures
            match r {
                Ok(info) => old(self)@.calls.contains_key(call_id@) && final(self)@ == (EngineView {
                    calls: old(self)@.calls.insert(
                        call_id@,
                        calls::with_mute(old(self)@.calls[call_id@], muted),
                    ),
                    ..old(self)@
                }) && info@ == final(self)@.calls[call_id@].info,
                Err(e) => !old(self)@.calls.contains_key(call_id@) && e
                    == MobileError::InvalidState && final(self)@ == old(self)@,
            },
    {
        self.calls.set_mute(call_id, muted)
    }

    pub fn set_hold(&mut self, call_id: &str, on_hold: bool) -> (r: Result<CallInfo, MobileError>)
        ensures
            match r {
                Ok(info) => old(self)@.calls.contains_key(call_id@) && final(self)@ == (EngineView {
                    calls: old(self)@.calls.insert(
                        call_id@,
                        calls::with_hold(old(self)@.calls[call_id@], on_hold),
                    ),
                    ..old(self)@
                }) && info@ == final(self)@.calls[call_id@].info,
                Err(e) => !old(self)@.calls.contains_key(call_id@) && e
                    == MobileError::InvalidState && final(self)@ == old(self)@,
            },
    {
        self.calls.set_hold(call_id, on_hold)
    }

    /// The packets that send a DTMF digit on a call.
    pub fn send_dtmf(&self, call_id: &str, digit: &str) -> (r: Result<
        Option<Vec<Vec<u8>>>,
        MobileError,
    >)
        ensures
            match calls::media_of(self@.calls, call_id@) {
                Some(m) => r is Ok && media::is_dtmf_reply(m, digit@, r->Ok_0),
                None => r == Err::<Option<Vec<Vec<u8>>>, MobileError>(MobileError::InvalidState),
            },
    {
        match self.calls.get(call_id) {
            Some(call) => match &call.media {
                Some(session) => Ok(session.send_dtmf(digit)),
                None => Ok(None),
            },
            None => Err(MobileError::InvalidState),
        }
    }
}

// ── Remote hangup ───────────────────────────────────────────────────────────

/// A call status that means that the call is over.
pub open spec fn is_over(status: Seq<char>) -> bool {
    status == "ended"@ || status == "unknown"@
}

/// Position of the last identifier in `ended` that is one of `calls`.
pub open spec fn noted_call(calls: calls::Calls, ended: Seq<Seq<char>>) -> Option<nat>
    decreases ended.len(),
{
    if ended.len() == 0 {
        None
    } else if calls.contains_key(ended.last()) {
        Some((ended.len() - 1) as nat)
    } else {
        noted_call(calls, ended.drop_last())
    }
}

impl AriaMobileEngine {
    /// The token with which the status of a call is polled: the one at hand,
    /// or an empty one.
    pub fn poll_token(&self) -> (r: String)
        ensures
            r@ == match self@.auth_token {
                Some(token) => token,
                None => Seq::<char>::empty(),
            },
    {
        match &self.auth_token {
            Some(token) => token.clone(),
            None => String::new(),
        }
    }

    /// Takes in the status of a call. Returns whether the call is over; then
    /// it is noted for [`Self::check_remote_hangup`] and not polled again.
    pub fn call_status_polled(
        &mut self,
        call_id: &str,
        status: &Result<CallStatusResponse, MobileError>,
    ) -> (r: bool)
        ensures
            r == (status matches Ok(body) && is_over(body.status@)),
            final(self)@ == if r {
                EngineView {
                    remote_ended: old(self)@.remote_ended.push(call_id@),
                    ..old(self)@
                }
            } else {
                old(self)@
            },
    {
        let over = match status {
            Ok(body) => text::same_text(body.status.as_str(), "ended") || text::same_text(
                body.status.as_str(),
                "unknown",
            ),
            Err(_) => false,
        };
        if over {
            self.remote_ended.push(call_id.to_owned());
            assert(self@.remote_ended =~= old(self)@.remote_ended.push(call_id@));
        }
        over
    }

    /// Check if any active call was ended by the remote party. Returns the
    /// call_id if so, with the call as it is to be reported, and cleans up the
    /// call state. What was noted of calls that are no longer active is
    /// dropped.
    pub fn check_remote_hangup(&mut self) -> (r: Option<(String, ActiveCallState)>)
        ensures
            match (noted_call(old(self)@.calls, old(self)@.remote_ended), r) {
                (Some(k), Some((id, call))) => {
                    &&& id@ == old(self)@.remote_ended[k as int]
                    &&& old(self)@.calls.contains_key(id@)
                    &&& call@ == calls::ended_call(old(self)@.calls[id@])
                    &&& final(self)@ == (EngineView {
                        remote_ended: old(self)@.remote_ended.take(k as int),
                        calls: old(self)@.calls.remove(id@),
                        ..old(self)@
                    })
                },
                (None, None) => final(self)@ == (EngineView {
                    remote_ended: Seq::empty(),
                    ..old(self)@
                }),
                _ => false,
            },
            r is None == forall|i: int|
                0 <= i < old(self)@.remote_ended.len() ==> !old(self)@.calls.contains_key(
                    #[trigger] old(self)@.remote_ended[i],
                ),
    {
        let ghost calls = self@.calls;
        let ghost ended = self@.remote_ended;
        proof {
            engine_laws::only_active_calls_are_reported(calls, ended);
        }
        assert(ended.take(ended.len() as int) =~= ended);
        while self.remote_ended.len() > 0
            invariant
                self.remote_ended@.len() <= ended.len(),
                self@ == (EngineView {
                    remote_ended: ended.take(self.remote_ended@.len() as int),
                    ..old(self)@
                }),
                calls == old(self)@.calls,
                ended == old(self)@.remote_ended,
                noted_call(calls, ended) == noted_call(
                    calls,
                    ended.take(self.remote_ended@.len() as int),
                ),
            decreases self.remote_ended@.len(),
        {
            let ghost n = self.remote_ended@.len() as int;
            let ghost noted = self.remote_ended@;
            assert(ended.take(n).drop_last() =~= ended.take(n - 1));
            assert(self@.remote_ended[n - 1] == noted[n - 1]@);
            if let Some(id) = self.remote_ended.pop() {
                assert(self@.remote_ended =~= ended.take(n - 1));
                assert(id@ == ended[n - 1]);
                if let Some(call) = self.calls.end(id.as_str()) {
                    return Some((id, call));
                }
                assert(self@.calls =~= calls);
            }
        }
        assert(ended.take(0) =~= Seq::<Seq<char>>::empty());
        None
    }
}

// ── On-device AI ────────────────────────────────────────────────────────────

/// A key that can protect stored insights, or none.
pub open spec fn is_insight_key(key: Option<Vec<u8>>) -> bool {
    key matches Some(k) ==> k@.len() == INSIGHT_KEY_LEN
}

/// The engine after an attempt to record a call: the capture session is known
/// as soon as it was started, and attached to the call if there is one.
pub open spec fn with_capture(e: EngineView, call_id: Seq<char>, session: u64) -> EngineView {
    match e.ai {
        Some(sessions) => EngineView {
            ai: Some(sessions.insert(call_id, session)),
            calls: if e.calls.contains_key(call_id) {
                e.calls.insert(call_id, calls::with_tap(e.calls[call_id], Some(session)))
            } else {
                e.calls
            },
            ..e
        },
        None => e,
    }
}

/// The engine after a call's audio is no longer recorded.
pub open spec fn without_tap(e: EngineView, call_id: Seq<char>) -> EngineView {
    EngineView {
        calls: if e.calls.contains_key(call_id) {
            e.calls.insert(call_id, calls::with_tap(e.calls[call_id], None))
        } else {
            e.calls
        },
        ..e
    }
}

/// The engine after a capture was taken out of the list.
pub open spec fn without_capture(e: EngineView, call_id: Seq<char>) -> EngineView {
    EngineView {
        ai: match e.ai {
            Some(sessions) => Some(sessions.remove(call_id)),
            None => None,
        },
        ..without_tap(e, call_id)
    }
}

/// The capture session of a call.
pub open spec fn capture_of(e: EngineView, call_id: Seq<char>) -> Option<u64> {
    match e.ai {
        Some(sessions) => if sessions.contains_key(call_id) {
            Some(sessions[call_id])
        } else {
            None
        },
        None => None,
    }
}

impl AriaMobileEngine {
    /// Whether `insight_key` can be used: a wrong-length key would fail deep
    /// inside the cipher.
    pub fn check_insight_key(insight_key: &Option<Vec<u8>>) -> (r: Result<(), MobileError>)
        ensures
            r == if is_insight_key(*insight_key) {
                Ok::<(), MobileError>(())
            } else {
                Err::<(), MobileError>(MobileError::InvalidState)
            },
    {
        match insight_key {
            Some(k) => if k.len() != INSIGHT_KEY_LEN {
                Err(MobileError::InvalidState)
            } else {
                Ok(())
            },
            None => Ok(()),
        }
    }

    /// Prepare on-device AI. `created` tells whether the AI engine could be
    /// set up.
    pub fn ai_init(&mut self, insight_key: &Option<Vec<u8>>, created: bool) -> (r: Result<
        (),
        MobileError,
    >)
        ensures
            if is_insight_key(*insight_key) && created {
                r is Ok && final(self)@ == (EngineView {
                    ai: Some(Map::<Seq<char>, u64>::empty()),
                    ..old(self)@
                })
            } else {
                r == Err::<(), MobileError>(MobileError::InvalidState) && final(self)@
                    == old(self)@
            },
    {
        if let Err(e) = Self::check_insight_key(insight_key) {
            return Err(e);
        }
        match AiState::new(created) {
            Ok(state) => {
                self.ai = Some(state);
                Ok(())
            },
            Err(e) => Err(e),
        }
    }

    /// Whether on-device AI is ready.
    pub fn ai_state(&self) -> (r: Result<(), MobileError>)
        ensures
            r == if self@.ai is Some {
                Ok::<(), MobileError>(())
            } else {
                Err::<(), MobileError>(MobileError::InvalidState)
            },
    {
        match &self.ai {
            Some(_) => Ok(()),
            None => Err(MobileError::InvalidState),
        }
    }

    /// The models to show: the catalogue, or none while AI is not ready.
    pub fn ai_models(
        &self,
        installed: &Vec<String>,
        availability: &Vec<ModelAvailability>,
    ) -> (r: Vec<AiModel>)
        ensures
            if self@.ai is Some {
                r@.len() == availability@.len() && forall|i: int|
                    0 <= i < r@.len() ==> ai::shows_model(
                        #[trigger] r@[i],
                        availability@[i],
                        installed@,
                    )
            } else {
                r@.len() == 0
            },
    {
        match &self.ai {
            Some(state) => state.models(installed, availability),
            None => Vec::new(),
        }
    }

    /// Takes in whether a download could be started.
    pub fn ai_start_download(&self, started: bool) -> (r: Result<(), MobileError>)
        ensures
            r == if self@.ai is Some && started {
                Ok::<(), MobileError>(())
            } else {
                Err::<(), MobileError>(MobileError::InvalidState)
            },
    {
        match &self.ai {
            Some(state) => state.start_download(started),
            None => Err(MobileError::InvalidState),
        }
    }

    /// The download to show, if there is one.
    pub fn ai_download_progress(&self, download: &Option<Download>) -> (r: Option<
        AiDownloadProgress,
    >)
        ensures
            r is Some == (self@.ai is Some && download is Some),
            r matches Some(shown) ==> {
                &&& shown.model_id == download->0.model_id
                &&& shown.downloaded_bytes == download->0.downloaded_bytes
                &&& shown.total_bytes == download->0.total_bytes
                &&& shown.state@ == ai::state_name(download->0.state)
                &&& shown.error == ai::failure_reason(download->0.state)
            },
    {
        match (&self.ai, download) {
            (Some(state), Some(d)) => Some(state.download_progress(d)),
            _ => None,
        }
    }

    /// Takes in whether a model could be deleted.
    pub fn ai_delete_model(&self, deleted: bool) -> (r: Result<(), MobileError>)
        ensures
            r == if self@.ai is Some && deleted {
                Ok::<(), MobileError>(())
            } else {
                Err::<(), MobileError>(MobileError::InvalidState)
            },
    {
        match &self.ai {
            Some(state) => state.delete_model(deleted),
            None => Err(MobileError::InvalidState),
        }
    }

    /// Begin capturing this call's audio into `session`, `None` if that could
    /// not be started. The tap is attached to the live media session, so audio
    /// starts flowing to the AI from the next RTP packet.
    pub fn ai_start_capture(&mut self, call_id: &str, session: Option<u64>) -> (r: Result<
        (),
        MobileError,
    >)
        ensures
            r == if old(self)@.ai is Some && session is Some && old(self)@.calls.contains_key(
                call_id@,
            ) {
                Ok::<(), MobileError>(())
            } else {
                Err::<(), MobileError>(MobileError::InvalidState)
            },
            final(self)@ == match session {
                Some(s) => with_capture(old(self)@, call_id@, s),
                None => old(self)@,
            },
    {
        match &mut self.ai {
            Some(state) => {
                match state.start_capture(call_id, session) {
                    Ok(s) => {
                        if self.calls.set_tap(call_id, Some(s)) {
                            Ok(())
                        } else {
                            Err(MobileError::InvalidState)
                        }
                    },
                    Err(e) => Err(e),
                }
            },
            None => Err(MobileError::InvalidState),
        }
    }

    /// Stop feeding the AI, without discarding what was captured. Returns the
    /// capture session to stop, if there is one.
    pub fn ai_stop_capture(&mut self, call_id: &str) -> (r: Option<u64>)
        ensures
            final(self)@ == without_tap(old(self)@, call_id@),
            r == capture_of(old(self)@, call_id@),
    {
        let _ = self.calls.set_tap(call_id, None);
        match &self.ai {
            Some(state) => state.stop_capture(call_id),
            None => None,
        }
    }

    /// Begin to transcribe a captured call. Returns the capture session to
    /// stop and transcribe.
    pub fn ai_transcribe(&mut self, call_id: &str) -> (r: Result<u64, MobileError>)
        ensures
            final(self)@ == without_capture(old(self)@, call_id@),
            match capture_of(old(self)@, call_id@) {
                Some(session) => r == Ok::<u64, MobileError>(session),
                None => r == Err::<u64, MobileError>(MobileError::InvalidState),
            },
    {
        let _ = self.ai_stop_capture(call_id);
        match &mut self.ai {
            Some(state) => state.transcribe(call_id),
            None => Err(MobileError::InvalidState),
        }
    }

    /// Throw away a capture without transcribing it. Returns the capture
    /// session to stop and discard, if there is one.
    pub fn ai_discard_capture(&mut self, call_id: &str) -> (r: Option<u64>)
        ensures
            final(self)@ == without_capture(old(self)@, call_id@),
            r == capture_of(old(self)@, call_id@),
    {
        let _ = self.ai_stop_capture(call_id);
        match &mut self.ai {
            Some(state) => state.discard(call_id),
            None => None,
        }
    }

    /// Past insights for a history list: `page` as the store gave it. An empty
    /// list rather than an error when AI is not ready, since "AI is off" and
    /// "no calls yet" are the same thing to a caller drawing a list.
    pub fn ai_insights<T>(&self, page: Vec<T>) -> (r: Vec<T>)
        ensures
            r@ == if self@.ai is Some {
                page@
            } else {
                Seq::<T>::empty()
            },
    {
        match &self.ai {
            Some(_) => page,
            None => Vec::new(),
        }
    }

    /// One stored insight, or `None` if it was not stored or AI is not ready.
    pub fn ai_insight<T>(&self, stored: Option<T>) -> (r: Option<T>)
        ensures
            r == if self@.ai is Some {
                stored
            } else {
                None
            },
    {
        match &self.ai {
            Some(_) => stored,
            None => None,
        }
    }

    /// Takes in whether a stored insight was removed.
    pub fn ai_delete_insight(&self, removed: bool) -> (r: bool)
        ensures
            r == (self@.ai is Some && removed),
    {
        self.ai.is_some() && removed
    }

    /// Takes in how many stored insights were removed.
    pub fn ai_clear_insights(&self, removed: u64) -> (r: u64)
        ensures
            r == if self@.ai is Some {
                removed
            } else {
                0
            },
    {
        if self.ai.is_some() {
            removed
        } else {
            0
        }
    }
}

// ── Queries and settings ────────────────────────────────────────────────────

/// A change of the network is told to the gateway: a device is registered and
/// a token at hand.
pub open spec fn sends_heartbeat(e: EngineView) -> bool {
    e.device_id is Some && e.auth_token is Some
}

/// What to do after the network changed.
#[derive(Debug)]
pub struct NetworkChange {
    /// Request to send to the gateway.
    pub heartbeat: Option<HttpRequest>,
    /// Calls whose media is to rebind its socket.
    pub rebind: Vec<String>,
}

impl AriaMobileEngine {
    /// Whether this call's media is encrypted, as negotiated. This is what the
    /// host reported when the call was connected: packets are built as plain
    /// RTP, and the host is to encrypt them on such a call before it sends
    /// them.
    pub fn call_is_encrypted(&self, call_id: &str) -> (r: bool)
        ensures
            r == (calls::media_of(self@.calls, call_id@) matches Some(m) && m.srtp_active),
    {
        match self.calls.media(call_id) {
            Some(session) => session.srtp_active,
            None => false,
        }
    }

    /// Some active call, if there is one.
    pub fn get_active_call(&self) -> (r: Option<CallInfo>)
        ensures
            match r {
                Some(info) => self@.calls.contains_key(info.call_id@)
                    && self@.calls[info.call_id@].info == info@ && info.state != CallState::Idle
                    && info.state != CallState::Ended,
                None => forall|id: Seq<char>| !#[trigger] self@.calls.contains_key(id),
            },
    {
        self.calls.active()
    }

    /// Number of active calls.
    pub fn active_call_count(&self) -> (r: usize)
        ensures
            r == self@.calls.len(),
    {
        self.calls.len()
    }

    /// The media of a call.
    pub fn media(&self, call_id: &str) -> (r: Option<MobileMediaSession>)
        ensures
            r == calls::media_of(self@.calls, call_id@),
    {
        self.calls.media(call_id)
    }

    /// Takes over the peer, counters and levels of `session` into the call
    /// that it belongs to. `false` if the call is gone, or its media is
    /// another session.
    pub fn record_traffic(&mut self, call_id: &str, session: MobileMediaSession) -> (r: bool)
        ensures
            r == (calls::media_of(old(self)@.calls, call_id@) matches Some(m) && m.ssrc
                == session.ssrc),
            final(self)@ == if r {
                EngineView {
                    calls: old(self)@.calls.insert(
                        call_id@,
                        calls::with_traffic(old(self)@.calls[call_id@], session),
                    ),
                    ..old(self)@
                }
            } else {
                old(self)@
            },
    {
        self.calls.record_traffic(call_id, session)
    }

    /// Packet and byte counters of a call.
    pub fn get_media_stats(&self, call_id: &str) -> (r: Option<MediaCounters>)
        ensures
            r == match calls::media_of(self@.calls, call_id@) {
                Some(m) => Some(m.counters),
                None => None,
            },
    {
        match self.calls.media(call_id) {
            Some(session) => Some(session.stats()),
            None => None,
        }
    }

    /// RX audio level (RMS * 1000; 0 for silence and for unknown calls).
    pub fn get_rx_audio_level(&self, call_id: &str) -> (r: u64)
        ensures
            r == match calls::media_of(self@.calls, call_id@) {
                Some(m) => m.rx_level,
                None => 0,
            },
    {
        match self.calls.media(call_id) {
            Some(session) => session.rx_audio_level(),
            None => 0,
        }
    }

    /// TX audio level (RMS * 1000; 0 for silence and for unknown calls).
    pub fn get_tx_audio_level(&self, call_id: &str) -> (r: u64)
        ensures
            r == match calls::media_of(self@.calls, call_id@) {
                Some(m) => m.tx_level,
                None => 0,
            },
    {
        match self.calls.media(call_id) {
            Some(session) => session.tx_audio_level(),
            None => 0,
        }
    }

    pub fn set_codec_preferences(&mut self, codecs: Vec<AudioCodec>)
        ensures
            final(self)@ == (EngineView { codec_prefs: codecs@, ..old(self)@ }),
    {
        self.codec_prefs = codecs;
    }

    /// The calls whose media is to rebind its socket after the network
    /// changed: all of them.
    pub fn calls_to_rebind(&self) -> (r: Vec<String>)
        ensures
            table::lists_keys(r@, self@.calls),
    {
        self.calls.ids()
    }

    /// What to do after the network changed (WiFi to cellular, reconnect,
    /// etc.): a heartbeat to the gateway, which re-registers SIP with a fresh
    /// socket, if a device is registered and a token at hand; and the media
    /// of active calls is to rebind its sockets.
    pub fn notify_network_change(&self) -> (r: NetworkChange)
        ensures
            r.heartbeat is Some == sends_heartbeat(self@),
            r.heartbeat matches Some(request) ==> {
                &&& request.method == HttpMethod::Post
                &&& request.route == Route::Base
                &&& request.url@ == self@.gateway.base_url + ("/v1/devices/"@ + self@.device_id->0
                    + "/heartbeat"@)
                &&& gateway_client::bears(request, self@.auth_token->0)
                &&& request.body is Empty
            },
            table::lists_keys(r.rebind@, self@.calls),
    {
        let heartbeat = match (&self.device_id, &self.auth_token) {
            (Some(device_id), Some(token)) => {
                let path = text::join3("/v1/devices/", device_id.as_str(), "/heartbeat");
                Some(
                    HttpRequest {
                        method: HttpMethod::Post,
                        route: Route::Base,
                        url: text::join2(self.gateway.base_url(), path.as_str()),
                        bearer: Some(token.clone()),
                        body: RequestBody::Empty,
                    },
                )
            },
            _ => None,
        };
        NetworkChange { heartbeat, rebind: self.calls_to_rebind() }
    }
}

} // verus!
