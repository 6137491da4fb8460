//! Types shared by the whole core.

use vstd::prelude::*;
use vstd::string::*;

verus! {

// ── Addresses ───────────────────────────────────────────────────────────────

/// An IP address, as the number its bytes spell in network order.
#[derive(Debug, Clone, Copy, PartialEq, Eq, Structural)]
pub enum IpAddress {
    V4 { octets: u32 },
    V6 { groups: u128, flowinfo: u32, scope_id: u32 },
}

/// An IP address with a port.
#[derive(Debug, Clone, Copy, PartialEq, Eq, Structural)]
pub struct SocketAddress {
    pub ip: IpAddress,
    pub port: u16,
}

/// `0.0.0.0:0`: stands for a peer that is not known yet.
pub open spec fn unspecified_address() -> SocketAddress {
    SocketAddress { ip: IpAddress::V4 { octets: 0 }, port: 0 }
}

impl SocketAddress {
    /// `0.0.0.0:0`: stands for a peer that is not known yet.
    pub fn unspecified() -> (r: SocketAddress)
        ensures
            r == unspecified_address(),
    {
        SocketAddress { ip: IpAddress::V4 { octets: 0 }, port: 0 }
    }
}

// ── Accounts and registration ───────────────────────────────────────────────

/// Configuration for connecting to the push gateway.
#[derive(Debug)]
pub struct GatewayConfig {
    pub base_url: String,
    pub api_key: String,
}

/// SIP account credentials.
#[derive(Debug)]
pub struct SipCredentials {
    pub username: String,
    pub password: String,
    pub domain: String,
    pub registrar: Option<String>,
    pub transport: String,
    pub port: u16,
    pub auth_username: Option<String>,
    pub display_name: String,
}

/// Device registration request.
#[derive(Debug)]
pub struct DeviceRegistration {
    pub platform: String,
    pub push_token: String,
    pub bundle_id: Option<String>,
    pub sip: SipCredentials,
}

/// Response from device registration.
#[derive(Debug)]
pub struct DeviceRegistrationResponse {
    pub device_id: String,
    pub auth_token: String,
}

/// A copy of an optional string.
pub fn clone_text(s: &Option<String>) -> (r: Option<String>)
    ensures
        r == *s,
{
    match s {
        Some(t) => Some(t.clone()),
        None => None,
    }
}

impl Clone for GatewayConfig {
    fn clone(&self) -> (r: Self)
        ensures
            r == *self,
    {
        GatewayConfig { base_url: self.base_url.clone(), api_key: self.api_key.clone() }
    }
}

impl Clone for SipCredentials {
    fn clone(&self) -> (r: Self)
        ensures
            r == *self,
    {
        SipCredentials {
            username: self.username.clone(),
            password: self.password.clone(),
            domain: self.domain.clone(),
            registrar: clone_text(&self.registrar),
            transport: self.transport.clone(),
            port: self.port,
            auth_username: clone_text(&self.auth_username),
            display_name: self.display_name.clone(),
        }
    }
}

impl Clone for DeviceRegistration {
    fn clone(&self) -> (r: Self)
        ensures
            r == *self,
    {
        DeviceRegistration {
            platform: self.platform.clone(),
            push_token: self.push_token.clone(),
            bundle_id: clone_text(&self.bundle_id),
            sip: self.sip.clone(),
        }
    }
}

impl Clone for DeviceRegistrationResponse {
    fn clone(&self) -> (r: Self)
        ensures
            r == *self,
    {
        DeviceRegistrationResponse {
            device_id: self.device_id.clone(),
            auth_token: self.auth_token.clone(),
        }
    }
}

// ── Calls ───────────────────────────────────────────────────────────────────

/// Incoming call offer from the gateway.
#[derive(Debug)]
pub struct CallOffer {
    pub call_token: String,
    pub caller_uri: String,
    pub caller_name: Option<String>,
    pub sdp_offer: String,
}

/// Current call state.
#[derive(Debug, Clone, Copy, PartialEq, Eq, Structural)]
pub enum CallState {
    Idle,
    Incoming,
    Ringing,
    Connecting,
    Connected,
    OnHold,
    Ended,
}

/// Call direction.
#[derive(Debug, Clone, Copy, PartialEq, Eq, Structural)]
pub enum CallDirection {
    Inbound,
    Outbound,
}

/// Information about an active call.
#[derive(Debug)]
pub struct CallInfo {
    pub call_id: String,
    pub remote_uri: String,
    pub remote_name: Option<String>,
    pub state: CallState,
    pub direction: CallDirection,
    pub muted: bool,
    pub on_hold: bool,
    pub duration_secs: u64,
}

/// Push notification payload.
#[derive(Debug)]
pub struct PushCallPayload {
    pub call_token: String,
    pub caller_uri: String,
    pub caller_name: Option<String>,
    pub gateway_url: String,
}

/// Response from call status polling.
#[derive(Debug)]
pub struct CallStatusResponse {
    pub status: String,
    /// Reason the call ended (if `status` is "ended").
    pub reason: Option<String>,
}

impl Clone for CallOffer {
    fn clone(&self) -> (r: Self)
        ensures
            r == *self,
    {
        CallOffer {
            call_token: self.call_token.clone(),
            caller_uri: self.caller_uri.clone(),
            caller_name: clone_text(&self.caller_name),
            sdp_offer: self.sdp_offer.clone(),
        }
    }
}

impl Clone for CallInfo {
    fn clone(&self) -> (r: Self)
        ensures
            r == *self,
    {
        CallInfo {
            call_id: self.call_id.clone(),
            remote_uri: self.remote_uri.clone(),
            remote_name: clone_text(&self.remote_name),
            state: self.state,
            direction: self.direction,
            muted: self.muted,
            on_hold: self.on_hold,
            duration_secs: self.duration_secs,
        }
    }
}

impl Clone for PushCallPayload {
    fn clone(&self) -> (r: Self)
        ensures
            r == *self,
    {
        PushCallPayload {
            call_token: self.call_token.clone(),
            caller_uri: self.caller_uri.clone(),
            caller_name: clone_text(&self.caller_name),
            gateway_url: self.gateway_url.clone(),
        }
    }
}

impl Clone for CallStatusResponse {
    fn clone(&self) -> (r: Self)
        ensures
            r == *self,
    {
        CallStatusResponse { status: self.status.clone(), reason: clone_text(&self.reason) }
    }
}

// ── Codecs ──────────────────────────────────────────────────────────────────

/// Audio codec selection.
#[derive(Debug, Clone, Copy, PartialEq, Eq, Structural)]
pub enum AudioCodec {
    Pcmu,
    Pcma,
    Opus,
    G729,
}

/// RTP payload type number of a codec.
pub open spec fn codec_payload_type(codec: AudioCodec) -> u8 {
    match codec {
        AudioCodec::Pcmu => 0,
        AudioCodec::Pcma => 8,
        AudioCodec::Opus => 111,
        AudioCodec::G729 => 18,
    }
}

/// Encoding name of a codec, as SDP writes it.
pub open spec fn codec_name(codec: AudioCodec) -> Seq<char> {
    match codec {
        AudioCodec::Pcmu => "PCMU"@,
        AudioCodec::Pcma => "PCMA"@,
        AudioCodec::Opus => "opus"@,
        AudioCodec::G729 => "G729"@,
    }
}

/// RTP clock rate of a codec, in Hz.
pub open spec fn codec_clock_rate(codec: AudioCodec) -> u32 {
    match codec {
        AudioCodec::Opus => 48000,
        _ => 8000,
    }
}

/// Samples in one 20 ms frame of a codec.
pub open spec fn codec_frame_samples(codec: AudioCodec) -> u32 {
    match codec {
        AudioCodec::Opus => 960,
        _ => 160,
    }
}

impl AudioCodec {
    /// RTP payload type number.
    pub fn payload_type(self) -> (r: u8)
        ensures
            r == codec_payload_type(self),
    {
        match self {
            AudioCodec::Pcmu => 0,
            AudioCodec::Pcma => 8,
            AudioCodec::Opus => 111,
            AudioCodec::G729 => 18,
        }
    }

    /// Encoding name, as SDP writes it.
    pub fn name(self) -> (r: &'static str)
        ensures
            r@ == codec_name(self),
    {
        match self {
            AudioCodec::Pcmu => "PCMU",
            AudioCodec::Pcma => "PCMA",
            AudioCodec::Opus => "opus",
            AudioCodec::G729 => "G729",
        }
    }

    /// RTP clock rate, in Hz.
    pub fn clock_rate(self) -> (r: u32)
        ensures
            r == codec_clock_rate(self),
    {
        match self {
            AudioCodec::Pcmu | AudioCodec::Pcma | AudioCodec::G729 => 8000,
            AudioCodec::Opus => 48000,
        }
    }

    /// Samples in one 20 ms frame.
    pub fn frame_samples(self) -> (r: u32)
        ensures
            r == codec_frame_samples(self),
    {
        match self {
            AudioCodec::Opus => 960,
            _ => 160,
        }
    }
}

/// No two codecs share a payload type, and none uses the telephone-event one.
pub proof fn payload_types_are_distinct(a: AudioCodec, b: AudioCodec)
    ensures
        codec_payload_type(a) == codec_payload_type(b) ==> a == b,
        codec_payload_type(a) != 101,
        codec_payload_type(a) < 128,
{
}

/// Each codec has the payload type number, the encoding name and the clock rate
/// that it has in every description and every packet.
pub proof fn codecs_have_their_standard_parameters(codec: AudioCodec)
    ensures
        match codec {
            AudioCodec::Pcmu => codec_payload_type(codec) == 0 && codec_name(codec) == "PCMU"@
                && codec_clock_rate(codec) == 8000 && codec_frame_samples(codec) == 160,
            AudioCodec::Pcma => codec_payload_type(codec) == 8 && codec_name(codec) == "PCMA"@
                && codec_clock_rate(codec) == 8000 && codec_frame_samples(codec) == 160,
            AudioCodec::Opus => codec_payload_type(codec) == 111 && codec_name(codec) == "opus"@
                && codec_clock_rate(codec) == 48000 && codec_frame_samples(codec) == 960,
            AudioCodec::G729 => codec_payload_type(codec) == 18 && codec_name(codec) == "G729"@
                && codec_clock_rate(codec) == 8000 && codec_frame_samples(codec) == 160,
        },
{
}

/// A frame is 20 ms of audio: fifty frames make up one second of samples.
pub proof fn frames_are_twenty_milliseconds(codec: AudioCodec)
    ensures
        codec_frame_samples(codec) * 50 == codec_clock_rate(codec),
{
}

// ── Media statistics ────────────────────────────────────────────────────────

/// RTP packet and byte counters of one media session.
#[derive(Debug, Clone, Copy, PartialEq, Eq, Structural)]
pub struct MediaCounters {
    pub packets_sent: u64,
    pub packets_received: u64,
    pub bytes_sent: u64,
    pub bytes_received: u64,
}

// ── Errors ──────────────────────────────────────────────────────────────────

/// Errors from the mobile engine.
#[derive(Debug, Clone, Copy, PartialEq, Eq, Structural)]
pub enum MobileError {
    NetworkError,
    AuthenticationError,
    RegistrationFailed,
    CallFailed,
    MediaError,
    InvalidState,
    GatewayError,
    Timeout,
}

/// What an error says about itself.
pub open spec fn error_message(e: MobileError) -> Seq<char> {
    match e {
        MobileError::NetworkError => "Network error"@,
        MobileError::AuthenticationError => "Authentication error"@,
        MobileError::RegistrationFailed => "Registration failed"@,
        MobileError::CallFailed => "Call failed"@,
        MobileError::MediaError => "Media error"@,
        MobileError::InvalidState => "Invalid state"@,
        MobileError::GatewayError => "Gateway error"@,
        MobileError::Timeout => "Timeout"@,
    }
}

impl MobileError {
    /// Human-readable message.
    pub fn message(self) -> (r: &'static str)
        ensures
            r@ == error_message(self),
    {
        match self {
            MobileError::NetworkError => "Network error",
            MobileError::AuthenticationError => "Authentication error",
            MobileError::RegistrationFailed => "Registration failed",
            MobileError::CallFailed => "Call failed",
            MobileError::MediaError => "Media error",
            MobileError::InvalidState => "Invalid state",
            MobileError::GatewayError => "Gateway error",
            MobileError::Timeout => "Timeout",
        }
    }
}

/// An HTTP exchange that ended without a response.
#[derive(Debug, Clone, Copy, PartialEq, Eq, Structural)]
pub struct HttpFailure {
    /// The request ran into its time limit.
    pub timed_out: bool,
}

/// The error that a failed HTTP exchange stands for.
pub open spec fn http_error(failure: HttpFailure) -> MobileError {
    if failure.timed_out {
        MobileError::Timeout
    } else {
        MobileError::NetworkError
    }
}

impl From<HttpFailure> for MobileError {
    fn from(failure: HttpFailure) -> (r: Self) {
        if failure.timed_out {
            MobileError::Timeout
        } else {
            MobileError::NetworkError
        }
    }
}

impl vstd::std_specs::convert::FromSpecImpl<HttpFailure> for MobileError {
    open spec fn obeys_from_spec() -> bool {
        true
    }

    open spec fn from_spec(failure: HttpFailure) -> MobileError {
        http_error(failure)
    }
}

// ── Time ────────────────────────────────────────────────────────────────────

/// A point in time, in nanoseconds since the process started its clock.
#[derive(Debug, Clone, Copy, PartialEq, Eq, Structural)]
pub struct Moment {
    pub nanos: u64,
}

/// A point in time that may lie further ahead than the clock reaches.
#[derive(Debug, Clone, Copy, PartialEq, Eq, Structural)]
pub struct Deadline {
    pub nanos: u128,
}

/// `secs` seconds after `now`, in nanoseconds.
pub open spec fn seconds_after(now: Moment, secs: nat) -> int {
    now.nanos + secs * 1_000_000_000
}

impl Moment {
    /// The deadline `secs` seconds from this moment.
    pub fn after_secs(self, secs: u64) -> (r: Deadline)
        ensures
            r.nanos == seconds_after(self, secs as nat),
    {
        Deadline { nanos: self.nanos as u128 + secs as u128 * 1_000_000_000u128 }
    }
}

// ── Platform audio ──────────────────────────────────────────────────────────

/// Callback trait for platform audio I/O.
/// Implemented by the Android (Oboe/AudioTrack) or iOS (AudioUnit) layer.
pub trait PlatformAudioBridge: Send + Sync + 'static {
    /// Called when decoded PCM audio is ready for playback (speaker).
    /// Samples are mono i16 at 8000 Hz (or 48000 for Opus).
    fn on_playback_audio(&self, samples: Vec<i16>, sample_rate: u32);

    /// Called periodically to request microphone audio for sending.
    /// Should return mono i16 PCM, 20 ms worth. Return an empty vector if no
    /// audio is available.
    fn on_capture_audio(&self, sample_rate: u32, frame_size: u32) -> Vec<i16>;
}

/// A request that ran into its time limit is a timeout; any other failure to
/// get a response is a network error.
pub proof fn failures_are_told_apart(timed_out: bool)
    ensures
        http_error(HttpFailure { timed_out }) == if timed_out {
            MobileError::Timeout
        } else {
            MobileError::NetworkError
        },
        <MobileError as vstd::std_specs::convert::FromSpec<HttpFailure>>::from_spec(
            HttpFailure { timed_out },
        ) == http_error(HttpFailure { timed_out }),
{
}

/// No two errors read alike.
pub proof fn errors_read_differently(a: MobileError, b: MobileError)
    requires
        error_message(a) == error_message(b),
    ensures
        a == b,
{
    reveal_strlit("Network error");
    reveal_strlit("Authentication error");
    reveal_strlit("Registration failed");
    reveal_strlit("Call failed");
    reveal_strlit("Media error");
    reveal_strlit("Invalid state");
    reveal_strlit("Gateway error");
    reveal_strlit("Timeout");
    assert("Network error"@[0] == 'N' && "Authentication error"@[0] == 'A');
    assert("Registration failed"@[0] == 'R' && "Call failed"@[0] == 'C');
    assert("Media error"@[0] == 'M' && "Invalid state"@[0] == 'I');
    assert("Gateway error"@[0] == 'G' && "Timeout"@[0] == 'T');
}

/// Each error says what went wrong.
pub proof fn errors_say_what_went_wrong(e: MobileError)
    ensures
        error_message(e) == match e {
            MobileError::NetworkError => "Network error"@,
            MobileError::AuthenticationError => "Authentication error"@,
            MobileError::RegistrationFailed => "Registration failed"@,
            MobileError::CallFailed => "Call failed"@,
            MobileError::MediaError => "Media error"@,
            MobileError::InvalidState => "Invalid state"@,
            MobileError::GatewayError => "Gateway error"@,
            MobileError::Timeout => "Timeout"@,
        },
{
}

/// A second is a thousand million nanoseconds, and time adds up.
pub proof fn seconds_add_up(now: Moment, a: nat, b: nat)
    ensures
        seconds_after(now, 0) == now.nanos,
        seconds_after(now, a + b) == seconds_after(now, a) + b * 1_000_000_000,
        seconds_after(now, 1) == now.nanos + 1_000_000_000,
{
    assert((a + b) * 1_000_000_000 == a * 1_000_000_000 + b * 1_000_000_000) by (nonlinear_arith);
}

/// The address of a peer that is not known has no port.
pub proof fn unknown_peers_have_no_port()
    ensures
        unspecified_address().port == 0,
        unspecified_address().ip == (IpAddress::V4 { octets: 0 }),
{
}

} // verus!
