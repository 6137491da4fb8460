//! Mobile media session: what is decided about RTP between the socket, the
//! codec and the platform's audio.
//!
//! On mobile, the platform (iOS/Android) manages the audio hardware. The
//! session keeps the state of one call's media: where packets go, whether the
//! microphone is muted or the call held, and what has been counted so far.

use vstd::prelude::*;
use vstd::string::*;

use crate::audio;
use crate::host;
use crate::packet;
use crate::sdp;
use crate::sdp_laws;
use crate::text;
use crate::types;
use crate::types::{AudioCodec, IpAddress, MediaCounters, MobileError, SocketAddress};

verus! {

/// Payload type of telephone events (DTMF).
pub const TELEPHONE_EVENT: u8 = 101;

/// Shortest possible RTP packet, in bytes.
pub const MIN_RTP_LEN: usize = 12;

/// The state of one call's media.
#[derive(Debug, Clone, Copy, PartialEq, Eq, Structural)]
pub struct MobileMediaSession {
    /// Where packets are sent; port 0 means that the peer is not known yet.
    pub remote_addr: SocketAddress,
    pub local_port: u16,
    pub codec: AudioCodec,
    pub muted: bool,
    pub on_hold: bool,
    pub running: bool,
    pub ssrc: u32,
    pub counters: MediaCounters,
    /// Received audio level (RMS * 1000).
    pub rx_level: u64,
    /// Sent audio level (RMS * 1000).
    pub tx_level: u64,
    /// Media is encrypted, as negotiated. A note of the host's: the packets
    /// that the session builds are plain RTP whatever it says, and the host
    /// encrypts them before it sends them.
    pub srtp_active: bool,
    /// Capture session that received and sent audio is fed to.
    pub ai_tap: Option<u64>,
}

/// Where the stream of sent packets stands.
#[derive(Debug, Clone, Copy, PartialEq, Eq, Structural)]
pub struct TxState {
    pub seq: u16,
    pub timestamp: u32,
}

/// What to send in the next frame.
#[derive(Debug, Clone, Copy, PartialEq, Eq, Structural)]
pub enum TxPlan {
    /// The peer is not known yet: send nothing.
    Wait,
    /// Send a frame of silence.
    Silence,
    /// Ask the platform for microphone audio and send that.
    Capture,
}

/// A session that has just been created.
pub open spec fn fresh_session(
    remote_addr: SocketAddress,
    codec: AudioCodec,
    local_port: u16,
    ssrc: u32,
) -> MobileMediaSession {
    MobileMediaSession {
        remote_addr,
        local_port,
        codec,
        muted: false,
        on_hold: false,
        running: true,
        ssrc,
        counters: MediaCounters {
            packets_sent: 0,
            packets_received: 0,
            bytes_sent: 0,
            bytes_received: 0,
        },
        rx_level: 0,
        tx_level: 0,
        srtp_active: false,
        ai_tap: None,
    }
}

/// A random number from `rand::random`. Nothing is known of its value.
#[verifier::external_body]
fn random_u32() -> u32 {
    rand::random()
}

/// A random number from `rand::random`. Nothing is known of its value.
#[verifier::external_body]
fn random_u16() -> u16 {
    rand::random()
}

impl MobileMediaSession {
    /// A session for a socket bound to `local_port`, with a random source
    /// identifier.
    pub fn new(remote_addr: SocketAddress, codec: AudioCodec, local_port: u16) -> (r: Self)
        ensures
            r == fresh_session(remote_addr, codec, local_port, r.ssrc),
    {
        Self::with_ssrc(remote_addr, codec, local_port, random_u32())
    }

    /// A session with a given source identifier.
    pub fn with_ssrc(
        remote_addr: SocketAddress,
        codec: AudioCodec,
        local_port: u16,
        ssrc: u32,
    ) -> (r: Self)
        ensures
            r == fresh_session(remote_addr, codec, local_port, ssrc),
    {
        MobileMediaSession {
            remote_addr,
            local_port,
            codec,
            muted: false,
            on_hold: false,
            running: true,
            ssrc,
            counters: MediaCounters {
                packets_sent: 0,
                packets_received: 0,
                bytes_sent: 0,
                bytes_received: 0,
            },
            rx_level: 0,
            tx_level: 0,
            srtp_active: false,
            ai_tap: None,
        }
    }

    /// Local RTP port for SDP.
    pub fn local_port(&self) -> (r: u16)
        ensures
            r == self.local_port,
    {
        self.local_port
    }

    /// Update the remote RTP address (e.g., after receiving an SDP answer).
    pub fn update_remote(&mut self, addr: SocketAddress)
        ensures
            *final(self) == (MobileMediaSession { remote_addr: addr, ..*old(self) }),
    {
        self.remote_addr = addr;
    }

    pub fn stop(&mut self)
        ensures
            *final(self) == (MobileMediaSession { running: false, ..*old(self) }),
    {
        self.running = false;
    }

    pub fn set_mute(&mut self, muted: bool)
        ensures
            *final(self) == (MobileMediaSession { muted, ..*old(self) }),
    {
        self.muted = muted;
    }

    pub fn set_hold(&mut self, on_hold: bool)
        ensures
            *final(self) == (MobileMediaSession { on_hold, ..*old(self) }),
    {
        self.on_hold = on_hold;
    }

    /// Attach a capture session to the audio of this call, or detach it.
    pub fn set_ai_tap(&mut self, tap: Option<u64>)
        ensures
            *final(self) == (MobileMediaSession { ai_tap: tap, ..*old(self) }),
    {
        self.ai_tap = tap;
    }

    /// Record the level of received audio (RMS * 1000).
    pub fn set_rx_level(&mut self, level: u64)
        ensures
            *final(self) == (MobileMediaSession { rx_level: level, ..*old(self) }),
    {
        self.rx_level = level;
    }

    /// Record the level of sent audio (RMS * 1000).
    pub fn set_tx_level(&mut self, level: u64)
        ensures
            *final(self) == (MobileMediaSession { tx_level: level, ..*old(self) }),
    {
        self.tx_level = level;
    }

    /// Packet and byte counters.
    pub fn stats(&self) -> (r: MediaCounters)
        ensures
            r == self.counters,
    {
        self.counters
    }

    /// Current RX audio level (RMS * 1000).
    pub fn rx_audio_level(&self) -> (r: u64)
        ensures
            r == self.rx_level,
    {
        self.rx_level
    }

    /// Current TX audio level (RMS * 1000).
    pub fn tx_audio_level(&self) -> (r: u64)
        ensures
            r == self.tx_level,
    {
        self.tx_level
    }
}

// ── Setting up ──────────────────────────────────────────────────────────────

/// The address to write into an SDP description: the public address as STUN
/// reports it, else the address of the local interface, else the unspecified
/// one.
pub fn discover_local_ip(public_ip: Option<String>, interface_ip: Option<String>) -> (r: String)
    ensures
        r@ == match (public_ip, interface_ip) {
            (Some(ip), _) => ip@,
            (None, Some(ip)) => ip@,
            (None, None) => "0.0.0.0"@,
        },
{
    match public_ip {
        Some(ip) => ip,
        None => match interface_ip {
            Some(ip) => ip,
            None => "0.0.0.0".to_owned(),
        },
    }
}

/// The address that `name` denotes: a dotted quad, or an address in square
/// brackets, which is `bracketed`. Nothing else is an address.
pub open spec fn address_named(name: Seq<char>, bracketed: Option<IpAddress>) -> Option<
    IpAddress,
> {
    match host::dotted_quad(name) {
        Some(octets) => Some(IpAddress::V4 { octets }),
        None => if name.len() > 0 && name[0] == '[' {
            bracketed
        } else {
            None
        },
    }
}

/// Where the media that `sdp` describes is sent.
pub open spec fn remote_address(
    sdp: Seq<char>,
    bracketed: Option<IpAddress>,
) -> Option<SocketAddress> {
    match sdp::remote_of(sdp) {
        Some((name, port, _)) => match address_named(name, bracketed) {
            Some(ip) => Some(SocketAddress { ip, port: port as u16 }),
            None => None,
        },
        None => None,
    }
}

/// Where the media that `sdp` describes is sent. Its address is read as a
/// dotted quad. Should it stand in square brackets, `bracketed` is the address
/// that the host reads there, `None` if it is none.
pub fn remote_from_sdp(sdp: &str, bracketed: Option<IpAddress>) -> (r: Option<SocketAddress>)
    ensures
        r == remote_address(sdp@, bracketed),
{
    let remote = match sdp::parse_sdp_remote(sdp) {
        Some(remote) => remote,
        None => return None,
    };
    let ip = match host::read_dotted_quad(remote.ip.as_str()) {
        Some(octets) => IpAddress::V4 { octets },
        None => {
            let c = text::chars_of(remote.ip.as_str());
            if c.len() == 0 || c[0] != '[' {
                return None;
            }
            match bracketed {
                Some(ip) => ip,
                None => return None,
            }
        },
    };
    Some(SocketAddress { ip, port: remote.port })
}

/// Creates a media session as the answerer (incoming call). See
/// [`remote_from_sdp`] for `bracketed`. `local_port` is the port of the bound RTP socket (`None` if binding failed) and `local_ip`
/// the address at which it is reached. Returns the session and the SDP answer.
pub fn create_answer_session(
    offer_sdp: &str,
    preferred_codecs: &[AudioCodec],
    bracketed: Option<IpAddress>,
    local_port: Option<u16>,
    local_ip: &str,
) -> (r: Result<(MobileMediaSession, String), MobileError>)
    ensures
        match (remote_address(offer_sdp@, bracketed), local_port) {
            (Some(addr), Some(port)) => {
                &&& r is Ok
                &&& r->Ok_0.0 == fresh_session(
                    addr,
                    sdp::negotiated(offer_sdp@, preferred_codecs@),
                    port,
                    r->Ok_0.0.ssrc,
                )
                &&& r->Ok_0.1@ == sdp::session_text(
                    port,
                    local_ip@,
                    seq![sdp::negotiated(offer_sdp@, preferred_codecs@)],
                )
            },
            _ => r == Err::<(MobileMediaSession, String), MobileError>(MobileError::MediaError),
        },
{
    match (remote_from_sdp(offer_sdp, bracketed), local_port) {
        (Some(addr), Some(port)) => {
            let chosen = sdp::negotiate_codec(offer_sdp, preferred_codecs);
            let session = MobileMediaSession::new(addr, chosen, port);
            let answer = sdp::build_sdp_answer(port, local_ip, chosen);
            Ok((session, answer))
        },
        _ => Err(MobileError::MediaError),
    }
}

/// Creates a media session as the offerer (outgoing call), whose peer is not
/// known yet. Returns the session and the SDP offer.
pub fn create_offer_session(
    preferred_codecs: &[AudioCodec],
    local_port: Option<u16>,
    local_ip: &str,
) -> (r: Result<(MobileMediaSession, String), MobileError>)
    ensures
        match local_port {
            Some(port) => {
                &&& r is Ok
                &&& r->Ok_0.0 == fresh_session(
                    types::unspecified_address(),
                    sdp::offered_codecs(preferred_codecs@)[0],
                    port,
                    r->Ok_0.0.ssrc,
                )
                &&& r->Ok_0.1@ == sdp::session_text(
                    port,
                    local_ip@,
                    sdp::offered_codecs(preferred_codecs@),
                )
            },
            None => r == Err::<(MobileMediaSession, String), MobileError>(MobileError::MediaError),
        },
{
    match local_port {
        Some(port) => {
            let codec = sdp::first_codec(preferred_codecs);
            let session = MobileMediaSession::new(SocketAddress::unspecified(), codec, port);
            let codecs = sdp::offer_codecs(preferred_codecs);
            let offer = sdp::build_sdp_offer(port, local_ip, codecs.as_slice());
            Ok((session, offer))
        },
        None => Err(MobileError::MediaError),
    }
}

// ── Receiving ───────────────────────────────────────────────────────────────

/// The session after a datagram of `len` bytes from `src`. Anything long
/// enough to be RTP is counted and makes its sender the peer (symmetric RTP).
pub open spec fn after_receiving(
    s: MobileMediaSession,
    len: nat,
    src: SocketAddress,
) -> MobileMediaSession {
    if len < MIN_RTP_LEN {
        s
    } else {
        MobileMediaSession {
            remote_addr: src,
            counters: MediaCounters {
                packets_received: s.counters.packets_received.wrapping_add(1),
                bytes_received: s.counters.bytes_received.wrapping_add(len as u64),
                ..s.counters
            },
            ..s
        }
    }
}

/// The audio to decode out of a datagram: the payload of a valid RTP packet,
/// unless the call is on hold, the packet carries a telephone event, or there
/// is no payload.
pub open spec fn audio_payload(s: MobileMediaSession, data: Seq<u8>) -> Option<Seq<u8>> {
    if s.on_hold {
        None
    } else {
        match packet::packet_parts(data) {
            Some((payload_type, payload)) => if payload_type == TELEPHONE_EVENT || payload.len()
                == 0 {
                None
            } else {
                Some(payload)
            },
            None => None,
        }
    }
}

/// Audio that came in.
#[derive(Debug, PartialEq, Eq)]
pub enum RxAudio {
    /// Samples to play.
    Samples(Vec<i16>),
    /// Audio in a codec of the host's, for the host to decode and play.
    Encoded(Vec<u8>),
}

/// [`RxAudio`] as plain values.
pub enum RxAudioView {
    Samples(Seq<i16>),
    Encoded(Seq<u8>),
}

impl View for RxAudio {
    type V = RxAudioView;

    open spec fn view(&self) -> RxAudioView {
        match *self {
            RxAudio::Samples(samples) => RxAudioView::Samples(samples@),
            RxAudio::Encoded(bytes) => RxAudioView::Encoded(bytes@),
        }
    }
}

/// What encoded audio means to a session: G.711 is decoded, anything else is
/// for the host to decode.
pub open spec fn heard(codec: AudioCodec, payload: Seq<u8>) -> RxAudioView {
    match audio::g711(codec) {
        Some(g711) => RxAudioView::Samples(audio::decoded_audio(g711, payload)),
        None => RxAudioView::Encoded(payload),
    }
}

/// The audio in a datagram.
pub open spec fn rx_audio(s: MobileMediaSession, data: Seq<u8>) -> Option<RxAudioView> {
    match audio_payload(s, data) {
        Some(payload) => Some(heard(s.codec, payload)),
        None => None,
    }
}

impl MobileMediaSession {
    /// Takes in a datagram; returns the encoded audio in it, if any.
    pub fn receive(&mut self, data: &[u8], src: SocketAddress) -> (r: Option<Vec<u8>>)
        ensures
            *final(self) == after_receiving(*old(self), data@.len(), src),
            match r {
                Some(payload) => audio_payload(*old(self), data@) == Some(payload@),
                None => audio_payload(*old(self), data@) is None,
            },
    {
        if data.len() < MIN_RTP_LEN {
            return None;
        }
        if self.remote_addr != src {
            self.remote_addr = src;
        }
        self.counters.packets_received = self.counters.packets_received.wrapping_add(1);
        self.counters.bytes_received = self.counters.bytes_received.wrapping_add(data.len() as u64);
        if self.on_hold {
            return None;
        }
        match packet::open_packet(data) {
            Some((payload_type, payload)) => if payload_type == TELEPHONE_EVENT || payload.len()
                == 0 {
                None
            } else {
                Some(payload)
            },
            None => None,
        }
    }

    /// Takes in a datagram; returns the audio in it, if any.
    pub fn receive_audio(&mut self, data: &[u8], src: SocketAddress) -> (r: Option<RxAudio>)
        ensures
            *final(self) == after_receiving(*old(self), data@.len(), src),
            match r {
                Some(audio) => rx_audio(*old(self), data@) == Some(audio@),
                None => rx_audio(*old(self), data@) is None,
            },
            r matches Some(RxAudio::Samples(samples)) ==> samples@.len() > 0,
    {
        match self.receive(data, src) {
            Some(payload) => match self.codec.decode_g711(payload.as_slice()) {
                Some(samples) => Some(RxAudio::Samples(samples)),
                None => Some(RxAudio::Encoded(payload)),
            },
            None => None,
        }
    }
}

// ── Sending ─────────────────────────────────────────────────────────────────

/// What the session sends in its next frame.
pub open spec fn next_frame(s: MobileMediaSession) -> TxPlan {
    if s.remote_addr.port == 0 {
        TxPlan::Wait
    } else if s.muted || s.on_hold {
        TxPlan::Silence
    } else {
        TxPlan::Capture
    }
}

/// One frame of silence.
pub open spec fn silent_frame(codec: AudioCodec) -> Seq<i16> {
    Seq::new(types::codec_frame_samples(codec) as nat, |i: int| 0i16)
}

/// The samples that a session sends when `captured` came from the microphone:
/// silence while it is muted or on hold, and if nothing was captured.
pub open spec fn outgoing_frame(s: MobileMediaSession, captured: Seq<i16>) -> Seq<i16> {
    if s.muted || s.on_hold || captured.len() == 0 {
        silent_frame(s.codec)
    } else {
        captured
    }
}

/// Audio to send.
#[derive(Debug, PartialEq, Eq)]
pub enum TxAudio {
    /// A packet to send.
    Packet(Vec<u8>),
    /// A frame in a codec of the host's, for the host to encode and hand to
    /// [`MobileMediaSession::tx_packet`].
    Frame(Vec<i16>),
}

/// [`TxAudio`] as plain values.
pub enum TxAudioView {
    Packet(Seq<u8>),
    Frame(Seq<i16>),
}

impl View for TxAudio {
    type V = TxAudioView;

    open spec fn view(&self) -> TxAudioView {
        match *self {
            TxAudio::Packet(bytes) => TxAudioView::Packet(bytes@),
            TxAudio::Frame(samples) => TxAudioView::Frame(samples@),
        }
    }
}

/// What a session sends when `captured` came from the microphone.
pub open spec fn sent_audio(s: MobileMediaSession, tx: TxState, captured: Seq<i16>) -> TxAudioView {
    match audio::g711(s.codec) {
        Some(g711) => TxAudioView::Packet(
            audio_packet(s, tx, audio::encoded_audio(g711, outgoing_frame(s, captured))),
        ),
        None => TxAudioView::Frame(outgoing_frame(s, captured)),
    }
}

/// The packet that carries one encoded frame.
pub open spec fn audio_packet(s: MobileMediaSession, tx: TxState, encoded: Seq<u8>) -> Seq<u8> {
    packet::packet_bytes(
        false,
        types::codec_payload_type(s.codec),
        tx.seq,
        tx.timestamp,
        s.ssrc,
        encoded,
    )
}

/// Where the stream stands after one more frame.
pub open spec fn tx_after(tx: TxState, codec: AudioCodec) -> TxState {
    TxState {
        seq: tx.seq.wrapping_add(1),
        timestamp: tx.timestamp.wrapping_add(types::codec_frame_samples(codec)),
    }
}

/// The session after a frame went out as a packet of `sent` bytes, or failed
/// to (`None`).
pub open spec fn after_sending(s: MobileMediaSession, sent: Option<usize>) -> MobileMediaSession {
    match sent {
        Some(len) => MobileMediaSession {
            counters: MediaCounters {
                packets_sent: s.counters.packets_sent.wrapping_add(1),
                bytes_sent: s.counters.bytes_sent.wrapping_add(len as u64),
                ..s.counters
            },
            ..s
        },
        None => s,
    }
}

impl TxState {
    /// A stream that starts at a random place.
    pub fn start() -> TxState {
        TxState { seq: random_u16(), timestamp: random_u32() }
    }
}

impl MobileMediaSession {
    /// What to send in the next frame.
    pub fn tx_plan(&self) -> (r: TxPlan)
        ensures
            r == next_frame(*self),
    {
        if self.remote_addr.port == 0 {
            TxPlan::Wait
        } else if self.muted || self.on_hold {
            TxPlan::Silence
        } else {
            TxPlan::Capture
        }
    }

    /// The samples to encode: what was captured, or silence if that is
    /// nothing, or the session is muted or on hold.
    pub fn tx_frame(&self, captured: Vec<i16>) -> (r: Vec<i16>)
        ensures
            r@ == outgoing_frame(*self, captured@),
    {
        if !self.muted && !self.on_hold && captured.len() > 0 {
            return captured;
        }
        let n = self.codec.frame_samples();
        let mut out: Vec<i16> = Vec::new();
        let mut i: u32 = 0;
        while i < n
            invariant
                i <= n,
                n == types::codec_frame_samples(self.codec),
                out@.len() == i,
                forall|j: int| 0 <= j < i ==> #[trigger] out@[j] == 0,
            decreases n - i,
        {
            out.push(0);
            i = i + 1;
        }
        assert(out@ =~= silent_frame(self.codec));
        out
    }

    /// The packet that carries one encoded frame.
    pub fn tx_packet(&self, tx: TxState, encoded: &[u8]) -> (r: Vec<u8>)
        ensures
            r@ == audio_packet(*self, tx, encoded@),
    {
        packet::build_packet(
            false,
            self.codec.payload_type(),
            tx.seq,
            tx.timestamp,
            self.ssrc,
            encoded,
        )
    }

    /// What to send of one frame of microphone samples: silence while the
    /// session is muted or on hold, and if there are no samples.
    pub fn tx_audio(&self, tx: TxState, captured: Vec<i16>) -> (r: TxAudio)
        ensures
            r@ == sent_audio(*self, tx, captured@),
            r matches TxAudio::Packet(bytes) ==> bytes@.len() == 12 + outgoing_frame(
                *self,
                captured@,
            ).len(),
    {
        let frame = self.tx_frame(captured);
        match self.codec.encode_g711(frame.as_slice()) {
            Some(encoded) => TxAudio::Packet(self.tx_packet(tx, encoded.as_slice())),
            None => TxAudio::Frame(frame),
        }
    }

    /// Accounts for one frame: `sent` is the packet's length if it went out.
    /// Returns where the stream stands now.
    pub fn tx_done(&mut self, tx: TxState, sent: Option<usize>) -> (r: TxState)
        ensures
            *final(self) == after_sending(*old(self), sent),
            r == tx_after(tx, old(self).codec),
    {
        if let Some(len) = sent {
            self.counters.packets_sent = self.counters.packets_sent.wrapping_add(1);
            self.counters.bytes_sent = self.counters.bytes_sent.wrapping_add(len as u64);
        }
        TxState {
            seq: tx.seq.wrapping_add(1),
            timestamp: tx.timestamp.wrapping_add(self.codec.frame_samples()),
        }
    }
}

// ── DTMF ────────────────────────────────────────────────────────────────────

/// RFC 2833 event code of a DTMF digit.
pub open spec fn dtmf_event_of(digit: Seq<char>) -> Option<u8> {
    if digit.len() != 1 {
        None
    } else if text::is_digit(digit[0]) {
        Some((digit[0] as int - 0x30) as u8)
    } else if digit[0] == '*' {
        Some(10)
    } else if digit[0] == '#' {
        Some(11)
    } else {
        None
    }
}

/// RFC 2833 event code of a DTMF digit.
pub fn dtmf_event(digit: &str) -> (r: Option<u8>)
    ensures
        r == dtmf_event_of(digit@),
{
    let chars = text::chars_of(digit);
    if chars.len() != 1 {
        return None;
    }
    event_of_key(chars[0])
}

fn event_of_key(key: char) -> (r: Option<u8>)
    ensures
        r == dtmf_event_of(seq![key]),
{
    let n: u32 = key as u32;
    if 0x30 <= n && n <= 0x39 {
        Some((n - 0x30) as u8)
    } else if key == '*' {
        Some(10)
    } else if key == '#' {
        Some(11)
    } else {
        None
    }
}

/// The `i`-th packet (from 0) of a telephone event. All packets of an event
/// share its timestamp. The first one has the marker bit; the durations grow
/// by 160 from packet to packet; the third one has the end bit.
pub open spec fn dtmf_packet(
    event: u8,
    i: int,
    seq_base: u16,
    timestamp: u32,
    ssrc: u32,
) -> Seq<u8> {
    let duration = 160 * (i + 1);
    packet::packet_bytes(
        i == 0,
        TELEPHONE_EVENT,
        seq_base.wrapping_add(i as u16),
        timestamp,
        ssrc,
        seq![
            event,
            if i == 2 {
                0x8Au8
            } else {
                0x0Au8
            },
            (duration / 0x100) as u8,
            (duration % 0x100) as u8,
        ],
    )
}

/// The packets of a telephone event in the order in which they are sent: the
/// third, which ends the event, goes out three times.
pub open spec fn is_dtmf_burst(
    burst: Seq<Vec<u8>>,
    event: u8,
    seq_base: u16,
    timestamp: u32,
    ssrc: u32,
) -> bool {
    &&& burst.len() == 5
    &&& forall|i: int|
        0 <= i < 5 ==> (#[trigger] burst[i])@ == dtmf_packet(
            event,
            if i < 2 {
                i
            } else {
                2
            },
            seq_base,
            timestamp,
            ssrc,
        )
}

/// The packets to send, 20 ms apart, for one telephone event.
pub fn dtmf_burst(event: u8, seq_base: u16, timestamp: u32, ssrc: u32) -> (r: Vec<Vec<u8>>)
    ensures
        is_dtmf_burst(r@, event, seq_base, timestamp, ssrc),
{
    let mut burst: Vec<Vec<u8>> = Vec::new();
    let mut sends: u16 = 0;
    while sends < 5
        invariant
            sends <= 5,
            burst@.len() == sends,
            forall|j: int|
                0 <= j < sends ==> (#[trigger] burst@[j])@ == dtmf_packet(
                    event,
                    if j < 2 {
                        j
                    } else {
                        2
                    },
                    seq_base,
                    timestamp,
                    ssrc,
                ),
        decreases 5 - sends,
    {
        let i: u16 = if sends < 2 {
            sends
        } else {
            2
        };
        let duration: u16 = 160 * (i + 1);
        let end: u8 = if i == 2 {
            0x8A
        } else {
            0x0A
        };
        let mut payload: Vec<u8> = Vec::new();
        payload.push(event);
        payload.push(end);
        payload.push((duration / 0x100) as u8);
        payload.push((duration % 0x100) as u8);
        let bytes = packet::build_packet(
            i == 0,
            TELEPHONE_EVENT,
            seq_base.wrapping_add(i),
            timestamp,
            ssrc,
            payload.as_slice(),
        );
        proof {
            assert(payload@ =~= seq![
                event,
                if i == 2 {
                    0x8Au8
                } else {
                    0x0Au8
                },
                (duration / 0x100) as u8,
                (duration % 0x100) as u8,
            ]);
            assert(bytes@ == dtmf_packet(event, i as int, seq_base, timestamp, ssrc));
        }
        burst.push(bytes);
        sends = sends + 1;
    }
    burst
}

/// `r` is what a session sends for a DTMF digit: nothing for anything but
/// `0`-`9`, `*` and `#`, and while the peer is not known, else a burst of
/// packets that starts at some sequence number and timestamp.
pub open spec fn is_dtmf_reply(
    s: MobileMediaSession,
    digit: Seq<char>,
    r: Option<Vec<Vec<u8>>>,
) -> bool {
    if s.remote_addr.port == 0 || dtmf_event_of(digit) is None {
        r is None
    } else {
        r is Some && exists|seq_base: u16, timestamp: u32| #[trigger]
            is_dtmf_burst(r->0@, dtmf_event_of(digit)->0, seq_base, timestamp, s.ssrc)
    }
}

impl MobileMediaSession {
    /// The packets that send a DTMF digit, with random sequence start and
    /// timestamp. `None` for anything but `0`-`9`, `*` and `#`, and while the
    /// peer is not known.
    pub fn send_dtmf(&self, digit: &str) -> (r: Option<Vec<Vec<u8>>>)
        ensures
            is_dtmf_reply(*self, digit@, r),
    {
        let event = match dtmf_event(digit) {
            Some(event) => event,
            None => return None,
        };
        if self.remote_addr.port == 0 {
            return None;
        }
        let timestamp = random_u32();
        let seq_base = random_u16();
        let burst = Some(dtmf_burst(event, seq_base, timestamp, self.ssrc));
        assert(is_dtmf_burst(
            burst->0@,
            dtmf_event_of(digit@)->0,
            seq_base,
            timestamp,
            self.ssrc,
        ));
        burst
    }
}

// ── Laws ────────────────────────────────────────────────────────────────────

/// A frame that one session sends, another session that is not on hold hears
/// from exactly the encoded bytes.
pub proof fn sent_audio_is_received(
    sender: MobileMediaSession,
    tx: TxState,
    encoded: Seq<u8>,
    receiver: MobileMediaSession,
)
    requires
        encoded.len() > 0,
        !receiver.on_hold,
    ensures
        audio_payload(receiver, audio_packet(sender, tx, encoded)) == Some(encoded),
        rx_audio(receiver, audio_packet(sender, tx, encoded)) == Some(
            heard(receiver.codec, encoded),
        ),
{
    types::payload_types_are_distinct(sender.codec, sender.codec);
    packet::packets_open_to_what_was_put_in(
        false,
        types::codec_payload_type(sender.codec),
        tx.seq,
        tx.timestamp,
        sender.ssrc,
        encoded,
    );
}

/// Media for a description that a session wrote goes to the address and port
/// that it announces.
pub proof fn described_media_finds_its_way(
    port: u16,
    octets: u32,
    codecs: Seq<AudioCodec>,
    bracketed: Option<IpAddress>,
)
    requires
        codecs.len() > 0,
    ensures
        remote_address(sdp::session_text(port, host::quad_text(octets), codecs), bracketed)
            == Some(SocketAddress { ip: IpAddress::V4 { octets }, port }),
{
    let ip = host::quad_text(octets);
    host::lemma_quad_text(octets);
    assert(sdp_laws::plain_address(ip)) by {
        assert forall|i: int| 0 <= i < ip.len() implies #[trigger] ip[i] != '\n' by {
            assert(ip[i] == '.' || text::is_digit(ip[i]));
        }
        assert(ip[0] == '.' || text::is_digit(ip[0]));
        assert(ip[ip.len() - 1] == '.' || text::is_digit(ip[ip.len() - 1]));
    }
    sdp_laws::parsing_reads_back_the_description(port, ip, codecs);
    host::dotted_quads_read_back(octets);
}

/// Telephone events are never taken for audio.
pub proof fn dtmf_is_not_audio(
    event: u8,
    i: int,
    seq_base: u16,
    timestamp: u32,
    ssrc: u32,
    receiver: MobileMediaSession,
)
    requires
        0 <= i < 3,
    ensures
        audio_payload(receiver, dtmf_packet(event, i, seq_base, timestamp, ssrc)) is None,
{
    let duration = 160 * (i + 1);
    packet::packets_open_to_what_was_put_in(
        i == 0,
        TELEPHONE_EVENT,
        seq_base.wrapping_add(i as u16),
        timestamp,
        ssrc,
        seq![
            event,
            if i == 2 {
                0x8Au8
            } else {
                0x0Au8
            },
            (duration / 0x100) as u8,
            (duration % 0x100) as u8,
        ],
    );
}

/// A muted or held call sends silence, never what the microphone picks up: it
/// does not ask for samples, and samples that it is handed all the same make
/// no difference to what it sends.
pub proof fn muted_or_held_call_sends_silence(
    s: MobileMediaSession,
    tx: TxState,
    captured: Seq<i16>,
)
    requires
        s.muted || s.on_hold,
    ensures
        next_frame(s) != TxPlan::Capture,
        s.remote_addr.port != 0 ==> next_frame(s) == TxPlan::Silence,
        sent_audio(s, tx, captured) == match audio::g711(s.codec) {
            Some(g711) => TxAudioView::Packet(
                audio_packet(s, tx, audio::encoded_audio(g711, silent_frame(s.codec))),
            ),
            None => TxAudioView::Frame(silent_frame(s.codec)),
        },
{
}

/// Symmetric RTP: after a packet from `src`, packets go to `src`.
pub proof fn packets_follow_the_sender(s: MobileMediaSession, len: nat, src: SocketAddress)
    requires
        len >= MIN_RTP_LEN,
    ensures
        after_receiving(s, len, src).remote_addr == src,
        src.port != 0 ==> next_frame(after_receiving(s, len, src)) != TxPlan::Wait,
{
}

/// The stream `n` frames on.
pub open spec fn tx_after_frames(tx: TxState, codec: AudioCodec, n: nat) -> TxState
    decreases n,
{
    if n == 0 {
        tx
    } else {
        tx_after(tx_after_frames(tx, codec, (n - 1) as nat), codec)
    }
}

/// Sequence numbers count frames and timestamps count samples, each modulo
/// its width.
pub proof fn stream_counts_frames_and_samples(tx: TxState, codec: AudioCodec, n: nat)
    ensures
        tx_after_frames(tx, codec, n).seq == (tx.seq + n) % 0x1_0000,
        tx_after_frames(tx, codec, n).timestamp == (tx.timestamp + n
            * types::codec_frame_samples(codec)) % 0x1_0000_0000,
    decreases n,
{
    if n > 0 {
        stream_counts_frames_and_samples(tx, codec, (n - 1) as nat);
        let frame = types::codec_frame_samples(codec) as int;
        assert(n * frame == (n - 1) * frame + frame) by (nonlinear_arith);
    }
}

/// Any packet that carries audio is heard by a session that is not on hold,
/// with or without the marker bit, and whatever payload type it has but that
/// of telephone events: it is decoded by the codec of the session if that is
/// G.711, and handed to the host as it is otherwise.
pub proof fn packets_with_audio_are_heard(
    receiver: MobileMediaSession,
    marker: bool,
    payload_type: u8,
    sequence: u16,
    timestamp: u32,
    ssrc: u32,
    payload: Seq<u8>,
)
    requires
        !receiver.on_hold,
        payload_type < 128,
        payload_type != 101,
        payload.len() > 0,
    ensures
        ({
            let data = packet::packet_bytes(
                marker,
                payload_type,
                sequence,
                timestamp,
                ssrc,
                payload,
            );
            &&& audio_payload(receiver, data) == Some(payload)
            &&& rx_audio(receiver, data) == Some(
                match receiver.codec {
                    AudioCodec::Pcmu => RxAudioView::Samples(
                        audio::decoded_audio(rtp_engine::CodecType::Pcmu, payload),
                    ),
                    AudioCodec::Pcma => RxAudioView::Samples(
                        audio::decoded_audio(rtp_engine::CodecType::Pcma, payload),
                    ),
                    AudioCodec::Opus => RxAudioView::Encoded(payload),
                    AudioCodec::G729 => RxAudioView::Encoded(payload),
                },
            )
        }),
{
    packet::packets_open_to_what_was_put_in(
        marker,
        payload_type,
        sequence,
        timestamp,
        ssrc,
        payload,
    );
}

/// Whatever stands behind the header of a packet is heard, also if sources or
/// an extension stand in the header.
pub proof fn audio_stands_behind_the_header(receiver: MobileMediaSession, data: Seq<u8>)
    requires
        !receiver.on_hold,
        data.len() >= 12,
        128 <= data[0] < 192,
        data[1] != 101,
        data[1] != 229,
    ensures
        ({
            let fixed = 12 + 4 * (data[0] % 16);
            if data[0] / 16 == 8 || data[0] / 16 == 10 {
                audio_payload(receiver, data) == if data.len() > fixed {
                    Some(data.skip(fixed))
                } else {
                    None
                }
            } else {
                let end = fixed + 4 + 4 * (data[fixed + 2] * 256 + data[fixed + 3]);
                audio_payload(receiver, data) == if data.len() > fixed + 4 && data.len() > end {
                    Some(data.skip(end))
                } else {
                    None
                }
            }
        }),
{
    packet::payload_stands_behind_the_header(data);
}

/// Nothing is heard on hold, in data that is no RTP, in a telephone event, and
/// in a packet without payload.
pub proof fn nothing_else_is_heard(receiver: MobileMediaSession, data: Seq<u8>)
    requires
        receiver.on_hold || data.len() <= 12 || data[0] < 128 || data[0] >= 192 || data[1] == 101
            || data[1] == 229,
    ensures
        audio_payload(receiver, data) is None,
        rx_audio(receiver, data) is None,
{
}

/// What is heard depends on the hold and the codec of a session, and on
/// nothing else of it.
pub proof fn hearing_depends_on_hold_and_codec(
    a: MobileMediaSession,
    b: MobileMediaSession,
    data: Seq<u8>,
)
    requires
        a.on_hold == b.on_hold,
    ensures
        audio_payload(a, data) == audio_payload(b, data),
        a.codec == b.codec ==> rx_audio(a, data) == rx_audio(b, data),
{
}

/// Every datagram of at least twelve bytes makes its sender the peer and is
/// counted with all of its bytes; a shorter one leaves no trace. Nothing else
/// changes.
pub proof fn datagrams_are_counted(s: MobileMediaSession, len: nat, src: SocketAddress)
    requires
        len <= u64::MAX,
    ensures
        len < 12 ==> after_receiving(s, len, src) == s,
        len >= 12 ==> {
            let t = after_receiving(s, len, src);
            &&& t.remote_addr == src
            &&& t.counters.packets_received == (s.counters.packets_received + 1)
                % 18446744073709551616
            &&& t.counters.bytes_received == (s.counters.bytes_received + len)
                % 18446744073709551616
            &&& t.counters.packets_sent == s.counters.packets_sent
            &&& t.counters.bytes_sent == s.counters.bytes_sent
            &&& t == (MobileMediaSession {
                remote_addr: t.remote_addr,
                counters: t.counters,
                ..s
            })
        },
{
}

/// The packet of a frame carries the payload type number of the session's
/// codec and the encoded bytes. Its marker bit is off, and its sequence number,
/// timestamp and source are those of the stream and the session.
pub proof fn frames_travel_under_their_codec(
    s: MobileMediaSession,
    tx: TxState,
    encoded: Seq<u8>,
)
    ensures
        ({
            let p = audio_packet(s, tx, encoded);
            let number: u8 = match s.codec {
                AudioCodec::Pcmu => 0,
                AudioCodec::Pcma => 8,
                AudioCodec::Opus => 111,
                AudioCodec::G729 => 18,
            };
            &&& packet::packet_parts(p) == Some((number, encoded))
            &&& p.len() == 12 + encoded.len()
            &&& p[0] == 128
            &&& p[1] == number
            &&& p[2] * 256 + p[3] == tx.seq
            &&& p[4] * 16777216 + p[5] * 65536 + p[6] * 256 + p[7] == tx.timestamp
            &&& p[8] * 16777216 + p[9] * 65536 + p[10] * 256 + p[11] == s.ssrc
            &&& p.skip(12) == encoded
        }),
{
    let number = types::codec_payload_type(s.codec);
    packet::packets_open_to_what_was_put_in(
        false,
        number,
        tx.seq,
        tx.timestamp,
        s.ssrc,
        encoded,
    );
    packet::packets_spell_out_their_fields(
        false,
        number,
        tx.seq,
        tx.timestamp,
        s.ssrc,
        encoded,
    );
}

/// A session that is neither muted nor on hold sends all that was captured, and
/// nothing but that: encoded by its codec and in a packet if that is G.711, to
/// be encoded by the host otherwise.
pub proof fn captured_audio_is_sent(s: MobileMediaSession, tx: TxState, captured: Seq<i16>)
    requires
        !s.muted,
        !s.on_hold,
        captured.len() > 0,
    ensures
        outgoing_frame(s, captured) == captured,
        match (s.codec, sent_audio(s, tx, captured)) {
            (AudioCodec::Pcmu, TxAudioView::Packet(p)) => packet::packet_parts(p) == Some(
                (0u8, audio::encoded_audio(rtp_engine::CodecType::Pcmu, captured)),
            ),
            (AudioCodec::Pcma, TxAudioView::Packet(p)) => packet::packet_parts(p) == Some(
                (8u8, audio::encoded_audio(rtp_engine::CodecType::Pcma, captured)),
            ),
            (AudioCodec::Opus, TxAudioView::Frame(frame)) => frame == captured,
            (AudioCodec::G729, TxAudioView::Frame(frame)) => frame == captured,
            _ => false,
        },
{
    frames_travel_under_their_codec(
        s,
        tx,
        audio::encoded_audio(rtp_engine::CodecType::Pcmu, captured),
    );
    frames_travel_under_their_codec(
        s,
        tx,
        audio::encoded_audio(rtp_engine::CodecType::Pcma, captured),
    );
}

/// Silence is twenty milliseconds of zeros. It is sent if nothing was captured,
/// or the session is muted or on hold.
pub proof fn silence_is_a_frame_of_zeros(s: MobileMediaSession, captured: Seq<i16>, i: int)
    requires
        s.muted || s.on_hold || captured.len() == 0,
    ensures
        outgoing_frame(s, captured).len() == match s.codec {
            AudioCodec::Pcmu => 160nat,
            AudioCodec::Pcma => 160,
            AudioCodec::Opus => 960,
            AudioCodec::G729 => 160,
        },
        0 <= i < outgoing_frame(s, captured).len() ==> outgoing_frame(s, captured)[i] == 0,
{
}

/// Nothing is sent to a peer that is not known; a known peer is sent what the
/// microphone picks up, unless the session is muted or on hold. Nothing else
/// matters.
pub proof fn frames_wait_for_a_peer(s: MobileMediaSession)
    ensures
        s.remote_addr.port == 0 ==> next_frame(s) == TxPlan::Wait,
        s.remote_addr.port != 0 && (s.muted || s.on_hold) ==> next_frame(s) == TxPlan::Silence,
        s.remote_addr.port != 0 && !s.muted && !s.on_hold ==> next_frame(s) == TxPlan::Capture,
{
}

/// One frame on, the sequence number is one higher and the timestamp a frame of
/// samples, whether or not the packet could be sent.
pub proof fn frames_advance_the_stream(tx: TxState, codec: AudioCodec)
    ensures
        tx_after(tx, codec).seq == (tx.seq + 1) % 65536,
        tx_after(tx, codec).timestamp == (tx.timestamp + match codec {
            AudioCodec::Opus => 960int,
            AudioCodec::Pcmu | AudioCodec::Pcma | AudioCodec::G729 => 160,
        }) % 4294967296,
{
}

/// A packet that was sent is counted with its bytes; one that was not leaves no
/// trace. Nothing else changes.
pub proof fn sent_packets_are_counted(s: MobileMediaSession, len: usize)
    ensures
        after_sending(s, None) == s,
        ({
            let t = after_sending(s, Some(len));
            &&& t.counters.packets_sent == (s.counters.packets_sent + 1) % 18446744073709551616
            &&& t.counters.bytes_sent == (s.counters.bytes_sent + len) % 18446744073709551616
            &&& t.counters.packets_received == s.counters.packets_received
            &&& t.counters.bytes_received == s.counters.bytes_received
            &&& t == (MobileMediaSession { counters: t.counters, ..s })
        }),
{
}

/// A new session sends and plays: it runs, is neither muted nor on hold, and
/// has counted nothing. It is not encrypted and not recorded.
pub proof fn new_sessions_are_live_and_empty(
    remote_addr: SocketAddress,
    codec: AudioCodec,
    local_port: u16,
    ssrc: u32,
)
    ensures
        ({
            let s = fresh_session(remote_addr, codec, local_port, ssrc);
            &&& s.remote_addr == remote_addr && s.codec == codec
            &&& s.local_port == local_port && s.ssrc == ssrc
            &&& s.running && !s.muted && !s.on_hold
            &&& s.counters.packets_sent == 0 && s.counters.bytes_sent == 0
            &&& s.counters.packets_received == 0 && s.counters.bytes_received == 0
            &&& s.rx_level == 0 && s.tx_level == 0
            &&& !s.srtp_active && s.ai_tap is None
        }),
{
}

/// The twelve keys of a keypad, in the order of their event codes, are the only
/// digits.
pub proof fn keys_are_numbered_in_order(digit: Seq<char>, event: u8)
    ensures
        dtmf_event_of(digit) == Some(event) <==> event < 12 && digit == seq![
            "0123456789*#"@[event as int],
        ],
{
    reveal_strlit("0123456789*#");
    let keys = "0123456789*#"@;
    assert(keys[0] == '0' && keys[1] == '1' && keys[2] == '2' && keys[3] == '3');
    assert(keys[4] == '4' && keys[5] == '5' && keys[6] == '6' && keys[7] == '7');
    assert(keys[8] == '8' && keys[9] == '9' && keys[10] == '*' && keys[11] == '#');
    if event < 12 && digit == seq![keys[event as int]] {
        assert(digit[0] == keys[event as int]);
    }
    if dtmf_event_of(digit) == Some(event) {
        assert(digit[0] == keys[event as int]);
        assert(digit =~= seq![keys[event as int]]);
    }
}

/// The packets of a digit, byte by byte: five of them, the last three alike.
/// All carry payload type 101, one timestamp and the event; only the first one
/// has the marker bit; durations are 160, 320 and 480 samples; only the last
/// three have the end bit; and sequence numbers count up to the third.
pub proof fn digits_are_sent_as_telephone_events(
    burst: Seq<Vec<u8>>,
    event: u8,
    seq_base: u16,
    timestamp: u32,
    ssrc: u32,
    i: int,
)
    requires
        is_dtmf_burst(burst, event, seq_base, timestamp, ssrc),
        0 <= i < burst.len(),
    ensures
        burst.len() == 5,
        ({
            let p = burst[i]@;
            let step: int = if i == 0 {
                0
            } else if i == 1 {
                1
            } else {
                2
            };
            &&& p.len() == 16
            &&& p[0] == 128
            &&& p[1] == if i == 0 {
                229
            } else {
                101int
            }
            &&& p[2] * 256 + p[3] == (seq_base + step) % 65536
            &&& p[4] * 16777216 + p[5] * 65536 + p[6] * 256 + p[7] == timestamp
            &&& p[8] * 16777216 + p[9] * 65536 + p[10] * 256 + p[11] == ssrc
            &&& p[12] == event
            &&& p[13] == if i >= 2 {
                138
            } else {
                10int
            }
            &&& p[14] * 256 + p[15] == 160 + 160 * step
        }),
{
    let step: int = if i < 2 { i } else { 2 };
    assert(burst[i]@ == dtmf_packet(event, step, seq_base, timestamp, ssrc));
    lemma_dtmf_header(event, step, seq_base, timestamp, ssrc);
    lemma_dtmf_payload(event, step, seq_base, timestamp, ssrc);
}

#[verifier::spinoff_prover]
proof fn lemma_dtmf_header(event: u8, step: int, seq_base: u16, timestamp: u32, ssrc: u32)
    requires
        0 <= step < 3,
    ensures
        ({
            let p = dtmf_packet(event, step, seq_base, timestamp, ssrc);
            &&& p[0] == 128
            &&& p[1] == if step == 0 {
                229
            } else {
                101int
            }
            &&& p[2] * 256 + p[3] == (seq_base + step) % 65536
            &&& p[4] * 16777216 + p[5] * 65536 + p[6] * 256 + p[7] == timestamp
            &&& p[8] * 16777216 + p[9] * 65536 + p[10] * 256 + p[11] == ssrc
        }),
{
    let duration = 160 * (step + 1);
    let sequence = seq_base.wrapping_add(step as u16);
    assert(sequence == (seq_base + step) % 65536);
    packet::packets_spell_out_their_fields(
        step == 0,
        101,
        sequence,
        timestamp,
        ssrc,
        seq![
            event,
            if step == 2 {
                0x8Au8
            } else {
                0x0Au8
            },
            (duration / 0x100) as u8,
            (duration % 0x100) as u8,
        ],
    );
}

#[verifier::spinoff_prover]
proof fn lemma_dtmf_payload(event: u8, step: int, seq_base: u16, timestamp: u32, ssrc: u32)
    requires
        0 <= step < 3,
    ensures
        ({
            let p = dtmf_packet(event, step, seq_base, timestamp, ssrc);
            &&& p.len() == 16
            &&& p[12] == event
            &&& p[13] == if step == 2 {
                138
            } else {
                10int
            }
            &&& p[14] * 256 + p[15] == 160 + 160 * step
        }),
{
    assert(step == 0 || step == 1 || step == 2);
}

/// A digit is sent exactly if it is a key and the peer is known: by five packets
/// with the code of the key and the session's source, all with one timestamp.
pub proof fn digits_are_sent_to_a_known_peer(
    s: MobileMediaSession,
    digit: Seq<char>,
    r: Option<Vec<Vec<u8>>>,
    i: int,
)
    requires
        is_dtmf_reply(s, digit, r),
    ensures
        r is Some <==> s.remote_addr.port != 0 && exists|e: int|
            0 <= e < 12 && digit == seq![#[trigger] "0123456789*#"@[e]],
        r is Some && 0 <= i < r->0@.len() ==> {
            let p = r->0@[i]@;
            let first = r->0@[0]@;
            let step: int = if i < 2 {
                i
            } else {
                2
            };
            &&& r->0@.len() == 5
            &&& p.len() == 16
            &&& p[0] == 128
            &&& p[1] == if i == 0 {
                229
            } else {
                101int
            }
            &&& p[2] * 256 + p[3] == (first[2] * 256 + first[3] + step) % 65536
            &&& p[4] == first[4] && p[5] == first[5] && p[6] == first[6] && p[7] == first[7]
            &&& p[8] * 16777216 + p[9] * 65536 + p[10] * 256 + p[11] == s.ssrc
            &&& p[12] < 12
            &&& digit == seq!["0123456789*#"@[p[12] as int]]
            &&& p[13] == if i >= 2 {
                138
            } else {
                10int
            }
            &&& p[14] * 256 + p[15] == 160 + 160 * step
        },
{
    if exists|e: int| 0 <= e < 12 && digit == seq![#[trigger] "0123456789*#"@[e]] {
        let e = choose|e: int| 0 <= e < 12 && digit == seq![#[trigger] "0123456789*#"@[e]];
        keys_are_numbered_in_order(digit, e as u8);
    }
    if dtmf_event_of(digit) is Some {
        let event = dtmf_event_of(digit)->0;
        keys_are_numbered_in_order(digit, event);
        assert(digit == seq!["0123456789*#"@[event as int]]);
    }
    if r is Some && 0 <= i < r->0@.len() {
        let event = dtmf_event_of(digit)->0;
        let (seq_base, timestamp) = choose|seq_base: u16, timestamp: u32| #[trigger]
            is_dtmf_burst(r->0@, event, seq_base, timestamp, s.ssrc);
        digits_are_sent_as_telephone_events(r->0@, event, seq_base, timestamp, s.ssrc, i);
        digits_are_sent_as_telephone_events(r->0@, event, seq_base, timestamp, s.ssrc, 0);
        let p = r->0@[i]@;
        let first = r->0@[0]@;
        lemma_same_bytes(p[4], p[5], p[6], p[7], first[4], first[5], first[6], first[7]);
    }
}

/// Bytes that make up the same number are the same.
#[verifier::spinoff_prover]
proof fn lemma_same_bytes(a: u8, b: u8, c: u8, d: u8, e: u8, f: u8, g: u8, h: u8)
    requires
        a * 16777216 + b * 65536 + c * 256 + d == e * 16777216 + f * 65536 + g * 256 + h,
    ensures
        a == e,
        b == f,
        c == g,
        d == h,
{
    text::lemma_bytes_of(a as nat, b as nat, c as nat, d as nat);
    text::lemma_bytes_of(e as nat, f as nat, g as nat, h as nat);
}

/// An address in a description is a dotted quad, or stands in brackets and is
/// what the host reads there; the port is the one that the description gives.
pub proof fn media_goes_to_the_described_address(
    sdp: Seq<char>,
    bracketed: Option<IpAddress>,
    name: Seq<char>,
    port: nat,
    codec: AudioCodec,
    octets: u32,
)
    requires
        sdp::remote_of(sdp) == Some((name, port, codec)),
        port <= 65535,
    ensures
        name == host::quad_text(octets) ==> remote_address(sdp, bracketed) == Some(
            SocketAddress { ip: IpAddress::V4 { octets }, port: port as u16 },
        ),
        name.len() > 0 && name[0] == '[' ==> remote_address(sdp, bracketed) == match bracketed {
            Some(ip) => Some(SocketAddress { ip, port: port as u16 }),
            None => None,
        },
        (remote_address(sdp, bracketed) matches Some(addr) ==> addr.port == port),
        host::dotted_quad(name) is None && (name.len() == 0 || name[0] != '[') ==> remote_address(
            sdp,
            bracketed,
        ) is None,
{
    if name == host::quad_text(octets) {
        host::dotted_quads_read_back(octets);
    }
    if name.len() > 0 && name[0] == '[' {
        host::brackets_are_no_dotted_quad(name);
    }
}

/// Audio is handed over as it is noted.
pub proof fn audio_is_handed_over_as_noted(samples: Vec<i16>, bytes: Vec<u8>)
    ensures
        RxAudio::Samples(samples)@ == RxAudioView::Samples(samples@),
        RxAudio::Encoded(bytes)@ == RxAudioView::Encoded(bytes@),
        TxAudio::Packet(bytes)@ == TxAudioView::Packet(bytes@),
        TxAudio::Frame(samples)@ == TxAudioView::Frame(samples@),
{
}

} // verus!
