use aria_mobile_core::audio::RtpCodec;
use aria_mobile_core::media::{
    create_answer_session, create_offer_session, discover_local_ip, dtmf_burst, dtmf_event,
    remote_from_sdp, MobileMediaSession, RxAudio, TxAudio, TxPlan, TxState,
};
use aria_mobile_core::packet::{build_packet, open_packet};
use aria_mobile_core::types::{AudioCodec, IpAddress, MobileError, SocketAddress};

const PEER: SocketAddress =
    SocketAddress { ip: IpAddress::V4 { octets: 0xC000_0201 }, port: 4000 };
const OTHER: SocketAddress =
    SocketAddress { ip: IpAddress::V4 { octets: 0xC000_0202 }, port: 5000 };

fn session(codec: AudioCodec) -> MobileMediaSession {
    MobileMediaSession::with_ssrc(PEER, codec, 10_000, 0x0102_0304)
}

#[test]
fn codec_parameters() {
    let expected = [
        (AudioCodec::Pcmu, 0, "PCMU", 8000, 160),
        (AudioCodec::Pcma, 8, "PCMA", 8000, 160),
        (AudioCodec::Opus, 111, "opus", 48000, 960),
        (AudioCodec::G729, 18, "G729", 8000, 160),
    ];
    for (codec, pt, name, rate, frame) in expected {
        assert_eq!(codec.payload_type(), pt);
        assert_eq!(codec.name(), name);
        assert_eq!(codec.clock_rate(), rate);
        assert_eq!(codec.frame_samples(), frame);
    }
}

#[test]
fn packet_layout() {
    let p = build_packet(true, 101, 0x1234, 0x89AB_CDEF, 0x0102_0304, &[9, 8]);
    assert_eq!(
        p,
        vec![0x80, 0x80 | 101, 0x12, 0x34, 0x89, 0xAB, 0xCD, 0xEF, 1, 2, 3, 4, 9, 8]
    );
    assert_eq!(open_packet(&p), Some((101, vec![9, 8])));
}

#[test]
fn packets_with_sources_and_extension_are_opened() {
    // Two contributing sources and a one-word extension.
    let mut p = vec![0x80 | 0x10 | 2, 8, 0, 1, 0, 0, 0, 2, 0, 0, 0, 3];
    p.extend_from_slice(&[1, 1, 1, 1, 2, 2, 2, 2]);
    p.extend_from_slice(&[0xBE, 0xDE, 0, 1, 5, 5, 5, 5]);
    p.extend_from_slice(&[42, 43]);
    assert_eq!(open_packet(&p), Some((8, vec![42, 43])));
    // Cut off inside the extension.
    assert_eq!(open_packet(&p[..26]), None);
}

#[test]
fn broken_packets_are_not_opened() {
    assert_eq!(open_packet(&[]), None);
    assert_eq!(open_packet(&[0x80; 11]), None);
    let mut version1 = build_packet(false, 0, 1, 2, 3, &[1]);
    version1[0] = 0x40;
    assert_eq!(open_packet(&version1), None);
}

#[test]
fn audio_is_taken_from_packets() {
    let mut s = session(AudioCodec::Pcmu);
    let p = build_packet(false, 0, 7, 8, 9, &[0xFF, 0x7F, 0x00]);
    assert_eq!(s.receive(&p, OTHER), Some(vec![0xFF, 0x7F, 0x00]));
    // Symmetric RTP: the sender becomes the peer.
    assert_eq!(s.remote_addr, OTHER);
    assert_eq!(s.stats().packets_received, 1);
    assert_eq!(s.stats().bytes_received, 15);
}

#[test]
fn short_datagrams_are_ignored() {
    let mut s = session(AudioCodec::Pcmu);
    let before = s;
    assert_eq!(s.receive(&[0x80; 11], OTHER), None);
    assert_eq!(s, before);
}

#[test]
fn counted_but_silent_datagrams() {
    let mut s = session(AudioCodec::Pcmu);
    // DTMF, an empty payload, and no RTP at all.
    assert_eq!(s.receive(&build_packet(false, 101, 1, 2, 3, &[1, 2, 3, 4]), OTHER), None);
    assert_eq!(s.receive(&build_packet(false, 0, 1, 2, 3, &[]), OTHER), None);
    assert_eq!(s.receive(&[0; 20], OTHER), None);
    // On hold.
    s.set_hold(true);
    assert_eq!(s.receive(&build_packet(false, 0, 1, 2, 3, &[1]), PEER), None);
    assert_eq!(s.remote_addr, PEER);
    assert_eq!(s.stats().packets_received, 4);
    assert_eq!(s.stats().bytes_received, 16 + 12 + 20 + 13);
}

#[test]
fn received_audio_is_decoded() {
    let mut s = session(AudioCodec::Pcmu);
    let p = build_packet(false, 0, 7, 8, 9, &[0xFF, 0x80, 0x00]);
    // mu-law: 0xFF is zero, 0x80 and 0x00 are the loudest samples.
    assert_eq!(s.receive_audio(&p, PEER), Some(RxAudio::Samples(vec![0, 32124, -32124])));
    let mut a = session(AudioCodec::Pcma);
    // A-law: 0xD5 is the smallest positive sample.
    assert_eq!(
        a.receive_audio(&build_packet(false, 8, 7, 8, 9, &[0xD5]), PEER),
        Some(RxAudio::Samples(vec![8]))
    );
}

#[test]
fn received_audio_in_a_codec_of_the_host_is_handed_over() {
    let p = |pt| build_packet(false, pt, 7, 8, 9, &[1, 2, 3]);
    let mut opus = session(AudioCodec::Opus);
    assert_eq!(opus.receive_audio(&p(111), OTHER), Some(RxAudio::Encoded(vec![1, 2, 3])));
    assert_eq!(opus.remote_addr, OTHER);
    assert_eq!(opus.stats().packets_received, 1);
    let mut g729 = session(AudioCodec::G729);
    assert_eq!(g729.receive_audio(&p(18), PEER), Some(RxAudio::Encoded(vec![1, 2, 3])));
    opus.set_hold(true);
    assert_eq!(opus.receive_audio(&p(111), OTHER), None);
}

#[test]
fn codecs_of_the_engine() {
    assert_eq!(AudioCodec::Pcmu.to_rtp_codec(), RtpCodec::Pcmu);
    assert_eq!(AudioCodec::Pcma.to_rtp_codec(), RtpCodec::Pcma);
    assert_eq!(AudioCodec::Opus.to_rtp_codec(), RtpCodec::Opus);
    assert_eq!(AudioCodec::G729.to_rtp_codec(), RtpCodec::G729);
    assert_eq!(AudioCodec::Pcmu.encode_g711(&[0, 0]), Some(vec![0xFF, 0xFF]));
    assert_eq!(AudioCodec::Pcma.encode_g711(&[0]), Some(vec![0xD5]));
    assert_eq!(AudioCodec::Pcmu.decode_g711(&[0xFF]), Some(vec![0]));
    assert_eq!(AudioCodec::Opus.encode_g711(&[0; 960]), None);
    assert_eq!(AudioCodec::G729.decode_g711(&[0; 10]), None);
}

#[test]
fn next_frame_depends_on_the_state() {
    let mut s = session(AudioCodec::Pcmu);
    assert_eq!(s.tx_plan(), TxPlan::Capture);
    s.set_mute(true);
    assert_eq!(s.tx_plan(), TxPlan::Silence);
    s.set_mute(false);
    s.set_hold(true);
    assert_eq!(s.tx_plan(), TxPlan::Silence);
    s.set_hold(false);
    s.update_remote(SocketAddress::unspecified());
    assert_eq!(s.tx_plan(), TxPlan::Wait);
}

#[test]
fn frames_are_silence_if_nothing_was_captured() {
    assert_eq!(session(AudioCodec::Pcmu).tx_frame(Vec::new()), vec![0i16; 160]);
    assert_eq!(session(AudioCodec::Opus).tx_frame(Vec::new()), vec![0i16; 960]);
    assert_eq!(session(AudioCodec::Pcmu).tx_frame(vec![1, -2]), vec![1, -2]);
}

#[test]
fn sent_frame_is_heard_by_the_peer() {
    let s = session(AudioCodec::Pcmu);
    let tx = TxState { seq: 0xFFFF, timestamp: 1000 };
    let TxAudio::Packet(p) = s.tx_audio(tx, Vec::new()) else {
        panic!("G.711 is sent as it is");
    };
    assert_eq!(p.len(), 172);
    assert_eq!(&p[..12], &[0x80, 0, 0xFF, 0xFF, 0, 0, 3, 0xE8, 1, 2, 3, 4]);
    let mut peer = MobileMediaSession::new(OTHER, AudioCodec::Pcmu, 1);
    assert_eq!(peer.receive_audio(&p, PEER), Some(RxAudio::Samples(vec![0i16; 160])));
}

#[test]
fn frame_in_a_codec_of_the_host_is_handed_over() {
    let tx = TxState { seq: 7, timestamp: 1000 };
    let s = session(AudioCodec::Opus);
    assert_eq!(s.tx_audio(tx, vec![5; 960]), TxAudio::Frame(vec![5; 960]));
    assert_eq!(s.tx_audio(tx, Vec::new()), TxAudio::Frame(vec![0; 960]));
    // What the host makes of it is heard by the peer's host.
    let p = s.tx_packet(tx, &[1, 2, 3]);
    let mut peer = MobileMediaSession::new(OTHER, AudioCodec::Opus, 1);
    assert_eq!(peer.receive_audio(&p, PEER), Some(RxAudio::Encoded(vec![1, 2, 3])));
    assert_eq!(session(AudioCodec::G729).tx_audio(tx, vec![5]), TxAudio::Frame(vec![5]));
}

#[test]
fn muted_or_held_session_sends_silence_whatever_it_is_handed() {
    let tx = TxState { seq: 7, timestamp: 1000 };
    for codec in [AudioCodec::Pcmu, AudioCodec::Pcma, AudioCodec::Opus, AudioCodec::G729] {
        let talking = session(codec);
        let spoken = vec![1234i16; codec.frame_samples() as usize];
        let silence = talking.tx_audio(tx, Vec::new());
        assert_ne!(talking.tx_audio(tx, spoken.clone()), silence);
        let mut muted = session(codec);
        muted.set_mute(true);
        assert_eq!(muted.tx_audio(tx, spoken.clone()), silence);
        assert_eq!(muted.tx_frame(spoken.clone()), vec![0; codec.frame_samples() as usize]);
        let mut held = session(codec);
        held.set_hold(true);
        assert_eq!(held.tx_audio(tx, spoken.clone()), silence);
        muted.set_mute(false);
        assert_ne!(muted.tx_audio(tx, spoken), silence);
    }
}

#[test]
fn stream_advances_by_frames_and_wraps() {
    let mut s = session(AudioCodec::Pcmu);
    let tx = TxState { seq: 0xFFFF, timestamp: u32::MAX - 59 };
    let next = s.tx_done(tx, Some(172));
    assert_eq!(next, TxState { seq: 0, timestamp: 100 });
    assert_eq!(s.stats().packets_sent, 1);
    assert_eq!(s.stats().bytes_sent, 172);
    let next = s.tx_done(next, None);
    assert_eq!(next, TxState { seq: 1, timestamp: 260 });
    assert_eq!(s.stats().packets_sent, 1);
    let mut o = session(AudioCodec::Opus);
    assert_eq!(o.tx_done(TxState { seq: 1, timestamp: 0 }, None).timestamp, 960);
}

#[test]
fn random_starts_differ() {
    let starts: Vec<TxState> = (0..8).map(|_| TxState::start()).collect();
    assert!(starts.iter().any(|t| *t != starts[0]));
    let ssrcs: Vec<u32> =
        (0..8).map(|_| MobileMediaSession::new(PEER, AudioCodec::Pcmu, 1).ssrc).collect();
    assert!(ssrcs.iter().any(|s| *s != ssrcs[0]));
}

#[test]
fn new_session_is_fresh() {
    let s = MobileMediaSession::new(PEER, AudioCodec::Pcma, 7);
    assert_eq!(s, MobileMediaSession::with_ssrc(PEER, AudioCodec::Pcma, 7, s.ssrc));
    assert_eq!(s.local_port(), 7);
    assert!(s.running && !s.muted && !s.on_hold && !s.srtp_active);
    assert_eq!(s.ai_tap, None);
    assert_eq!((s.rx_audio_level(), s.tx_audio_level()), (0, 0));
}

#[test]
fn levels_taps_and_stopping() {
    let mut s = session(AudioCodec::Pcmu);
    s.set_rx_level(1500);
    s.set_tx_level(2500);
    s.set_ai_tap(Some(3));
    s.stop();
    assert_eq!((s.rx_audio_level(), s.tx_audio_level()), (1500, 2500));
    assert_eq!(s.ai_tap, Some(3));
    assert!(!s.running);
}

#[test]
fn dtmf_events() {
    for (i, d) in ["0", "1", "2", "3", "4", "5", "6", "7", "8", "9", "*", "#"].iter().enumerate() {
        assert_eq!(dtmf_event(d), Some(i as u8));
    }
    for d in ["", "a", "10", "A", " ", "é"] {
        assert_eq!(dtmf_event(d), None);
    }
}

#[test]
fn dtmf_burst_layout() {
    let burst = dtmf_burst(11, 0xFFFF, 0x0A0B_0C0D, 0x0102_0304);
    assert_eq!(burst.len(), 5);
    assert_eq!(
        burst[0],
        vec![0x80, 0xE5, 0xFF, 0xFF, 0x0A, 0x0B, 0x0C, 0x0D, 1, 2, 3, 4, 11, 10, 0, 160]
    );
    assert_eq!(
        burst[1],
        vec![0x80, 0x65, 0, 0, 0x0A, 0x0B, 0x0C, 0x0D, 1, 2, 3, 4, 11, 10, 1, 64]
    );
    assert_eq!(
        burst[2],
        vec![0x80, 0x65, 0, 1, 0x0A, 0x0B, 0x0C, 0x0D, 1, 2, 3, 4, 11, 0x8A, 1, 0xE0]
    );
    assert_eq!(burst[3], burst[2]);
    assert_eq!(burst[4], burst[2]);
}

#[test]
fn dtmf_is_sent_to_a_known_peer_only() {
    let mut s = session(AudioCodec::Pcmu);
    let burst = s.send_dtmf("5").unwrap();
    assert_eq!(burst.len(), 5);
    assert_eq!(burst[0][12], 5);
    assert_eq!(&burst[0][8..12], &[1, 2, 3, 4]);
    // Telephone events are not heard.
    let mut peer = session(AudioCodec::Pcmu);
    for p in &burst {
        assert_eq!(peer.receive_audio(p, PEER), None);
    }
    assert_eq!(s.send_dtmf("x"), None);
    s.update_remote(SocketAddress::unspecified());
    assert_eq!(s.send_dtmf("5"), None);
}

const OFFER: &str = "v=0\r\nc=IN IP4 192.0.2.1\r\nm=audio 4000 RTP/AVP 8 0 101\r\n";

#[test]
fn answering_picks_codec_and_peer() {
    let prefs = [AudioCodec::Opus, AudioCodec::Pcmu, AudioCodec::Pcma];
    let (s, answer) =
        create_answer_session(OFFER, &prefs, None, Some(9000), "203.0.113.5").unwrap();
    assert_eq!(s, MobileMediaSession::with_ssrc(PEER, AudioCodec::Pcmu, 9000, s.ssrc));
    assert!(answer.contains("c=IN IP4 203.0.113.5\r\n"));
    assert!(answer.contains("m=audio 9000 RTP/AVP 0 101\r\n"));
    assert_eq!(remote_from_sdp(OFFER, None), Some(PEER));
}

#[test]
fn answer_goes_to_the_offerer() {
    let (_, offer) = create_offer_session(&[AudioCodec::Pcma], Some(4000), "192.0.2.1").unwrap();
    assert_eq!(remote_from_sdp(&offer, None), Some(PEER));
    // Only an address in brackets is read by the host.
    assert_eq!(remote_from_sdp(&offer, Some(OTHER.ip)), Some(PEER));
    assert_eq!(remote_from_sdp("v=0\r\n", Some(OTHER.ip)), None);
}

#[test]
fn addresses_in_descriptions() {
    let v6 = IpAddress::V6 { groups: 1, flowinfo: 0, scope_id: 0 };
    let sdp = |ip: &str| format!("c=IN IP4 {}\r\nm=audio 4000 RTP/AVP 0\r\n", ip);
    assert_eq!(
        remote_from_sdp(&sdp("[::1]"), Some(v6)),
        Some(SocketAddress { ip: v6, port: 4000 })
    );
    assert_eq!(remote_from_sdp(&sdp("[::1]"), None), None);
    for name in ["pbx.example.com", "192.0.2.1/127", "::1", "192.0.2.256", ""] {
        assert_eq!(remote_from_sdp(&sdp(name), Some(v6)), None);
    }
}

#[test]
fn answering_fails_without_address_or_socket() {
    let ip = Some(IpAddress::V4 { octets: 1 });
    let prefs = [AudioCodec::Pcmu];
    let failed = [
        create_answer_session(&OFFER.replace("192.0.2.1", "pbx"), &prefs, ip, Some(9000), "h"),
        create_answer_session(OFFER, &prefs, ip, None, "h"),
        create_answer_session("v=0\r\n", &prefs, ip, Some(9000), "h"),
    ];
    for r in failed {
        assert_eq!(r.err(), Some(MobileError::MediaError));
    }
}

#[test]
fn offering_lists_the_preferences() {
    let (s, offer) = create_offer_session(&[AudioCodec::Pcma], Some(9000), "h").unwrap();
    assert_eq!(s.codec, AudioCodec::Pcma);
    assert_eq!(s.remote_addr, SocketAddress::unspecified());
    assert!(offer.contains("m=audio 9000 RTP/AVP 8 101\r\n"));
    let (s, offer) = create_offer_session(&[], Some(9000), "h").unwrap();
    assert_eq!(s.codec, AudioCodec::Pcmu);
    assert!(offer.contains("m=audio 9000 RTP/AVP 0 8 111 101\r\n"));
    assert_eq!(create_offer_session(&[], None, "h").err(), Some(MobileError::MediaError));
}

#[test]
fn local_address_falls_back() {
    let some = |s: &str| Some(s.to_string());
    assert_eq!(discover_local_ip(some("1.1.1.1"), some("2.2.2.2")), "1.1.1.1");
    assert_eq!(discover_local_ip(None, some("2.2.2.2")), "2.2.2.2");
    assert_eq!(discover_local_ip(None, None), "0.0.0.0");
}
