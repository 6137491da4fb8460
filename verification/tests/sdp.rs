use aria_mobile_core::sdp::{
    build_sdp_answer, build_sdp_offer, first_codec, negotiate_codec, offer_codecs,
    parse_sdp_remote, parse_sdp_remote_pub,
};
use aria_mobile_core::types::AudioCodec;

#[test]
fn offer_text() {
    let sdp = build_sdp_offer(4000, "192.0.2.1", &[AudioCodec::Opus, AudioCodec::Pcmu]);
    let expected = "v=0\r\n\
         o=aria 0 0 IN IP4 192.0.2.1\r\n\
         s=Aria Mobile\r\n\
         c=IN IP4 192.0.2.1\r\n\
         t=0 0\r\n\
         m=audio 4000 RTP/AVP 111 0 101\r\n\
         a=rtpmap:111 opus/48000/2\r\n\
         a=fmtp:111 useinbandfec=1\r\n\
         a=rtpmap:0 PCMU/8000\r\n\
         a=rtpmap:101 telephone-event/8000\r\n\
         a=fmtp:101 0-16\r\n\
         a=sendrecv\r\n";
    assert_eq!(sdp, expected);
}

#[test]
fn offer_without_codecs() {
    let sdp = build_sdp_offer(0, "h", &[]);
    assert!(sdp.contains("m=audio 0 RTP/AVP 101\r\n"));
}

#[test]
fn answer_is_an_offer_of_one_codec() {
    for codec in [AudioCodec::Pcmu, AudioCodec::Pcma, AudioCodec::Opus, AudioCodec::G729] {
        assert_eq!(
            build_sdp_answer(65535, "10.0.0.1", codec),
            build_sdp_offer(65535, "10.0.0.1", &[codec])
        );
    }
    let sdp = build_sdp_answer(5004, "10.0.0.1", AudioCodec::G729);
    assert!(sdp.contains("m=audio 5004 RTP/AVP 18 101\r\n"));
    assert!(sdp.contains("a=rtpmap:18 G729/8000\r\n"));
}

#[test]
fn description_is_read_back() {
    for codec in [AudioCodec::Pcmu, AudioCodec::Pcma, AudioCodec::Opus, AudioCodec::G729] {
        let remote = parse_sdp_remote(&build_sdp_answer(4000, "192.0.2.1", codec)).unwrap();
        assert_eq!(remote.ip, "192.0.2.1");
        assert_eq!(remote.port, 4000);
        assert_eq!(remote.codec, codec);
        assert_eq!(remote.address_text(), "192.0.2.1:4000");
    }
}

#[test]
fn remote_reads_loose_formatting() {
    let sdp = "v=0\n  c=IN IP4   192.0.2.7  \n\tm=audio  +4000\tRTP/AVP 8\n";
    let remote = parse_sdp_remote_pub(sdp).unwrap();
    assert_eq!((remote.ip.as_str(), remote.port, remote.codec), ("192.0.2.7", 4000, AudioCodec::Pcma));
}

#[test]
fn last_lines_win() {
    let sdp = "c=IN IP4 1.1.1.1\r\nm=audio 1 RTP/AVP 0\r\nc=IN IP4 2.2.2.2\r\nm=audio 2 RTP/AVP 8\r\nm=audio 3\r\n";
    let remote = parse_sdp_remote(sdp).unwrap();
    assert_eq!((remote.ip.as_str(), remote.port, remote.codec), ("2.2.2.2", 2, AudioCodec::Pcma));
}

#[test]
fn incomplete_descriptions_have_no_remote() {
    for sdp in [
        "",
        "c=IN IP4 1.1.1.1\r\n",
        "m=audio 4000 RTP/AVP 0\r\n",
        "c=IN IP4 1.1.1.1\r\nm=audio 4000 RTP/AVP 96\r\n",
        "c=IN IP4 1.1.1.1\r\nm=audio 65536 RTP/AVP 0\r\n",
        "c=IN IP4 1.1.1.1\r\nm=audio 4000 RTP/AVP\r\n",
        "c=IN IP6 ::1\r\nm=audio 4000 RTP/AVP 0\r\n",
        "c=IN IP4 1.1.1.1\r\nm=video 4000 RTP/AVP 0\r\n",
    ] {
        assert!(parse_sdp_remote(sdp).is_none(), "{:?}", sdp);
    }
}

#[test]
fn negotiation_prefers_our_order() {
    let offer = "v=0\r\nm=audio 4000 RTP/AVP 0 8 18 101\r\n";
    let prefs = [AudioCodec::Opus, AudioCodec::Pcma, AudioCodec::Pcmu];
    assert_eq!(negotiate_codec(offer, &prefs), AudioCodec::Pcma);
    assert_eq!(negotiate_codec(offer, &[AudioCodec::G729]), AudioCodec::G729);
}

#[test]
fn negotiation_falls_back_to_pcmu() {
    assert_eq!(negotiate_codec("", &[AudioCodec::Opus]), AudioCodec::Pcmu);
    assert_eq!(
        negotiate_codec("m=audio 4000 RTP/AVP 8\r\n", &[AudioCodec::Opus]),
        AudioCodec::Pcmu
    );
    assert_eq!(negotiate_codec("m=audio 4000 RTP/AVP 8\r\n", &[]), AudioCodec::Pcmu);
}

#[test]
fn negotiation_reads_the_first_audio_line() {
    let offer = "m=audio 1 RTP/AVP 8 300 x\r\nm=audio 2 RTP/AVP 111\r\n";
    assert_eq!(negotiate_codec(offer, &[AudioCodec::Opus, AudioCodec::Pcma]), AudioCodec::Pcma);
}

#[test]
fn both_sides_settle_on_the_same_codec() {
    let ours = [AudioCodec::Opus, AudioCodec::Pcma];
    let theirs = [AudioCodec::Pcma, AudioCodec::Opus];
    let offer = build_sdp_offer(4000, "192.0.2.1", &ours);
    let chosen = negotiate_codec(&offer, &theirs);
    assert_eq!(chosen, AudioCodec::Pcma);
    let answer = build_sdp_answer(5000, "192.0.2.2", chosen);
    assert_eq!(parse_sdp_remote(&answer).unwrap().codec, chosen);
    assert_eq!(negotiate_codec(&answer, &ours), chosen);
}

#[test]
fn codecs_of_an_offer() {
    assert_eq!(offer_codecs(&[]), vec![AudioCodec::Pcmu, AudioCodec::Pcma, AudioCodec::Opus]);
    assert_eq!(offer_codecs(&[AudioCodec::G729]), vec![AudioCodec::G729]);
    assert_eq!(first_codec(&[]), AudioCodec::Pcmu);
    assert_eq!(first_codec(&[AudioCodec::G729, AudioCodec::Pcmu]), AudioCodec::G729);
}
