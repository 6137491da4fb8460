use aria_mobile_core::calls::ActiveCallState;
use aria_mobile_core::engine::{outgoing_call_id, AriaMobileEngine, OutgoingCall, TokenPlan};
use aria_mobile_core::gateway_client::{
    GatewayCallOffer, HttpMethod, MakeCallResponse, RegisterDeviceResponse, RequestBody, Route,
};
use aria_mobile_core::media::{TxPlan, TxState};
use aria_mobile_core::packet::build_packet;
use aria_mobile_core::types::{
    AudioCodec, CallDirection, CallInfo, CallOffer, CallState, CallStatusResponse,
    DeviceRegistration, GatewayConfig, IpAddress, MediaCounters, MobileError, Moment,
    SipCredentials, SocketAddress,
};

const SECOND: u64 = 1_000_000_000;

fn at(secs: u64) -> Moment {
    Moment { nanos: secs * SECOND }
}

fn engine_with_key(api_key: &str) -> AriaMobileEngine {
    AriaMobileEngine::new(GatewayConfig {
        base_url: "http://gw.example.com/".to_string(),
        api_key: api_key.to_string(),
    })
}

fn engine() -> AriaMobileEngine {
    engine_with_key("secret")
}

fn registration() -> DeviceRegistration {
    DeviceRegistration {
        platform: "android".to_string(),
        push_token: "push-1".to_string(),
        bundle_id: None,
        sip: SipCredentials {
            username: "alice".to_string(),
            password: "pw".to_string(),
            domain: "pbx.example.com".to_string(),
            registrar: None,
            transport: "udp".to_string(),
            port: 5060,
            auth_username: None,
            display_name: "Alice".to_string(),
        },
    }
}

fn register(e: &mut AriaMobileEngine, expires_in: Option<u64>, now: Moment) {
    let reply = Ok(RegisterDeviceResponse {
        device_id: "dev-1".to_string(),
        status: "ok".to_string(),
    });
    let (response, event) =
        e.register_device(registration(), "tok-1".to_string(), expires_in, reply, now).unwrap();
    assert_eq!(response.device_id, "dev-1");
    assert_eq!(response.auth_token, "tok-1");
    assert_eq!(event.device_id, "dev-1");
    assert_eq!(event.status, "registered");
    assert_eq!(event.error, None);
}

fn offer() -> CallOffer {
    CallOffer {
        call_token: "t".to_string(),
        caller_uri: "sip:bob@pbx".to_string(),
        caller_name: Some("Bob".to_string()),
        sdp_offer: "c=IN IP4 192.0.2.9\r\nm=audio 4000 RTP/AVP 8 0\r\n".to_string(),
    }
}

const REMOTE_IP: IpAddress = IpAddress::V4 { octets: 0xC000_0209 };
const PEER: SocketAddress = SocketAddress { ip: REMOTE_IP, port: 4000 };

fn answer(e: &mut AriaMobileEngine, token: &str) -> CallInfo {
    let call = e
        .begin_answer(
            token.to_string(),
            offer(),
            vec![AudioCodec::Pcmu],
            None,
            Some(9000),
            "203.0.113.1",
        )
        .ok()
        .unwrap();
    e.accept_incoming_call(call, Ok(())).unwrap()
}

fn dial(e: &AriaMobileEngine) -> OutgoingCall {
    e.begin_call("sip:carol@pbx".to_string(), Vec::new(), Some(9100), "203.0.113.1").ok().unwrap()
}

fn connect(e: &mut AriaMobileEngine) -> CallInfo {
    let call = dial(e);
    let reply = Ok(MakeCallResponse {
        call_token: "out-1".to_string(),
        sdp_answer: "c=IN IP4 192.0.2.9\r\nm=audio 4000 RTP/AVP 0\r\n".to_string(),
    });
    e.make_call(call, reply, None, false).unwrap()
}

fn plan(p: TokenPlan) -> String {
    match p {
        TokenPlan::Use(token) => format!("use {}", token),
        TokenPlan::Mint(user) => format!("mint {}", user),
        TokenPlan::Missing(e) => format!("missing {}", e.message()),
    }
}

// ── Tokens and registration ─────────────────────────────────────────────────

#[test]
fn fresh_engine_knows_nothing() {
    let e = engine();
    assert_eq!(e.gateway().base_url(), "https://gw.example.com/");
    assert_eq!(e.get_token().unwrap_err(), MobileError::AuthenticationError);
    assert_eq!(plan(e.ensure_valid_token(at(0))), "missing Authentication error");
    assert!(e.get_active_call().is_none());
    assert_eq!(e.active_call_count(), 0);
    assert!(e.notify_network_change().heartbeat.is_none());
    assert_eq!(
        e.choose_codecs(Vec::new()),
        vec![AudioCodec::Opus, AudioCodec::Pcmu, AudioCodec::Pcma]
    );
    assert_eq!(e.poll_token(), "");
}

#[test]
fn tokens_are_refreshed_a_minute_before_expiry() {
    let mut e = engine();
    register(&mut e, Some(3600), at(100));
    assert_eq!(plan(e.ensure_valid_token(at(100))), "use tok-1");
    assert_eq!(plan(e.ensure_valid_token(at(3639))), "use tok-1");
    assert_eq!(plan(e.ensure_valid_token(at(3640))), "mint alice@pbx.example.com");
    assert_eq!(plan(e.ensure_valid_token(at(9999))), "mint alice@pbx.example.com");
}

#[test]
fn minted_token_is_stored() {
    let mut e = engine();
    register(&mut e, Some(10), at(0));
    assert_eq!(plan(e.ensure_valid_token(at(0))), "mint alice@pbx.example.com");
    assert_eq!(e.token_minted(Ok(("tok-2".to_string(), 600)), at(5)).unwrap(), "tok-2");
    assert_eq!(plan(e.ensure_valid_token(at(5))), "use tok-2");
    assert_eq!(plan(e.ensure_valid_token(at(545))), "mint alice@pbx.example.com");
    assert_eq!(e.poll_token(), "tok-2");
}

#[test]
fn failed_refresh_falls_back_to_the_old_token() {
    let mut e = engine();
    assert_eq!(
        e.token_minted(Err(MobileError::Timeout), at(0)).unwrap_err(),
        MobileError::Timeout
    );
    register(&mut e, Some(10), at(0));
    assert_eq!(e.token_minted(Err(MobileError::Timeout), at(0)).unwrap(), "tok-1");
}

#[test]
fn tokens_without_lifetime_are_kept() {
    let mut e = engine();
    e.store_token("tok".to_string(), None, at(0));
    assert_eq!(plan(e.ensure_valid_token(at(1_000_000))), "use tok");
    // An expired token that cannot be minted again is still used.
    e.store_token("old".to_string(), Some(1), at(0));
    assert_eq!(plan(e.ensure_valid_token(at(1_000_000))), "use old");
}

#[test]
fn jwt_is_used_as_it_is() {
    let mut e = engine_with_key("eyJabc");
    assert_eq!(plan(e.registration_token(&registration())), "use eyJabc");
    assert_eq!(plan(e.ensure_valid_token(at(0))), "missing Authentication error");
    e.store_token("eyJabc".to_string(), Some(1), at(0));
    assert_eq!(plan(e.ensure_valid_token(at(1_000_000))), "use eyJabc");
    assert_eq!(
        plan(engine().registration_token(&registration())),
        "mint alice@pbx.example.com"
    );
}

#[test]
fn failed_registration_changes_nothing() {
    let mut e = engine();
    let r = e.register_device(
        registration(),
        "tok".to_string(),
        Some(10),
        Err(MobileError::RegistrationFailed),
        at(0),
    );
    assert_eq!(r.err(), Some(MobileError::RegistrationFailed));
    assert!(e.get_token().is_err());
    assert_eq!(
        e.update_push_token("push-2".to_string()).unwrap_err(),
        MobileError::InvalidState
    );
}

#[test]
fn push_token_rotation_keeps_the_registration() {
    let mut e = engine();
    register(&mut e, Some(10), at(0));
    let r = e.update_push_token("push-2".to_string()).unwrap();
    assert_eq!(r.push_token, "push-2");
    assert_eq!(r.platform, "android");
    assert_eq!(r.sip.username, "alice");
    assert_eq!(r.sip.port, 5060);
}

#[test]
fn unregistering_forgets_the_device() {
    let mut e = engine();
    register(&mut e, None, at(0));
    assert!(e.notify_network_change().heartbeat.is_some());
    assert_eq!(
        e.unregister_device("dev-1".to_string(), Err(MobileError::GatewayError)).unwrap_err(),
        MobileError::GatewayError
    );
    assert!(e.notify_network_change().heartbeat.is_some());
    let event = e.unregister_device("dev-1".to_string(), Ok(())).unwrap();
    assert_eq!((event.device_id.as_str(), event.status.as_str()), ("dev-1", "unregistered"));
    assert!(e.notify_network_change().heartbeat.is_none());
    assert!(e.get_token().is_ok());
}

#[test]
fn network_change_sends_a_heartbeat() {
    let mut e = engine();
    register(&mut e, None, at(0));
    let r = e.notify_network_change().heartbeat.unwrap();
    assert_eq!(r.method, HttpMethod::Post);
    assert_eq!(r.route, Route::Base);
    // The base URL goes in as it is, with its slash.
    assert_eq!(r.url, "https://gw.example.com//v1/devices/dev-1/heartbeat");
    assert_eq!(r.bearer.as_deref(), Some("tok-1"));
    assert!(matches!(r.body, RequestBody::Empty));
}

#[test]
fn network_change_rebinds_the_media_of_active_calls() {
    let mut e = engine();
    assert!(e.calls_to_rebind().is_empty());
    let a = answer(&mut e, "a").call_id;
    let b = answer(&mut e, "b").call_id;
    let mut rebind = e.notify_network_change().rebind;
    rebind.sort();
    assert_eq!(rebind, [a.clone(), b.clone()]);
    e.hangup(&a).unwrap();
    assert_eq!(e.notify_network_change().rebind, [b]);
}

#[test]
fn push_notification_yields_the_offer() {
    let e = engine();
    let body = GatewayCallOffer {
        call_token: "t".to_string(),
        caller_uri: "sip:bob".to_string(),
        caller_name: None,
        sdp_offer: "v=0".to_string(),
    };
    let offer = e.handle_push_notification(Ok(body)).unwrap();
    assert_eq!(offer.call_token, "t");
    assert_eq!(offer.sdp_offer, "v=0");
    assert_eq!(
        e.handle_push_notification(Err(MobileError::CallFailed)).unwrap_err(),
        MobileError::CallFailed
    );
}

// ── Calls ───────────────────────────────────────────────────────────────────

#[test]
fn answered_call_is_connected() {
    let mut e = engine();
    let call = e
        .begin_answer(
            "abc".to_string(),
            offer(),
            Vec::new(),
            None,
            Some(9000),
            "203.0.113.1",
        )
        .ok()
        .unwrap();
    // The engine's own preferences: PCMU comes before PCMA.
    assert!(call.sdp_answer().contains("m=audio 9000 RTP/AVP 0 101\r\n"));
    assert_eq!(call.session().codec, AudioCodec::Pcmu);
    let info = e.accept_incoming_call(call, Ok(())).unwrap();
    assert_eq!(info.call_id, "incoming-abc");
    assert_eq!(info.remote_uri, "sip:bob@pbx");
    assert_eq!(info.remote_name.as_deref(), Some("Bob"));
    assert_eq!(info.state, CallState::Connected);
    assert_eq!(info.direction, CallDirection::Inbound);
    assert!(!info.muted && !info.on_hold);
    assert_eq!(info.duration_secs, 0);
    let media = e.media("incoming-abc").unwrap();
    assert_eq!(media.remote_addr, SocketAddress { ip: REMOTE_IP, port: 4000 });
    assert_eq!(e.get_active_call().unwrap().call_id, "incoming-abc");
}

#[test]
fn refused_answer_adds_no_call() {
    let mut e = engine();
    let call = e
        .begin_answer("abc".to_string(), offer(), Vec::new(), None, Some(9000), "h")
        .ok()
        .unwrap();
    assert_eq!(
        e.accept_incoming_call(call, Err(MobileError::CallFailed)).unwrap_err(),
        MobileError::CallFailed
    );
    assert!(e.get_active_call().is_none());
    let no_socket =
        e.begin_answer("abc".to_string(), offer(), Vec::new(), None, None, "h");
    assert_eq!(no_socket.err(), Some(MobileError::MediaError));
}

#[test]
fn outgoing_call_rings_then_connects() {
    let mut e = engine();
    let call = dial(&e);
    let ringing = call.ringing();
    assert_eq!(ringing.state, CallState::Ringing);
    assert_eq!(ringing.direction, CallDirection::Outbound);
    assert_eq!(ringing.remote_uri, "sip:carol@pbx");
    let id = ringing.call_id;
    assert_eq!(id.len(), 41);
    assert!(id.starts_with("outgoing-"));
    let hex = &id[9..];
    assert!(hex.chars().all(|c| c.is_ascii_digit() || ('a'..='f').contains(&c)));
    assert_eq!(&hex[12..13], "4");
    assert_eq!(id, outgoing_call_id(hex));
    assert_ne!(dial(&e).ringing().call_id, id);
    assert!(call.sdp_offer().contains("m=audio 9100 RTP/AVP 111 0 8 101\r\n"));
    assert_eq!(call.session().remote_addr, SocketAddress::unspecified());

    let reply = Ok(MakeCallResponse {
        call_token: "out-1".to_string(),
        sdp_answer: "c=IN IP4 192.0.2.9\r\nm=audio 4000 RTP/AVP 0\r\n".to_string(),
    });
    let info = e.make_call(call, reply, None, true).unwrap();
    assert_eq!(info.call_id, id);
    assert_eq!(info.state, CallState::Connected);
    assert_eq!(info.remote_name, None);
    assert_eq!(
        e.media(&id).unwrap().remote_addr,
        SocketAddress { ip: REMOTE_IP, port: 4000 }
    );
    assert!(e.call_is_encrypted(&id));
    assert!(!e.call_is_encrypted("nobody"));
}

#[test]
fn unreadable_answer_leaves_the_peer_unknown() {
    let mut e = engine();
    let call = dial(&e);
    let reply = Ok(MakeCallResponse {
        call_token: "out-1".to_string(),
        sdp_answer: "v=0\r\n".to_string(),
    });
    let info = e.make_call(call, reply, None, false).unwrap();
    assert_eq!(e.media(&info.call_id).unwrap().remote_addr, SocketAddress::unspecified());
    assert_eq!(e.media(&info.call_id).unwrap().tx_plan(), TxPlan::Wait);
    assert!(!e.call_is_encrypted(&info.call_id));
}

#[test]
fn refused_call_is_not_added() {
    let mut e = engine();
    let call = dial(&e);
    assert_eq!(
        e.make_call(call, Err(MobileError::Timeout), None, false).unwrap_err(),
        MobileError::Timeout
    );
    assert_eq!(e.active_call_count(), 0);
    let no_socket = e.begin_call("sip:x".to_string(), Vec::new(), None, "h");
    assert_eq!(no_socket.err(), Some(MobileError::MediaError));
}

#[test]
fn tokens_with_a_common_prefix_do_not_collide() {
    let mut e = engine();
    answer(&mut e, "12345678-a");
    answer(&mut e, "12345678-b");
    let out = connect(&mut e).call_id;
    assert_eq!(e.active_call_count(), 3);
    let before = e.media("incoming-12345678-b");
    e.hangup("incoming-12345678-a").unwrap();
    assert_eq!(e.active_call_count(), 2);
    assert_eq!(e.media("incoming-12345678-b"), before);
    assert!(e.media(&out).is_some());
}

#[test]
fn hangup_ends_the_call_once() {
    let mut e = engine();
    let id = answer(&mut e, "abc").call_id;
    let ActiveCallState { info, media, call_token } = e.hangup(&id).unwrap();
    assert_eq!(info.state, CallState::Ended);
    assert_eq!(info.call_id, id);
    assert!(!media.unwrap().running);
    assert_eq!(call_token.as_deref(), Some("abc"));
    assert!(e.get_active_call().is_none());
    assert_eq!(e.hangup(&id).unwrap_err(), MobileError::InvalidState);
}

#[test]
fn mute_and_hold_are_shown_and_done() {
    let mut e = engine();
    let id = answer(&mut e, "abc").call_id;
    let info = e.set_mute(&id, true).unwrap();
    assert!(info.muted && e.media(&id).unwrap().muted);
    assert_eq!(info.state, CallState::Connected);
    let info = e.set_hold(&id, true).unwrap();
    assert_eq!(info.state, CallState::OnHold);
    assert!(info.on_hold && info.muted && e.media(&id).unwrap().on_hold);
    let info = e.set_hold(&id, false).unwrap();
    assert_eq!(info.state, CallState::Connected);
    let info = e.set_mute(&id, false).unwrap();
    assert!(!info.muted && !e.media(&id).unwrap().muted);
    assert_eq!(e.set_mute("nobody", true).unwrap_err(), MobileError::InvalidState);
    assert_eq!(e.set_hold("nobody", true).unwrap_err(), MobileError::InvalidState);
}

#[test]
fn quiet_calls_neither_capture_nor_play() {
    let mut e = engine();
    let id = answer(&mut e, "abc").call_id;
    let audio = build_packet(false, 0, 1, 2, 3, &[0xFF; 160]);
    let tx = TxState { seq: 1, timestamp: 2 };
    assert_eq!(e.media(&id).unwrap().tx_plan(), TxPlan::Capture);
    assert!(e.media(&id).unwrap().receive_audio(&audio, PEER).is_some());
    e.set_mute(&id, true).unwrap();
    assert_eq!(e.media(&id).unwrap().tx_plan(), TxPlan::Silence);
    assert_eq!(
        e.media(&id).unwrap().tx_audio(tx, vec![1234; 160]),
        e.media(&id).unwrap().tx_audio(tx, Vec::new())
    );
    assert!(e.media(&id).unwrap().receive_audio(&audio, PEER).is_some());
    e.set_mute(&id, false).unwrap();
    e.set_hold(&id, true).unwrap();
    assert_eq!(e.media(&id).unwrap().tx_plan(), TxPlan::Silence);
    assert!(e.media(&id).unwrap().receive_audio(&audio, PEER).is_none());
}

#[test]
fn mute_and_hold_in_either_order() {
    let mut e = engine();
    let a = answer(&mut e, "a").call_id;
    let b = answer(&mut e, "b").call_id;
    e.set_mute(&a, true).unwrap();
    let first = e.set_hold(&a, true).unwrap();
    e.set_hold(&b, true).unwrap();
    let second = e.set_mute(&b, true).unwrap();
    assert_eq!(
        (first.state, first.muted, first.on_hold),
        (second.state, second.muted, second.on_hold)
    );
}

#[test]
fn controls_keep_what_was_counted() {
    let mut e = engine();
    let id = answer(&mut e, "abc").call_id;
    let mut s = e.media(&id).unwrap();
    assert!(s.receive_audio(&build_packet(false, 0, 1, 2, 3, &[1]), PEER).is_some());
    assert!(e.record_traffic(&id, s));
    let counted = e.get_media_stats(&id);
    assert_eq!(counted.unwrap().bytes_received, 13);
    e.set_mute(&id, true).unwrap();
    e.set_hold(&id, true).unwrap();
    assert_eq!(e.get_media_stats(&id), counted);
    assert_eq!(e.hangup(&id).unwrap().media.map(|m| m.counters), counted);
}

#[test]
fn dtmf_needs_a_call() {
    let mut e = engine();
    let id = answer(&mut e, "abc").call_id;
    assert_eq!(e.send_dtmf(&id, "1").unwrap().unwrap().len(), 5);
    assert_eq!(e.send_dtmf(&id, "Q").unwrap(), None);
    assert_eq!(e.send_dtmf("nobody", "1").unwrap_err(), MobileError::InvalidState);
}

#[test]
fn traffic_is_recorded_for_the_right_session() {
    let mut e = engine();
    let id = answer(&mut e, "abc").call_id;
    e.set_mute(&id, true).unwrap();
    let mut s = e.media(&id).unwrap();
    s.muted = false;
    s.counters.packets_sent = 3;
    s.set_rx_level(4500);
    s.set_tx_level(1000);
    assert!(e.record_traffic(&id, s));
    assert_eq!(
        e.get_media_stats(&id),
        Some(MediaCounters {
            packets_sent: 3,
            packets_received: 0,
            bytes_sent: 0,
            bytes_received: 0
        })
    );
    assert_eq!(e.get_rx_audio_level(&id), 4500);
    assert_eq!(e.get_tx_audio_level(&id), 1000);
    // Mute is the engine's to decide.
    assert!(e.media(&id).unwrap().muted);
    let mut stranger = s;
    stranger.ssrc = s.ssrc.wrapping_add(1);
    assert!(!e.record_traffic(&id, stranger));
    assert!(!e.record_traffic("nobody", s));
    assert_eq!(e.get_media_stats("nobody"), None);
    assert_eq!(e.get_rx_audio_level("nobody"), 0);
    assert_eq!(e.get_tx_audio_level("nobody"), 0);
}

#[test]
fn codec_preferences_apply_to_later_calls() {
    let mut e = engine();
    e.set_codec_preferences(vec![AudioCodec::Pcma]);
    assert_eq!(e.choose_codecs(Vec::new()), vec![AudioCodec::Pcma]);
    assert_eq!(e.choose_codecs(vec![AudioCodec::Pcmu]), vec![AudioCodec::Pcmu]);
    assert_eq!(dial(&e).session().codec, AudioCodec::Pcma);
    e.set_codec_preferences(Vec::new());
    assert!(dial(&e).sdp_offer().contains("RTP/AVP 0 8 111 101\r\n"));
}

// ── Remote hangup ───────────────────────────────────────────────────────────

fn status(s: &str) -> Result<CallStatusResponse, MobileError> {
    Ok(CallStatusResponse { status: s.to_string(), reason: None })
}

#[test]
fn remote_hangup_is_noticed_and_reported() {
    let mut e = engine();
    let a = answer(&mut e, "a").call_id;
    let b = answer(&mut e, "b").call_id;
    assert!(!e.call_status_polled(&a, &status("active")));
    assert!(!e.call_status_polled(&a, &status("cancelled")));
    assert!(!e.call_status_polled(&a, &Err(MobileError::CallFailed)));
    assert!(e.check_remote_hangup().is_none());
    assert!(e.call_status_polled(&a, &status("ended")));
    assert!(e.call_status_polled(&b, &status("unknown")));
    assert_eq!(e.active_call_count(), 2);

    let (id, call) = e.check_remote_hangup().unwrap();
    assert_eq!(id, b);
    assert_eq!(call.info.state, CallState::Ended);
    assert_eq!(e.active_call_count(), 1);
    let (id, call) = e.check_remote_hangup().unwrap();
    assert_eq!((id, call.info.call_id), (a.clone(), a));
    assert!(e.check_remote_hangup().is_none());
    assert_eq!(e.active_call_count(), 0);
}

#[test]
fn only_active_calls_are_reported() {
    let mut e = engine();
    let a = answer(&mut e, "a").call_id;
    let b = answer(&mut e, "b").call_id;
    assert!(e.call_status_polled(&a, &status("ended")));
    assert!(e.call_status_polled(&b, &status("ended")));
    assert!(e.call_status_polled(&b, &status("ended")));
    e.hangup(&b).unwrap();
    assert_eq!(e.check_remote_hangup().unwrap().0, a);
    assert!(e.check_remote_hangup().is_none());

    let c = answer(&mut e, "c").call_id;
    assert!(e.call_status_polled(&c, &status("ended")));
    e.hangup(&c).unwrap();
    assert!(e.check_remote_hangup().is_none());
}

// ── On-device AI ────────────────────────────────────────────────────────────

#[test]
fn ai_needs_a_usable_key_and_engine() {
    let mut e = engine();
    assert!(AriaMobileEngine::check_insight_key(&None).is_ok());
    assert!(AriaMobileEngine::check_insight_key(&Some(vec![0; 32])).is_ok());
    for n in [0, 31, 33] {
        assert_eq!(
            e.ai_init(&Some(vec![0; n]), true).unwrap_err(),
            MobileError::InvalidState
        );
    }
    assert_eq!(e.ai_init(&None, false).unwrap_err(), MobileError::InvalidState);
    assert_eq!(e.ai_state().unwrap_err(), MobileError::InvalidState);
    e.ai_init(&Some(vec![0; 32]), true).unwrap();
    assert!(e.ai_state().is_ok());
}

#[test]
fn without_ai_everything_is_empty_or_refused() {
    let mut e = engine();
    let id = answer(&mut e, "a").call_id;
    assert!(e.ai_models(&Vec::new(), &Vec::new()).is_empty());
    assert_eq!(e.ai_start_download(true).unwrap_err(), MobileError::InvalidState);
    assert_eq!(e.ai_delete_model(true).unwrap_err(), MobileError::InvalidState);
    assert!(e.ai_download_progress(&None).is_none());
    assert_eq!(e.ai_start_capture(&id, Some(1)).unwrap_err(), MobileError::InvalidState);
    assert_eq!(e.media(&id).unwrap().ai_tap, None);
    assert_eq!(e.ai_stop_capture(&id), None);
    assert_eq!(e.ai_transcribe(&id).unwrap_err(), MobileError::InvalidState);
    assert_eq!(e.ai_discard_capture(&id), None);
    assert!(e.ai_insights(vec![1]).is_empty());
    assert_eq!(e.ai_insight(Some(1)), None);
    assert!(!e.ai_delete_insight(true));
    assert_eq!(e.ai_clear_insights(5), 0);
}

#[test]
fn captures_follow_the_call() {
    let mut e = engine();
    e.ai_init(&None, true).unwrap();
    let id = answer(&mut e, "a").call_id;
    assert_eq!(e.ai_start_capture(&id, None).unwrap_err(), MobileError::InvalidState);
    e.ai_start_capture(&id, Some(7)).unwrap();
    assert_eq!(e.media(&id).unwrap().ai_tap, Some(7));
    assert_eq!(e.ai_stop_capture(&id), Some(7));
    assert_eq!(e.media(&id).unwrap().ai_tap, None);
    assert_eq!(e.ai_transcribe(&id), Ok(7));
    assert_eq!(e.ai_transcribe(&id), Err(MobileError::InvalidState));
    e.ai_start_capture(&id, Some(8)).unwrap();
    assert_eq!(e.ai_discard_capture(&id), Some(8));
    assert_eq!(e.media(&id).unwrap().ai_tap, None);
    assert_eq!(e.ai_discard_capture(&id), None);
    // A capture of an unknown call is refused, yet can still be discarded.
    assert_eq!(e.ai_start_capture("nobody", Some(9)), Err(MobileError::InvalidState));
    assert_eq!(e.ai_discard_capture("nobody"), Some(9));
    assert_eq!(e.ai_insights(vec![1, 2]), vec![1, 2]);
    assert_eq!(e.ai_insight(Some(1)), Some(1));
    assert!(e.ai_delete_insight(true) && !e.ai_delete_insight(false));
    assert_eq!(e.ai_clear_insights(5), 5);
    assert!(e.ai_start_download(true).is_ok() && e.ai_start_download(false).is_err());
    assert!(e.ai_delete_model(true).is_ok() && e.ai_delete_model(false).is_err());
}
