//! Laws of the engine.

use vstd::prelude::*;
use vstd::string::*;

use crate::calls;
use crate::engine;
use crate::engine::{EngineView, IncomingView, TokenPlanView};
use crate::gateway_client;
use crate::gateway_laws;
use crate::media;
use crate::types;
use crate::types::{CallDirection, DeviceRegistration, Moment};

verus! {

// ── Tokens ──────────────────────────────────────────────────────────────────

/// A key that is a token itself is never exchanged for another one, neither
/// by a registration nor by a request.
pub proof fn jwt_is_never_minted(e: EngineView, registration: DeviceRegistration, now: Moment)
    requires
        engine::key_is_jwt(e),
    ensures
        engine::token_plan(e, now) !is Mint,
        engine::registration_plan(e, registration) == TokenPlanView::Use(e.gateway.api_key),
{
}

/// A token with a known lifetime is used without refresh exactly until the
/// skew before it expires.
pub proof fn tokens_are_refreshed_before_they_expire(
    e: EngineView,
    token: Seq<char>,
    lifetime: u64,
    minted: Moment,
    now: Moment,
)
    ensures
        engine::needs_refresh(engine::with_token(e, token, Some(lifetime), minted), now) == (
        types::seconds_after(now, engine::TOKEN_REFRESH_SKEW_SECS as nat) >= types::seconds_after(
            minted,
            lifetime as nat,
        )),
{
    let at = types::seconds_after(minted, lifetime as nat);
    assert(0 <= at <= u64::MAX + u64::MAX * 1_000_000_000int);
}

/// Whoever can mint tokens never uses one that expires within the skew.
pub proof fn used_tokens_are_fresh(e: EngineView, now: Moment)
    requires
        !engine::key_is_jwt(e),
        e.last_registration is Some,
        engine::token_plan(e, now) is Use,
    ensures
        e.auth_token == Some(engine::token_plan(e, now)->Use_0),
        e.token_expires_at matches Some(deadline) ==> types::seconds_after(
            now,
            engine::TOKEN_REFRESH_SKEW_SECS as nat,
        ) < deadline.nanos,
{
}

/// A token of unknown lifetime is never refreshed.
pub proof fn tokens_of_unknown_lifetime_are_kept(
    e: EngineView,
    token: Seq<char>,
    stored: Moment,
    now: Moment,
)
    ensures
        engine::token_plan(engine::with_token(e, token, None, stored), now) == TokenPlanView::Use(
            token,
        ),
{
}

// ── Registration ────────────────────────────────────────────────────────────

/// After a registration the engine has a token, knows the device, can mint
/// tokens for its account, and reports network changes.
pub proof fn registration_is_remembered(
    e: EngineView,
    registration: DeviceRegistration,
    token: Seq<char>,
    expires_in: Option<u64>,
    device_id: Seq<char>,
    now: Moment,
    later: Moment,
)
    ensures
        ({
            let r = engine::registered(e, registration, token, expires_in, device_id, now);
            &&& r.last_registration == Some(registration)
            &&& engine::sends_heartbeat(r)
            &&& engine::token_plan(r, later) == TokenPlanView::Use(token) || engine::token_plan(
                r,
                later,
            ) == TokenPlanView::Mint(engine::user_of(registration))
            &&& r.calls == e.calls
        }),
{
}

/// A rotated push token does not change the account.
pub proof fn push_token_does_not_change_the_account(
    registration: DeviceRegistration,
    new_token: String,
)
    ensures
        engine::user_of(DeviceRegistration { push_token: new_token, ..registration })
            == engine::user_of(registration),
{
}

// ── Call identifiers ────────────────────────────────────────────────────────

/// Incoming calls with different tokens have different identifiers.
pub proof fn incoming_calls_do_not_collide(a: Seq<char>, b: Seq<char>)
    requires
        engine::incoming_id(a) == engine::incoming_id(b),
    ensures
        a == b,
{
    let n = "incoming-"@.len() as int;
    assert(engine::incoming_id(a).skip(n) =~= a);
    assert(engine::incoming_id(b).skip(n) =~= b);
}

/// No incoming call has the identifier of an outgoing one.
pub proof fn incoming_and_outgoing_calls_do_not_collide(call_token: Seq<char>, id: Seq<char>)
    requires
        engine::is_outgoing_id(id),
    ensures
        engine::incoming_id(call_token) != id,
{
    reveal_strlit("incoming-");
    reveal_strlit("outgoing-");
    assert(engine::incoming_id(call_token)[0] == 'i');
    assert(id.subrange(0, 9)[0] == id[0]);
}

/// The calls after `call` was answered.
pub open spec fn answered(all: calls::Calls, call: IncomingView) -> calls::Calls {
    all.insert(
        engine::incoming_id(call.call_token),
        calls::connected_call(
            engine::incoming_id(call.call_token),
            call.caller_uri,
            call.caller_name,
            CallDirection::Inbound,
            call.session,
            call.call_token,
        ),
    )
}

/// Answering a second call, with another token, leaves the first one as it
/// is.
pub proof fn concurrent_calls_coexist(
    all: calls::Calls,
    first: IncomingView,
    second: IncomingView,
)
    requires
        first.call_token != second.call_token,
    ensures
        answered(answered(all, first), second).contains_key(engine::incoming_id(first.call_token)),
        answered(answered(all, first), second)[engine::incoming_id(first.call_token)] == answered(
            all,
            first,
        )[engine::incoming_id(first.call_token)],
        answered(answered(all, first), second).contains_key(engine::incoming_id(second.call_token)),
{
    if engine::incoming_id(first.call_token) == engine::incoming_id(second.call_token) {
        incoming_calls_do_not_collide(first.call_token, second.call_token);
    }
}

// ── Calls ───────────────────────────────────────────────────────────────────

/// What is done to one call leaves every other call as it is.
pub proof fn calls_are_independent(
    e: EngineView,
    id: Seq<char>,
    other: Seq<char>,
    muted: bool,
    on_hold: bool,
    session: u64,
)
    requires
        other != id,
    ensures
        calls::media_of(
            e.calls.insert(id, calls::with_mute(e.calls[id], muted)),
            other,
        ) == calls::media_of(e.calls, other),
        calls::media_of(
            e.calls.insert(id, calls::with_hold(e.calls[id], on_hold)),
            other,
        ) == calls::media_of(e.calls, other),
        calls::media_of(e.calls.remove(id), other) == calls::media_of(e.calls, other),
        calls::media_of(engine::with_capture(e, id, session).calls, other) == calls::media_of(
            e.calls,
            other,
        ),
        calls::media_of(engine::without_capture(e, id).calls, other) == calls::media_of(
            e.calls,
            other,
        ),
{
}

/// A call that was ended is gone: ending it again finds nothing.
pub proof fn ended_calls_are_forgotten(e: EngineView, id: Seq<char>)
    ensures
        !e.calls.remove(id).contains_key(id),
        calls::media_of(e.calls.remove(id), id) is None,
        e.calls.remove(id).remove(id) == e.calls.remove(id),
{
    assert(e.calls.remove(id).remove(id) =~= e.calls.remove(id));
}

/// Only active calls are reported as ended by the remote party.
pub proof fn only_active_calls_are_reported(all: calls::Calls, ended: Seq<Seq<char>>)
    ensures
        engine::noted_call(all, ended) matches Some(k) ==> k < ended.len() && all.contains_key(
            ended[k as int],
        ) && forall|i: int| k < i < ended.len() ==> !all.contains_key(#[trigger] ended[i]),
        engine::noted_call(all, ended) is None ==> forall|i: int|
            0 <= i < ended.len() ==> !all.contains_key(#[trigger] ended[i]),
    decreases ended.len(),
{
    if ended.len() > 0 && !all.contains_key(ended.last()) {
        let init = ended.drop_last();
        only_active_calls_are_reported(all, init);
        assert forall|i: int| 0 <= i < init.len() implies #[trigger] ended[i] == init[i] by {}
    }
}

/// A call that was hung up is not reported as ended by the remote party, even
/// if that was noted before.
pub proof fn hung_up_calls_are_not_reported(
    all: calls::Calls,
    ended: Seq<Seq<char>>,
    id: Seq<char>,
)
    ensures
        engine::noted_call(all.remove(id), ended) matches Some(k) ==> ended[k as int] != id,
{
    only_active_calls_are_reported(all.remove(id), ended);
}

/// An outgoing call sends nothing before its peer is known, and what it sends
/// after the answer goes where the answer says.
pub proof fn outgoing_media_follows_the_answer(
    codec: types::AudioCodec,
    local_port: u16,
    ssrc: u32,
    sdp_answer: Seq<char>,
    bracketed: Option<types::IpAddress>,
    srtp: bool,
)
    ensures
        ({
            let s = media::fresh_session(types::unspecified_address(), codec, local_port, ssrc);
            let t = engine::answered_session(s, sdp_answer, bracketed, srtp);
            &&& media::next_frame(s) == media::TxPlan::Wait
            &&& media::remote_address(sdp_answer, bracketed) matches Some(addr)
                ==> t.remote_addr == addr
            &&& media::remote_address(sdp_answer, bracketed) is None ==> media::next_frame(t)
                == media::TxPlan::Wait
        }),
{
}

/// Recording keeps what the app is told of every call in agreement with what
/// its media does.
pub proof fn recording_keeps_calls_consistent(e: EngineView, id: Seq<char>, session: u64)
    requires
        calls::consistent(e.calls),
    ensures
        calls::consistent(engine::with_capture(e, id, session).calls),
        calls::consistent(engine::without_tap(e, id).calls),
        calls::consistent(engine::without_capture(e, id).calls),
{
    if e.calls.contains_key(id) {
        assert(calls::call_ok(id, e.calls[id]));
    }
}

/// A capture that was started is found again until it is transcribed or
/// discarded; stopping alone does not lose it.
pub proof fn captures_are_kept_until_used(e: EngineView, id: Seq<char>, session: u64)
    requires
        e.ai is Some,
    ensures
        engine::capture_of(engine::with_capture(e, id, session), id) == Some(session),
        engine::capture_of(engine::without_tap(engine::with_capture(e, id, session), id), id)
            == Some(session),
        engine::capture_of(engine::without_capture(e, id), id) is None,
{
}

/// A call is fed to the AI while it is being captured, and no longer after
/// the capture was stopped.
pub proof fn audio_is_tapped_only_while_capturing(e: EngineView, id: Seq<char>, session: u64)
    requires
        e.ai is Some,
        e.calls.contains_key(id),
        e.calls[id].media is Some,
    ensures
        engine::with_capture(e, id, session).calls[id].media->0.ai_tap == Some(session),
        engine::without_tap(e, id).calls[id].media->0.ai_tap is None,
        engine::without_capture(e, id).calls[id].media->0.ai_tap is None,
{
}

// ── For whom tokens are minted ──────────────────────────────────────────────

/// `user` is `name`, then `@`, then `domain`, and nothing else.
pub open spec fn is_account(user: Seq<char>, name: Seq<char>, domain: Seq<char>) -> bool {
    &&& user.len() == name.len() + 1 + domain.len()
    &&& forall|i: int| 0 <= i < name.len() ==> #[trigger] user[i] == name[i]
    &&& user[name.len() as int] == '@'
    &&& forall|i: int| 0 <= i < domain.len() ==> user[name.len() + 1 + i] == #[trigger] domain[i]
}

proof fn lemma_account(registration: DeviceRegistration)
    ensures
        is_account(
            engine::user_of(registration),
            registration.sip.username@,
            registration.sip.domain@,
        ),
{
    reveal_strlit("@");
}

/// A token is minted, at registration and at every refresh, for the name and
/// domain of the registered SIP account: the text `username@domain`.
pub proof fn tokens_are_minted_for_the_sip_account(
    e: EngineView,
    registration: DeviceRegistration,
    now: Moment,
)
    ensures
        engine::registration_plan(e, registration) matches TokenPlanView::Mint(user)
            ==> is_account(user, registration.sip.username@, registration.sip.domain@),
        engine::token_plan(
            EngineView { last_registration: Some(registration), ..e },
            now,
        ) matches TokenPlanView::Mint(user) ==> is_account(
            user,
            registration.sip.username@,
            registration.sip.domain@,
        ),
{
    lemma_account(registration);
}

/// Registrations with the same user name and domain mint for the same user,
/// whatever else they say.
pub proof fn other_fields_do_not_change_the_account(
    e: EngineView,
    a: DeviceRegistration,
    b: DeviceRegistration,
    now: Moment,
)
    requires
        a.sip.username@ == b.sip.username@,
        a.sip.domain@ == b.sip.domain@,
    ensures
        engine::user_of(a) == engine::user_of(b),
        engine::registration_plan(e, a) == engine::registration_plan(e, b),
        engine::token_plan(EngineView { last_registration: Some(a), ..e }, now)
            == engine::token_plan(EngineView { last_registration: Some(b), ..e }, now),
{
    assert(engine::user_of(a) =~= engine::user_of(b));
}

/// A key that starts with `eyJ` is a token itself, and no other key is.
pub proof fn only_jwts_are_tokens(e: EngineView)
    ensures
        engine::key_is_jwt(e) <==> e.gateway.api_key.len() >= 3 && e.gateway.api_key[0] == 'e'
            && e.gateway.api_key[1] == 'y' && e.gateway.api_key[2] == 'J',
{
    reveal_strlit("eyJ");
    let key = e.gateway.api_key;
    if key.len() >= 3 {
        assert(key.subrange(0, 3)[0] == key[0] && key.subrange(0, 3)[1] == key[1]
            && key.subrange(0, 3)[2] == key[2]);
        if key[0] == 'e' && key[1] == 'y' && key[2] == 'J' {
            assert(key.subrange(0, 3) =~= "eyJ"@);
        }
    }
}

/// A registration uses a key that is a token as it is, and mints a new token
/// with any other key.
pub proof fn registrations_bring_their_token(e: EngineView, registration: DeviceRegistration)
    ensures
        e.gateway.api_key.len() >= 3 && e.gateway.api_key[0] == 'e' && e.gateway.api_key[1] == 'y'
            && e.gateway.api_key[2] == 'J' ==> engine::registration_plan(e, registration)
            == TokenPlanView::Use(e.gateway.api_key),
        !(e.gateway.api_key.len() >= 3 && e.gateway.api_key[0] == 'e' && e.gateway.api_key[1]
            == 'y' && e.gateway.api_key[2] == 'J') ==> engine::registration_plan(e, registration)
            is Mint,
{
    only_jwts_are_tokens(e);
}

/// With a key that is no token and a registered device, a token is minted
/// exactly if there is none, or the one at hand expires within sixty seconds;
/// otherwise the one at hand is used.
pub proof fn tokens_are_minted_in_time(e: EngineView, now: Moment)
    requires
        !engine::key_is_jwt(e),
        e.last_registration is Some,
    ensures
        engine::token_plan(e, now) is Mint <==> e.auth_token is None || (
        e.token_expires_at matches Some(deadline) && now.nanos + 60_000_000_000
            >= deadline.nanos),
        e.auth_token matches Some(token) ==> engine::token_plan(e, now) !is Mint
            ==> engine::token_plan(e, now) == TokenPlanView::Use(token),
{
}

/// Without a registered device, or with a key that is a token itself, the token
/// at hand is used, and its lack is an authentication error.
pub proof fn tokens_at_hand_have_to_do(e: EngineView, now: Moment)
    requires
        engine::key_is_jwt(e) || e.last_registration is None,
    ensures
        engine::token_plan(e, now) == match e.auth_token {
            Some(token) => TokenPlanView::Use(token),
            None => TokenPlanView::Missing(types::MobileError::AuthenticationError),
        },
{
}

/// A stored token is the one at hand, and expires after its lifetime in
/// seconds, if that is known. Nothing else changes.
pub proof fn stored_tokens_expire_after_their_lifetime(
    e: EngineView,
    token: Seq<char>,
    expires_in: Option<u64>,
    now: Moment,
)
    ensures
        ({
            let t = engine::with_token(e, token, expires_in, now);
            &&& t.auth_token == Some(token)
            &&& match expires_in {
                Some(secs) => t.token_expires_at is Some && t.token_expires_at->0.nanos
                    == now.nanos + secs * 1_000_000_000,
                None => t.token_expires_at is None,
            }
            &&& t == (EngineView {
                auth_token: t.auth_token,
                token_expires_at: t.token_expires_at,
                ..e
            })
        }),
{
    if let Some(secs) = expires_in {
        assert(0 <= now.nanos + secs * 1_000_000_000 <= u64::MAX + u64::MAX * 1_000_000_000int);
    }
}

/// A registration stores its token, its device and itself. Calls, gateway and
/// everything else stay.
pub proof fn registrations_store_token_and_device(
    e: EngineView,
    registration: DeviceRegistration,
    token: Seq<char>,
    expires_in: Option<u64>,
    device_id: Seq<char>,
    now: Moment,
)
    ensures
        ({
            let r = engine::registered(e, registration, token, expires_in, device_id, now);
            &&& r.auth_token == Some(token)
            &&& r.device_id == Some(device_id)
            &&& r.last_registration == Some(registration)
            &&& match expires_in {
                Some(secs) => r.token_expires_at is Some && r.token_expires_at->0.nanos
                    == now.nanos + secs * 1_000_000_000,
                None => r.token_expires_at is None,
            }
            &&& r == (EngineView {
                auth_token: r.auth_token,
                token_expires_at: r.token_expires_at,
                device_id: r.device_id,
                last_registration: r.last_registration,
                ..e
            })
        }),
{
    stored_tokens_expire_after_their_lifetime(e, token, expires_in, now);
}

/// A new engine knows nothing but its gateway and its key, and prefers Opus,
/// then PCMU, then PCMA.
pub proof fn new_engines_are_empty(base_url: Seq<char>, api_key: Seq<char>, id: Seq<char>)
    ensures
        ({
            let e = engine::fresh_engine(base_url, api_key);
            &&& !e.calls.contains_key(id)
            &&& e.auth_token is None && e.token_expires_at is None
            &&& e.device_id is None && e.last_registration is None
            &&& e.ai is None && e.remote_ended.len() == 0
            &&& e.gateway.api_key == api_key && e.gateway.targets.len() == 0
            &&& e.codec_prefs.len() == 3
            &&& e.codec_prefs[0] == types::AudioCodec::Opus
            &&& e.codec_prefs[1] == types::AudioCodec::Pcmu
            &&& e.codec_prefs[2] == types::AudioCodec::Pcma
        }),
{
}

/// A change of the network is reported exactly if a device is registered and
/// a token at hand.
pub proof fn network_changes_are_reported(e: EngineView)
    ensures
        engine::sends_heartbeat(e) <==> e.device_id is Some && e.auth_token is Some,
{
}

// ── What calls are made of ──────────────────────────────────────────────────

/// The identifier of an incoming call is `incoming-` and its whole token.
pub proof fn incoming_calls_are_named_by_their_token(call_token: Seq<char>)
    ensures
        engine::incoming_id(call_token).len() == 9 + call_token.len(),
        engine::incoming_id(call_token).take(9) == "incoming-"@,
        engine::incoming_id(call_token).skip(9) == call_token,
{
    reveal_strlit("incoming-");
    assert(engine::incoming_id(call_token).take(9) =~= "incoming-"@);
    assert(engine::incoming_id(call_token).skip(9) =~= call_token);
}

/// The identifier of an outgoing call is `outgoing-` and 32 lower-case
/// hexadecimal digits.
pub proof fn outgoing_calls_are_named_by_a_uuid(id: Seq<char>, i: int)
    requires
        engine::is_outgoing_id(id),
        9 <= i < 41,
    ensures
        id.len() == 41,
        id.take(9) == "outgoing-"@,
        '0' <= id[i] <= '9' || 'a' <= id[i] <= 'f',
        id[21] == '4',
{
    reveal_strlit("outgoing-");
    assert(id.skip(9).len() == 32);
    assert(id.take(9) =~= "outgoing-"@);
    assert(id.skip(9)[i - 9] == id[i]);
    assert(id.skip(9)[12] == id[21]);
    assert(engine::is_lower_hex(id.skip(9)[i - 9]));
}

/// The codecs of a call are those that the caller of the call asks for, and the
/// preferences of the engine only if none are.
pub proof fn asked_for_codecs_come_first(e: EngineView, preferred: Seq<types::AudioCodec>)
    ensures
        preferred.len() > 0 ==> engine::chosen_codecs(e, preferred) == preferred,
        preferred.len() == 0 ==> engine::chosen_codecs(e, preferred) == e.codec_prefs,
{
}

/// The answer to an outgoing call sets the peer, if it names one, and whether
/// media is encrypted. Nothing else of the session changes.
pub proof fn answers_set_peer_and_encryption(
    s: media::MobileMediaSession,
    sdp_answer: Seq<char>,
    bracketed: Option<types::IpAddress>,
    srtp: bool,
)
    ensures
        ({
            let t = engine::answered_session(s, sdp_answer, bracketed, srtp);
            &&& t.srtp_active == srtp
            &&& match media::remote_address(sdp_answer, bracketed) {
                Some(addr) => t.remote_addr == addr,
                None => t.remote_addr == s.remote_addr,
            }
            &&& t == (media::MobileMediaSession {
                remote_addr: t.remote_addr,
                srtp_active: t.srtp_active,
                ..s
            })
        }),
{
}

/// A call is over if its status says `ended` or `unknown`, and only then.
pub proof fn calls_are_over_when_ended_or_unknown(status: Seq<char>)
    ensures
        engine::is_over("ended"@),
        engine::is_over("unknown"@),
        status != "ended"@ && status != "unknown"@ ==> !engine::is_over(status),
{
}

/// The key for stored insights has 32 bytes, if there is one.
pub proof fn insight_keys_have_their_length(key: Vec<u8>)
    ensures
        engine::is_insight_key(Some(key)) <==> key@.len() == 32,
        engine::is_insight_key(None),
{
}

/// Starting a capture notes it for its call, and attaches it to the call if
/// there is one. Other captures, other calls and everything else stay. Without
/// AI nothing happens.
pub proof fn captures_are_noted(
    e: EngineView,
    id: Seq<char>,
    session: u64,
    other: Seq<char>,
)
    requires
        other != id,
    ensures
        ({
            let t = engine::with_capture(e, id, session);
            &&& e.ai is None ==> t == e
            &&& e.ai is Some ==> engine::capture_of(t, id) == Some(session)
            &&& engine::capture_of(t, other) == engine::capture_of(e, other)
            &&& t.calls.contains_key(id) == e.calls.contains_key(id)
            &&& t.calls.contains_key(other) == e.calls.contains_key(other)
            &&& e.calls.contains_key(other) ==> t.calls[other] == e.calls[other]
            &&& e.calls.contains_key(id) ==> t.calls[id].info == e.calls[id].info
                && t.calls[id].call_token == e.calls[id].call_token
            &&& t == (EngineView { ai: t.ai, calls: t.calls, ..e })
        }),
{
}

/// Stopping a capture keeps it on the list, and taking it out leaves the others
/// there. The call goes on as before.
pub proof fn captures_end_alone(e: EngineView, id: Seq<char>, other: Seq<char>)
    requires
        other != id,
    ensures
        ({
            let stopped = engine::without_tap(e, id);
            let gone = engine::without_capture(e, id);
            &&& stopped.ai == e.ai
            &&& stopped == (EngineView { calls: stopped.calls, ..e })
            &&& gone == (EngineView { ai: gone.ai, calls: stopped.calls, ..e })
            &&& (gone.ai is Some) == (e.ai is Some)
            &&& engine::capture_of(gone, id) is None
            &&& engine::capture_of(gone, other) == engine::capture_of(e, other)
            &&& stopped.calls.contains_key(id) == e.calls.contains_key(id)
            &&& stopped.calls.contains_key(other) == e.calls.contains_key(other)
            &&& e.calls.contains_key(other) ==> stopped.calls[other] == e.calls[other]
            &&& e.calls.contains_key(id) ==> stopped.calls[id].info == e.calls[id].info
                && stopped.calls[id].call_token == e.calls[id].call_token
        }),
{
}

/// The capture of a call is the one that is noted under its identifier; there
/// is none without AI.
pub proof fn captures_are_found_by_call(e: EngineView, id: Seq<char>)
    ensures
        e.ai is None ==> engine::capture_of(e, id) is None,
        e.ai matches Some(sessions) ==> {
            &&& sessions.contains_key(id) ==> engine::capture_of(e, id) == Some(sessions[id])
            &&& !sessions.contains_key(id) ==> engine::capture_of(e, id) is None
        },
{
}

/// A plan is handed over as it is noted.
pub proof fn plans_are_handed_over_as_noted(text: String, e: types::MobileError)
    ensures
        engine::TokenPlan::Use(text)@ == TokenPlanView::Use(text@),
        engine::TokenPlan::Mint(text)@ == TokenPlanView::Mint(text@),
        engine::TokenPlan::Missing(e)@ == TokenPlanView::Missing(e),
{
}

/// A new engine talks to its gateway under the URL that is enforced.
pub proof fn new_engines_enforce_tls(base_url: Seq<char>, api_key: Seq<char>)
    ensures
        engine::fresh_engine(base_url, api_key).gateway.base_url == gateway_client::enforced(
            base_url,
        ),
        !gateway_client::is_cleartext_remote(
            engine::fresh_engine(base_url, api_key).gateway.base_url,
        ),
{
    gateway_laws::no_cleartext_to_remote_hosts(base_url);
}

} // verus!
