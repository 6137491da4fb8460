//! The active calls and what can be done to them.

use vstd::prelude::*;

use crate::media;
use crate::media::{MobileMediaSession, TxPlan, TxState};
use crate::table;
use crate::table::TextMap;
use crate::types;
use crate::types::{CallDirection, CallInfo, CallState, MobileError};

verus! {

// ── Model ───────────────────────────────────────────────────────────────────

/// An optional string as plain values.
pub open spec fn text_view(s: Option<String>) -> Option<Seq<char>> {
    match s {
        Some(t) => Some(t@),
        None => None,
    }
}

/// [`CallInfo`] as plain values.
pub struct CallInfoView {
    pub call_id: Seq<char>,
    pub remote_uri: Seq<char>,
    pub remote_name: Option<Seq<char>>,
    pub state: CallState,
    pub direction: CallDirection,
    pub muted: bool,
    pub on_hold: bool,
    pub duration_secs: u64,
}

impl View for CallInfo {
    type V = CallInfoView;

    open spec fn view(&self) -> CallInfoView {
        CallInfoView {
            call_id: self.call_id@,
            remote_uri: self.remote_uri@,
            remote_name: text_view(self.remote_name),
            state: self.state,
            direction: self.direction,
            muted: self.muted,
            on_hold: self.on_hold,
            duration_secs: self.duration_secs,
        }
    }
}

/// A call that is under way.
#[derive(Debug)]
pub struct ActiveCallState {
    pub info: CallInfo,
    pub media: Option<MobileMediaSession>,
    /// For gateway-routed calls.
    pub call_token: Option<String>,
}

/// [`ActiveCallState`] as plain values.
pub struct CallView {
    pub info: CallInfoView,
    pub media: Option<MobileMediaSession>,
    pub call_token: Option<Seq<char>>,
}

impl View for ActiveCallState {
    type V = CallView;

    open spec fn view(&self) -> CallView {
        CallView {
            info: self.info@,
            media: self.media,
            call_token: text_view(self.call_token),
        }
    }
}

/// Calls by their identifiers.
pub type Calls = Map<Seq<char>, CallView>;

/// The state in which a call is shown, depending on whether it is on hold.
pub open spec fn shown_state(on_hold: bool) -> CallState {
    if on_hold {
        CallState::OnHold
    } else {
        CallState::Connected
    }
}

/// What the app is told about a call agrees with what its media does.
pub open spec fn call_ok(id: Seq<char>, c: CallView) -> bool {
    &&& c.info.call_id == id
    &&& c.media is Some
    &&& c.media->0.running
    &&& c.media->0.muted == c.info.muted
    &&& c.media->0.on_hold == c.info.on_hold
    &&& c.info.state == shown_state(c.info.on_hold)
}

/// All calls are as [`call_ok`] says.
pub open spec fn consistent(calls: Calls) -> bool {
    forall|id: Seq<char>| #[trigger] calls.contains_key(id) ==> call_ok(id, calls[id])
}

/// A call that has just been connected.
pub open spec fn connected_call(
    call_id: Seq<char>,
    remote_uri: Seq<char>,
    remote_name: Option<Seq<char>>,
    direction: CallDirection,
    media: MobileMediaSession,
    call_token: Seq<char>,
) -> CallView {
    CallView {
        info: CallInfoView {
            call_id,
            remote_uri,
            remote_name,
            state: CallState::Connected,
            direction,
            muted: false,
            on_hold: false,
            duration_secs: 0,
        },
        media: Some(media),
        call_token: Some(call_token),
    }
}

/// `c` with its microphone muted or not.
pub open spec fn with_mute(c: CallView, muted: bool) -> CallView {
    CallView {
        info: CallInfoView { muted, ..c.info },
        media: match c.media {
            Some(m) => Some(MobileMediaSession { muted, ..m }),
            None => None,
        },
        ..c
    }
}

/// `c` put on hold or resumed.
pub open spec fn with_hold(c: CallView, on_hold: bool) -> CallView {
    CallView {
        info: CallInfoView { on_hold, state: shown_state(on_hold), ..c.info },
        media: match c.media {
            Some(m) => Some(MobileMediaSession { on_hold, ..m }),
            None => None,
        },
        ..c
    }
}

/// `c` with a capture session attached to its audio, or none.
pub open spec fn with_tap(c: CallView, tap: Option<u64>) -> CallView {
    CallView {
        media: match c.media {
            Some(m) => Some(MobileMediaSession { ai_tap: tap, ..m }),
            None => None,
        },
        ..c
    }
}

/// `c` with the peer, counters and levels of `s`.
pub open spec fn with_traffic(c: CallView, s: MobileMediaSession) -> CallView {
    CallView {
        media: match c.media {
            Some(m) => Some(
                MobileMediaSession {
                    remote_addr: s.remote_addr,
                    counters: s.counters,
                    rx_level: s.rx_level,
                    tx_level: s.tx_level,
                    ..m
                },
            ),
            None => None,
        },
        ..c
    }
}

/// `c` after it ended: its media stands still.
pub open spec fn ended_call(c: CallView) -> CallView {
    CallView {
        info: CallInfoView { state: CallState::Ended, ..c.info },
        media: match c.media {
            Some(m) => Some(MobileMediaSession { running: false, ..m }),
            None => None,
        },
        ..c
    }
}

/// The media of a call.
pub open spec fn media_of(calls: Calls, id: Seq<char>) -> Option<MobileMediaSession> {
    if calls.contains_key(id) {
        calls[id].media
    } else {
        None
    }
}

// ── Table ───────────────────────────────────────────────────────────────────

/// The active calls.
pub struct CallTable {
    calls: TextMap<ActiveCallState>,
}

/// The calls in a map of call states.
spec fn viewed(m: Map<Seq<char>, ActiveCallState>) -> Calls {
    m.map_values(|c: ActiveCallState| c@)
}

impl View for CallTable {
    type V = Calls;

    closed spec fn view(&self) -> Calls {
        viewed(self.calls@)
    }
}

proof fn lemma_viewed_insert(m: Map<Seq<char>, ActiveCallState>, id: Seq<char>, c: ActiveCallState)
    ensures
        viewed(m.insert(id, c)) == viewed(m).insert(id, c@),
        viewed(m.remove(id)) == viewed(m).remove(id),
{
    assert(viewed(m.insert(id, c)) =~= viewed(m).insert(id, c@));
    assert(viewed(m.remove(id)) =~= viewed(m).remove(id));
}

impl CallTable {
    #[verifier::type_invariant]
    spec fn calls_agree_with_media(self) -> bool {
        consistent(self@)
    }

    /// No calls.
    pub fn new() -> (r: Self)
        ensures
            r@ == Map::<Seq<char>, CallView>::empty(),
    {
        let calls = TextMap::new();
        assert(viewed(calls@) =~= Map::<Seq<char>, CallView>::empty());
        CallTable { calls }
    }

    /// Number of calls.
    pub fn len(&self) -> (r: usize)
        ensures
            r == self@.len(),
    {
        assert(viewed(self.calls@).dom() =~= self.calls@.dom());
        self.calls.len()
    }

    /// The identifiers of all calls, each once, in no particular order.
    pub fn ids(&self) -> (r: Vec<String>)
        ensures
            table::lists_keys(r@, self@),
    {
        let ids = self.calls.keys();
        assert forall|k: Seq<char>| #[trigger] self@.contains_key(k) implies exists|i: int|
            0 <= i < ids@.len() && (#[trigger] ids@[i])@ == k by {
            assert(self.calls@.contains_key(k));
        }
        assert forall|i: int| 0 <= i < ids@.len() implies self@.contains_key(
            (#[trigger] ids@[i])@,
        ) by {
            assert(self.calls@.contains_key(ids@[i]@));
        }
        ids
    }

    /// A call.
    pub fn get(&self, id: &str) -> (r: Option<&ActiveCallState>)
        ensures
            match r {
                Some(c) => self@.contains_key(id@) && c@ == self@[id@] && call_ok(id@, c@),
                None => !self@.contains_key(id@),
            },
    {
        proof {
            use_type_invariant(self);
        }
        self.calls.get(id)
    }

    /// The media of a call.
    pub fn media(&self, id: &str) -> (r: Option<MobileMediaSession>)
        ensures
            r == media_of(self@, id@),
    {
        match self.get(id) {
            Some(call) => call.media,
            None => None,
        }
    }

    /// Some call, if there is one. No call in the table is idle or ended.
    pub fn active(&self) -> (r: Option<CallInfo>)
        ensures
            match r {
                Some(info) => self@.contains_key(info.call_id@) && self@[info.call_id@].info
                    == info@ && info.state != CallState::Idle && info.state != CallState::Ended,
                None => forall|id: Seq<char>| !#[trigger] self@.contains_key(id),
            },
    {
        proof {
            use_type_invariant(self);
        }
        if self.calls.len() == 0 {
            assert forall|id: Seq<char>| !#[trigger] self@.contains_key(id) by {
                if self@.contains_key(id) {
                    assert(self.calls@.contains_key(id));
                }
            }
            return None;
        }
        let call = self.calls.value_at(0);
        assert(self@.contains_key(self.calls.key_at(0)));
        assert(call_ok(self.calls.key_at(0), call@));
        Some(call.info.clone())
    }

    /// Adds a call that has just been connected, in place of one with the same
    /// identifier.
    pub(crate) fn connect(
        &mut self,
        call_id: String,
        remote_uri: String,
        remote_name: Option<String>,
        direction: CallDirection,
        media: MobileMediaSession,
        call_token: String,
    ) -> (r: CallInfo)
        requires
            media.running,
            !media.muted,
            !media.on_hold,
        ensures
            final(self)@ == old(self)@.insert(
                call_id@,
                connected_call(
                    call_id@,
                    remote_uri@,
                    text_view(remote_name),
                    direction,
                    media,
                    call_token@,
                ),
            ),
            r@ == final(self)@[call_id@].info,
    {
        proof {
            use_type_invariant(&*self);
        }
        let key = call_id.clone();
        let info = CallInfo {
            call_id,
            remote_uri,
            remote_name,
            state: CallState::Connected,
            direction,
            muted: false,
            on_hold: false,
            duration_secs: 0,
        };
        let call = ActiveCallState {
            info: info.clone(),
            media: Some(media),
            call_token: Some(call_token),
        };
        self.put(key, call);
        info
    }

    /// Stores a call under its identifier.
    fn put(&mut self, key: String, call: ActiveCallState)
        requires
            call_ok(key@, call@),
        ensures
            final(self)@ == old(self)@.insert(key@, call@),
    {
        proof {
            use_type_invariant(&*self);
        }
        let mut calls = TextMap::new();
        assert(viewed(calls@) =~= Map::<Seq<char>, CallView>::empty());
        std::mem::swap(&mut calls, &mut self.calls);
        proof {
            lemma_viewed_insert(calls@, key@, call);
        }
        calls.insert(key, call);
        self.calls = calls;
    }

    /// Takes a call out of the table.
    fn take(&mut self, id: &str) -> (r: Option<ActiveCallState>)
        ensures
            final(self)@ == old(self)@.remove(id@),
            match r {
                Some(c) => old(self)@.contains_key(id@) && c@ == old(self)@[id@] && call_ok(
                    id@,
                    c@,
                ),
                None => !old(self)@.contains_key(id@) && final(self)@ == old(self)@,
            },
    {
        proof {
            use_type_invariant(&*self);
        }
        let mut calls = TextMap::new();
        assert(viewed(calls@) =~= Map::<Seq<char>, CallView>::empty());
        std::mem::swap(&mut calls, &mut self.calls);
        let ghost before = calls@;
        let call = calls.remove(id);
        proof {
            assert(viewed(before.remove(id@)) =~= viewed(before).remove(id@));
            if call is None {
                assert(before.remove(id@) =~= before);
            }
        }
        self.calls = calls;
        call
    }

    /// Ends a call: it leaves the table and its media stops.
    pub fn end(&mut self, id: &str) -> (r: Option<ActiveCallState>)
        ensures
            final(self)@ == old(self)@.remove(id@),
            match r {
                Some(c) => old(self)@.contains_key(id@) && c@ == ended_call(old(self)@[id@]),
                None => !old(self)@.contains_key(id@),
            },
    {
        match self.take(id) {
            Some(call) => {
                let mut call = call;
                call.info.state = CallState::Ended;
                if let Some(session) = call.media {
                    let mut session = session;
                    session.stop();
                    call.media = Some(session);
                }
                Some(call)
            },
            None => None,
        }
    }

    /// Mutes or unmutes a call.
    pub fn set_mute(&mut self, id: &str, muted: bool) -> (r: Result<CallInfo, MobileError>)
        ensures
            match r {
                Ok(info) => old(self)@.contains_key(id@) && final(self)@ == old(self)@.insert(
                    id@,
                    with_mute(old(self)@[id@], muted),
                ) && info@ == final(self)@[id@].info,
                Err(e) => !old(self)@.contains_key(id@) && e == MobileError::InvalidState
                    && final(self)@ == old(self)@,
            },
    {
        match self.take(id) {
            Some(call) => {
                let mut call = call;
                if let Some(session) = call.media {
                    let mut session = session;
                    session.set_mute(muted);
                    call.media = Some(session);
                }
                call.info.muted = muted;
                let info = call.info.clone();
                self.put(id.to_owned(), call);
                assert(self@ =~= old(self)@.insert(id@, with_mute(old(self)@[id@], muted)));
                Ok(info)
            },
            None => Err(MobileError::InvalidState),
        }
    }

    /// Puts a call on hold or resumes it.
    pub fn set_hold(&mut self, id: &str, on_hold: bool) -> (r: Result<CallInfo, MobileError>)
        ensures
            match r {
                Ok(info) => old(self)@.contains_key(id@) && final(self)@ == old(self)@.insert(
                    id@,
                    with_hold(old(self)@[id@], on_hold),
                ) && info@ == final(self)@[id@].info,
                Err(e) => !old(self)@.contains_key(id@) && e == MobileError::InvalidState
                    && final(self)@ == old(self)@,
            },
    {
        match self.take(id) {
            Some(call) => {
                let mut call = call;
                if let Some(session) = call.media {
                    let mut session = session;
                    session.set_hold(on_hold);
                    call.media = Some(session);
                }
                call.info.on_hold = on_hold;
                call.info.state = if on_hold {
                    CallState::OnHold
                } else {
                    CallState::Connected
                };
                let info = call.info.clone();
                self.put(id.to_owned(), call);
                assert(self@ =~= old(self)@.insert(id@, with_hold(old(self)@[id@], on_hold)));
                Ok(info)
            },
            None => Err(MobileError::InvalidState),
        }
    }

    /// Attaches a capture session to a call's audio, or detaches it. `false`
    /// if there is no such call.
    pub fn set_tap(&mut self, id: &str, tap: Option<u64>) -> (r: bool)
        ensures
            r == old(self)@.contains_key(id@),
            final(self)@ == if r {
                old(self)@.insert(id@, with_tap(old(self)@[id@], tap))
            } else {
                old(self)@
            },
    {
        match self.take(id) {
            Some(call) => {
                let mut call = call;
                if let Some(session) = call.media {
                    let mut session = session;
                    session.set_ai_tap(tap);
                    call.media = Some(session);
                }
                self.put(id.to_owned(), call);
                assert(self@ =~= old(self)@.insert(id@, with_tap(old(self)@[id@], tap)));
                true
            },
            None => false,
        }
    }

    /// Takes over the peer, counters and levels of `session` into the call
    /// that it belongs to. `false` if the call is gone, or its media is
    /// another session.
    pub fn record_traffic(&mut self, id: &str, session: MobileMediaSession) -> (r: bool)
        ensures
            r == (media_of(old(self)@, id@) matches Some(m) && m.ssrc == session.ssrc),
            final(self)@ == if r {
                old(self)@.insert(id@, with_traffic(old(self)@[id@], session))
            } else {
                old(self)@
            },
    {
        let known = match self.media(id) {
            Some(m) => m.ssrc == session.ssrc,
            None => false,
        };
        if !known {
            return false;
        }
        match self.take(id) {
            Some(call) => {
                let mut call = call;
                if let Some(m) = call.media {
                    call.media = Some(
                        MobileMediaSession {
                            remote_addr: session.remote_addr,
                            counters: session.counters,
                            rx_level: session.rx_level,
                            tx_level: session.tx_level,
                            ..m
                        },
                    );
                }
                self.put(id.to_owned(), call);
                assert(self@ =~= old(self)@.insert(id@, with_traffic(old(self)@[id@], session)));
                true
            },
            None => false,
        }
    }
}

// ── Laws ────────────────────────────────────────────────────────────────────

/// Whatever is done to a call, what the app is told of every call goes on
/// agreeing with what its media does.
pub proof fn operations_keep_calls_consistent(
    calls: Calls,
    id: Seq<char>,
    muted: bool,
    on_hold: bool,
    tap: Option<u64>,
    traffic: MobileMediaSession,
)
    requires
        consistent(calls),
        calls.contains_key(id),
    ensures
        consistent(calls.insert(id, with_mute(calls[id], muted))),
        consistent(calls.insert(id, with_hold(calls[id], on_hold))),
        consistent(calls.insert(id, with_tap(calls[id], tap))),
        consistent(calls.insert(id, with_traffic(calls[id], traffic))),
        consistent(calls.remove(id)),
{
    assert(call_ok(id, calls[id]));
}

/// A new call joins the others consistently.
pub proof fn connecting_keeps_calls_consistent(
    calls: Calls,
    call_id: Seq<char>,
    remote_uri: Seq<char>,
    remote_name: Option<Seq<char>>,
    direction: CallDirection,
    remote_addr: types::SocketAddress,
    codec: types::AudioCodec,
    local_port: u16,
    ssrc: u32,
    call_token: Seq<char>,
)
    requires
        consistent(calls),
    ensures
        consistent(
            calls.insert(
                call_id,
                connected_call(
                    call_id,
                    remote_uri,
                    remote_name,
                    direction,
                    media::fresh_session(remote_addr, codec, local_port, ssrc),
                    call_token,
                ),
            ),
        ),
{
}

/// A call that is shown as muted or on hold sends silence and never what the
/// microphone picks up, and one that is on hold plays nothing.
pub proof fn quiet_calls_are_quiet(
    calls: Calls,
    id: Seq<char>,
    tx: TxState,
    captured: Seq<i16>,
    data: Seq<u8>,
)
    requires
        consistent(calls),
        calls.contains_key(id),
        calls[id].info.muted || calls[id].info.on_hold,
    ensures
        media::next_frame(calls[id].media->0) != TxPlan::Capture,
        media::outgoing_frame(calls[id].media->0, captured) == media::silent_frame(
            calls[id].media->0.codec,
        ),
        media::sent_audio(calls[id].media->0, tx, captured) == media::sent_audio(
            calls[id].media->0,
            tx,
            Seq::empty(),
        ),
        calls[id].info.on_hold ==> media::rx_audio(calls[id].media->0, data) is None,
{
    assert(call_ok(id, calls[id]));
    media::muted_or_held_call_sends_silence(calls[id].media->0, tx, captured);
    media::muted_or_held_call_sends_silence(calls[id].media->0, tx, Seq::empty());
}

/// Unmuting and resuming undo muting and holding.
pub proof fn mute_and_hold_can_be_undone(calls: Calls, id: Seq<char>)
    requires
        consistent(calls),
        calls.contains_key(id),
    ensures
        !calls[id].info.muted ==> with_mute(with_mute(calls[id], true), false) == calls[id],
        !calls[id].info.on_hold ==> with_hold(with_hold(calls[id], true), false) == calls[id],
{
    assert(call_ok(id, calls[id]));
}

/// Muting and holding are independent: they can be done in either order.
pub proof fn mute_and_hold_commute(c: CallView, muted: bool, on_hold: bool)
    ensures
        with_mute(with_hold(c, on_hold), muted) == with_hold(with_mute(c, muted), on_hold),
{
}

/// What is counted of a call is not lost by muting, holding or recording it.
pub proof fn controls_keep_the_counters(c: CallView, muted: bool, on_hold: bool, tap: Option<u64>)
    requires
        c.media is Some,
    ensures
        with_mute(c, muted).media->0.counters == c.media->0.counters,
        with_hold(c, on_hold).media->0.counters == c.media->0.counters,
        with_tap(c, tap).media->0.counters == c.media->0.counters,
        ended_call(c).media->0.counters == c.media->0.counters,
{
}

/// A call that has just been connected is shown as such, neither muted nor on
/// hold, with its peer, its direction and no duration.
pub proof fn connected_calls_are_shown_as_connected(
    call_id: Seq<char>,
    remote_uri: Seq<char>,
    remote_name: Option<Seq<char>>,
    direction: CallDirection,
    media: MobileMediaSession,
    call_token: Seq<char>,
)
    ensures
        ({
            let c = connected_call(
                call_id,
                remote_uri,
                remote_name,
                direction,
                media,
                call_token,
            );
            &&& c.info.call_id == call_id
            &&& c.info.remote_uri == remote_uri
            &&& c.info.remote_name == remote_name
            &&& c.info.state == CallState::Connected
            &&& c.info.direction == direction
            &&& !c.info.muted && !c.info.on_hold
            &&& c.info.duration_secs == 0
            &&& c.media == Some(media)
            &&& c.call_token == Some(call_token)
        }),
{
}

/// Muting a call mutes what is shown and what is sent, and nothing else.
pub proof fn muting_mutes_only(c: CallView, muted: bool)
    ensures
        ({
            let d = with_mute(c, muted);
            &&& d.info.muted == muted
            &&& d.info == (CallInfoView { muted: d.info.muted, ..c.info })
            &&& d.call_token == c.call_token
            &&& (d.media is Some) == (c.media is Some)
            &&& c.media is Some ==> d.media->0.muted == muted && d.media->0
                == (MobileMediaSession { muted: d.media->0.muted, ..c.media->0 })
        }),
{
}

/// Holding a call holds what is shown and what is played and sent, and nothing
/// else; it is shown as on hold, and as connected once it is resumed.
pub proof fn holding_holds_only(c: CallView, on_hold: bool)
    ensures
        ({
            let d = with_hold(c, on_hold);
            &&& d.info.on_hold == on_hold
            &&& on_hold ==> d.info.state == CallState::OnHold
            &&& !on_hold ==> d.info.state == CallState::Connected
            &&& d.info == (CallInfoView {
                on_hold: d.info.on_hold,
                state: d.info.state,
                ..c.info
            })
            &&& d.call_token == c.call_token
            &&& (d.media is Some) == (c.media is Some)
            &&& c.media is Some ==> d.media->0.on_hold == on_hold && d.media->0
                == (MobileMediaSession { on_hold: d.media->0.on_hold, ..c.media->0 })
        }),
{
}

/// Attaching a capture session to a call, or detaching it, changes nothing
/// else.
pub proof fn tapping_changes_the_tap_only(c: CallView, tap: Option<u64>)
    ensures
        ({
            let d = with_tap(c, tap);
            &&& d.info == c.info
            &&& d.call_token == c.call_token
            &&& (d.media is Some) == (c.media is Some)
            &&& c.media is Some ==> d.media->0.ai_tap == tap && d.media->0
                == (MobileMediaSession { ai_tap: d.media->0.ai_tap, ..c.media->0 })
        }),
{
}

/// Traffic brings the peer, the counters and the levels of its session into the
/// call, and nothing else.
pub proof fn traffic_is_taken_over(c: CallView, s: MobileMediaSession)
    ensures
        ({
            let d = with_traffic(c, s);
            &&& d.info == c.info
            &&& d.call_token == c.call_token
            &&& (d.media is Some) == (c.media is Some)
            &&& c.media is Some ==> {
                &&& d.media->0.remote_addr == s.remote_addr
                &&& d.media->0.counters == s.counters
                &&& d.media->0.rx_level == s.rx_level
                &&& d.media->0.tx_level == s.tx_level
                &&& d.media->0 == (MobileMediaSession {
                    remote_addr: d.media->0.remote_addr,
                    counters: d.media->0.counters,
                    rx_level: d.media->0.rx_level,
                    tx_level: d.media->0.tx_level,
                    ..c.media->0
                })
            }
        }),
{
}

/// A call that ended is shown as ended and its media stands still. All else
/// that is told of it is as it was.
pub proof fn ended_calls_stand_still(c: CallView)
    ensures
        ({
            let d = ended_call(c);
            &&& d.info.state == CallState::Ended
            &&& d.info == (CallInfoView { state: d.info.state, ..c.info })
            &&& d.call_token == c.call_token
            &&& (d.media is Some) == (c.media is Some)
            &&& c.media is Some ==> !d.media->0.running && d.media->0 == (MobileMediaSession {
                running: d.media->0.running,
                ..c.media->0
            })
        }),
{
}

/// What the app is told of a consistent call is what its media does.
pub proof fn consistent_calls_are_shown_as_they_are(calls: Calls, id: Seq<char>)
    requires
        consistent(calls),
        calls.contains_key(id),
    ensures
        calls[id].info.call_id == id,
        media_of(calls, id) == calls[id].media,
        media_of(calls, id) is Some,
        calls[id].media->0.running,
        calls[id].info.muted == calls[id].media->0.muted,
        calls[id].info.on_hold == calls[id].media->0.on_hold,
        calls[id].info.state == CallState::OnHold <==> calls[id].info.on_hold,
        calls[id].info.state == CallState::Connected <==> !calls[id].info.on_hold,
{
    assert(call_ok(id, calls[id]));
}

/// An optional text is shown as it is, the empty one too.
pub proof fn texts_are_shown_as_they_are(s: String)
    ensures
        text_view(Some(s)) == Some(s@),
        text_view(None) is None,
{
}

/// What the app is handed of a call is what is noted of it, field by field.
pub proof fn call_info_shows_every_field(info: CallInfo)
    ensures
        info@.call_id == info.call_id@,
        info@.remote_uri == info.remote_uri@,
        match info.remote_name {
            Some(name) => info@.remote_name == Some(name@),
            None => info@.remote_name is None,
        },
        info@.state == info.state,
        info@.direction == info.direction,
        info@.muted == info.muted,
        info@.on_hold == info.on_hold,
        info@.duration_secs == info.duration_secs,
{
}

/// The media of a call is found under its identifier, and none under any other
/// text.
pub proof fn media_is_found_by_call(calls: Calls, id: Seq<char>)
    ensures
        calls.contains_key(id) ==> media_of(calls, id) == calls[id].media,
        !calls.contains_key(id) ==> media_of(calls, id) is None,
{
}

/// A call is handed over with its info, its media and its token.
pub proof fn calls_are_handed_over_whole(call: ActiveCallState)
    ensures
        call@.info == call.info@,
        call@.media == call.media,
        match call.call_token {
            Some(token) => call@.call_token == Some(token@),
            None => call@.call_token is None,
        },
{
}

} // verus!
