//! DNS SRV resolution for SIP server discovery (RFC 2782 / RFC 3263).
//!
//! SRV lookups (`_sip._udp`, `_sip._tcp`, `_sips._tcp`) fall back to A/AAAA
//! records. Results are cached with a time to live. The queries themselves
//! are made by the caller; everything that is decided about them is here.

use vstd::prelude::*;
use vstd::string::*;

use crate::table::TextMap;
use crate::text;
use crate::types;
use crate::types::{Deadline, IpAddress, Moment, SocketAddress};

verus! {

/// A resolved SIP server target with priority/weight from SRV records.
#[derive(Debug)]
pub struct SrvTarget {
    pub host: String,
    pub port: u16,
    pub priority: u16,
    pub weight: u16,
    pub addr: SocketAddress,
}

/// One SRV record, as the name server returned it.
#[derive(Debug)]
pub struct SrvRecord {
    pub priority: u16,
    pub weight: u16,
    pub port: u16,
    /// Target host name, possibly with trailing dots.
    pub target: String,
}

/// SIP transport type for SRV lookup name construction.
#[derive(Debug, Clone, Copy, PartialEq, Eq, Structural)]
pub enum SipTransport {
    Udp,
    Tcp,
    Tls,
}

impl Clone for SrvTarget {
    fn clone(&self) -> (r: Self)
        ensures
            r == *self,
    {
        SrvTarget {
            host: self.host.clone(),
            port: self.port,
            priority: self.priority,
            weight: self.weight,
            addr: self.addr,
        }
    }
}

/// A copy of a list of targets.
pub fn clone_targets(targets: &Vec<SrvTarget>) -> (r: Vec<SrvTarget>)
    ensures
        r@ == targets@,
{
    let mut out: Vec<SrvTarget> = Vec::new();
    let mut i: usize = 0;
    while i < targets.len()
        invariant
            i <= targets@.len(),
            out@ == targets@.take(i as int),
        decreases targets@.len() - i,
    {
        out.push(targets[i].clone());
        assert(out@ =~= targets@.take(i + 1));
        i = i + 1;
    }
    assert(out@ =~= targets@);
    out
}

// ── Order ───────────────────────────────────────────────────────────────────

/// Something with an SRV priority and weight.
pub trait Ranked: Sized {
    spec fn priority_of(&self) -> u16;

    spec fn weight_of(&self) -> u16;

    fn priority(&self) -> (r: u16)
        ensures
            r == self.priority_of(),
    ;

    fn weight(&self) -> (r: u16)
        ensures
            r == self.weight_of(),
    ;
}

impl Ranked for SrvTarget {
    open spec fn priority_of(&self) -> u16 {
        self.priority
    }

    open spec fn weight_of(&self) -> u16 {
        self.weight
    }

    fn priority(&self) -> (r: u16) {
        self.priority
    }

    fn weight(&self) -> (r: u16) {
        self.weight
    }
}

impl Ranked for SrvRecord {
    open spec fn priority_of(&self) -> u16 {
        self.priority
    }

    open spec fn weight_of(&self) -> u16 {
        self.weight
    }

    fn priority(&self) -> (r: u16) {
        self.priority
    }

    fn weight(&self) -> (r: u16) {
        self.weight
    }
}

/// `a` may stand before `b`: lower priority first, and within one priority
/// the higher weight first.
pub open spec fn in_order<T: Ranked>(a: T, b: T) -> bool {
    ||| a.priority_of() < b.priority_of()
    ||| a.priority_of() == b.priority_of() && a.weight_of() >= b.weight_of()
}

/// Every element may stand before all later ones.
pub open spec fn ordered<T: Ranked>(s: Seq<T>) -> bool {
    forall|i: int, j: int| 0 <= i < j < s.len() ==> in_order(#[trigger] s[i], #[trigger] s[j])
}

/// The elements with the given priority and weight, in the order in which
/// they stand.
pub open spec fn rank_group<T: Ranked>(s: Seq<T>, priority: u16, weight: u16) -> Seq<T> {
    s.filter(|x: T| x.priority_of() == priority && x.weight_of() == weight)
}

/// `r` holds the elements of `s` in rank order; elements of equal rank keep
/// the order that they had in `s`.
pub open spec fn stably_ordered<T: Ranked>(s: Seq<T>, r: Seq<T>) -> bool {
    &&& ordered(r)
    &&& r.to_multiset() == s.to_multiset()
    &&& forall|p: u16, w: u16| #[trigger] rank_group(r, p, w) == rank_group(s, p, w)
}

proof fn lemma_filter_none<T>(s: Seq<T>, keep: spec_fn(T) -> bool)
    requires
        forall|i: int| 0 <= i < s.len() ==> !keep(#[trigger] s[i]),
    ensures
        s.filter(keep) == Seq::<T>::empty(),
    decreases s.len(),
{
    reveal(Seq::filter);
    if s.len() > 0 {
        assert(!keep(s[s.len() - 1]));
        assert forall|i: int| 0 <= i < s.drop_last().len() implies !keep(
            #[trigger] s.drop_last()[i],
        ) by {
            assert(s.drop_last()[i] == s[i]);
        }
        lemma_filter_none(s.drop_last(), keep);
    }
}

proof fn lemma_filter_insert<T>(a: Seq<T>, x: T, b: Seq<T>, keep: spec_fn(T) -> bool)
    ensures
        (a + seq![x] + b).filter(keep) == a.filter(keep) + (if keep(x) {
            seq![x]
        } else {
            Seq::empty()
        }) + b.filter(keep),
        (a + b).filter(keep) == a.filter(keep) + b.filter(keep),
        (a + b).push(x).filter(keep) == a.filter(keep) + b.filter(keep) + (if keep(x) {
            seq![x]
        } else {
            Seq::empty()
        }),
{
    Seq::filter_distributes_over_add(a, b, keep);
    Seq::filter_distributes_over_add(a + seq![x], b, keep);
    Seq::filter_distributes_over_add(a, seq![x], keep);
    assert((a + b).push(x) =~= (a + b) + seq![x]);
    Seq::filter_distributes_over_add(a + b, seq![x], keep);
    assert(seq![x].filter(keep) =~= if keep(x) {
        seq![x]
    } else {
        Seq::empty()
    }) by {
        reveal_with_fuel(Seq::filter, 2);
        assert(seq![x].drop_last() =~= Seq::<T>::empty());
    }
}

/// Putting `x` behind everything that may stand before it keeps the order,
/// and keeps the groups as if `x` had been appended.
proof fn lemma_insert_ranked<T: Ranked>(out: Seq<T>, pos: int, x: T)
    requires
        ordered(out),
        0 <= pos <= out.len(),
        forall|i: int| 0 <= i < pos ==> in_order(#[trigger] out[i], x),
        forall|i: int| pos <= i < out.len() ==> !in_order(#[trigger] out[i], x),
    ensures
        ordered(out.insert(pos, x)),
        forall|p: u16, w: u16| #[trigger]
            rank_group(out.insert(pos, x), p, w) == rank_group(out.push(x), p, w),
        out.insert(pos, x).to_multiset() == out.push(x).to_multiset(),
{
    let r = out.insert(pos, x);
    let a = out.take(pos);
    let b = out.skip(pos);
    assert(r =~= a + seq![x] + b);
    assert(out =~= a + b);
    assert forall|i: int, j: int| 0 <= i < j < r.len() implies in_order(
        #[trigger] r[i],
        #[trigger] r[j],
    ) by {
        let x0 = if i < pos { i } else { i - 1 };
        let y0 = if j < pos { j } else { j - 1 };
        if i == pos {
            assert(r[j] == out[y0]);
        } else if j == pos {
            assert(r[i] == out[x0]);
        } else {
            assert(r[i] == out[x0] && r[j] == out[y0]);
        }
    }
    assert forall|p: u16, w: u16| #[trigger] rank_group(r, p, w) == rank_group(
        out.push(x),
        p,
        w,
    ) by {
        let keep = |y: T| y.priority_of() == p && y.weight_of() == w;
        lemma_filter_insert(a, x, b, keep);
        if keep(x) {
            assert forall|i: int| 0 <= i < b.len() implies !keep(#[trigger] b[i]) by {
                assert(b[i] == out[pos + i]);
                assert(!in_order(out[pos + i], x));
            }
            lemma_filter_none(b, keep);
        }
        assert(rank_group(r, p, w) =~= rank_group(out.push(x), p, w));
    }
    vstd::seq_lib::lemma_multiset_commutative(a + seq![x], b);
    vstd::seq_lib::lemma_multiset_commutative(a, seq![x]);
    vstd::seq_lib::lemma_multiset_commutative(a, b);
    vstd::seq_lib::lemma_multiset_commutative(a + b, seq![x]);
    assert(out.push(x) =~= a + b + seq![x]);
    assert(r.to_multiset() =~= out.push(x).to_multiset());
}

/// Sorts by priority (ascending), then by weight (descending); elements of
/// equal rank keep their order.
pub fn sort_by_rank<T: Ranked>(items: Vec<T>) -> (r: Vec<T>)
    ensures
        stably_ordered(items@, r@),
        ordered(items@) ==> r@ == items@,
{
    let ghost all = items@;
    let mut rest = items;
    let mut out: Vec<T> = Vec::new();
    let ghost mut n: int = 0;
    proof {
        assert(all.skip(0) =~= all);
        assert(all.take(0) =~= Seq::<T>::empty());
    }
    while rest.len() > 0
        invariant
            0 <= n <= all.len(),
            rest@ == all.skip(n),
            stably_ordered(all.take(n), out@),
            ordered(all) ==> out@ == all.take(n),
        decreases rest@.len(),
    {
        let x = rest.remove(0);
        proof {
            assert(x == all[n]);
            assert(rest@ =~= all.skip(n + 1));
        }
        let mut pos: usize = 0;
        while pos < out.len() && (out[pos].priority() < x.priority() || (out[pos].priority()
            == x.priority() && out[pos].weight() >= x.weight()))
            invariant
                pos <= out@.len(),
                forall|i: int| 0 <= i < pos ==> in_order(#[trigger] out@[i], x),
            decreases out@.len() - pos,
        {
            pos = pos + 1;
        }
        let ghost before = out@;
        proof {
            assert forall|i: int| pos <= i < before.len() implies !in_order(
                #[trigger] before[i],
                x,
            ) by {
                if i > pos {
                    assert(in_order(before[pos as int], before[i]));
                }
            }
            lemma_insert_ranked(before, pos as int, x);
            if ordered(all) {
                if pos < before.len() {
                    assert(before[pos as int] == all[pos as int]);
                    assert(in_order(all[pos as int], all[n]));
                }
                assert(pos == before.len());
            }
        }
        out.insert(pos, x);
        proof {
            let prefix = all.take(n + 1);
            assert(prefix =~= all.take(n).push(x));
            assert(prefix.to_multiset() =~= out@.to_multiset()) by {
                broadcast use vstd::seq_lib::group_to_multiset_ensures;

            }
            assert forall|p: u16, w: u16| #[trigger] rank_group(out@, p, w) == rank_group(
                prefix,
                p,
                w,
            ) by {
                let keep = |y: T| y.priority_of() == p && y.weight_of() == w;
                let none: Seq<T> = Seq::empty();
                assert(rank_group(out@, p, w) == rank_group(before.push(x), p, w));
                assert(rank_group(before, p, w) == rank_group(all.take(n), p, w));
                lemma_filter_insert(before, x, none, keep);
                lemma_filter_insert(all.take(n), x, none, keep);
                assert(before + none =~= before);
                assert(all.take(n) + none =~= all.take(n));
            }
            if ordered(all) {
                assert(out@ =~= all.take(n + 1));
            }
            n = n + 1;
        }
    }
    assert(all.take(n) =~= all);
    out
}

// ── SRV answers ─────────────────────────────────────────────────────────────

/// The name under which the SRV records of a SIP domain are found.
pub open spec fn srv_name_of(domain: Seq<char>, transport: SipTransport) -> Seq<char> {
    match transport {
        SipTransport::Udp => "_sip._udp."@ + domain,
        SipTransport::Tcp => "_sip._tcp."@ + domain,
        SipTransport::Tls => "_sips._tcp."@ + domain,
    }
}

/// The SRV lookup name for a domain.
pub fn srv_name(domain: &str, transport: SipTransport) -> (r: String)
    ensures
        r@ == srv_name_of(domain@, transport),
{
    match transport {
        SipTransport::Udp => text::join2("_sip._udp.", domain),
        SipTransport::Tcp => text::join2("_sip._tcp.", domain),
        SipTransport::Tls => text::join2("_sips._tcp.", domain),
    }
}

impl SrvRecord {
    /// The host to look up: the target without trailing dots.
    pub fn host(&self) -> (r: String)
        ensures
            r@ == text::trim_end_matches(self.target@, '.'),
    {
        text::without_trailing(self.target.as_str(), '.').to_owned()
    }
}

/// `target` is what `record` stands for once its host resolved to `ip`.
pub open spec fn is_target_of(target: SrvTarget, record: SrvRecord, ip: IpAddress) -> bool {
    &&& target.host@ == text::trim_end_matches(record.target@, '.')
    &&& target.port == record.port
    &&& target.priority == record.priority
    &&& target.weight == record.weight
    &&& target.addr == (SocketAddress { ip, port: record.port })
}

/// `targets` are the records whose host resolved, in the order of `records`.
pub open spec fn targets_match(
    records: Seq<SrvRecord>,
    ips: Seq<Option<IpAddress>>,
    targets: Seq<SrvTarget>,
) -> bool
    decreases records.len(),
{
    if records.len() == 0 {
        targets.len() == 0
    } else {
        match ips.last() {
            Some(ip) => targets.len() > 0 && is_target_of(targets.last(), records.last(), ip)
                && targets_match(records.drop_last(), ips.drop_last(), targets.drop_last()),
            None => targets_match(records.drop_last(), ips.drop_last(), targets),
        }
    }
}

/// The order in which to resolve the hosts of SRV records.
pub fn order_records(records: Vec<SrvRecord>) -> (r: Vec<SrvRecord>)
    ensures
        stably_ordered(records@, r@),
{
    sort_by_rank(records)
}

/// Turns SRV records, and the first address found for each one's host, into
/// targets: records without an address are dropped, the rest is put in rank
/// order.
pub fn lookup_srv(records: &Vec<SrvRecord>, ips: &Vec<Option<IpAddress>>) -> (r: Vec<SrvTarget>)
    requires
        records@.len() == ips@.len(),
    ensures
        exists|found: Seq<SrvTarget>| #[trigger]
            targets_match(records@, ips@, found) && stably_ordered(found, r@),
        ordered(records@) ==> targets_match(records@, ips@, r@),
{
    let mut targets: Vec<SrvTarget> = Vec::new();
    let mut i: usize = 0;
    let ghost mut origin: Seq<int> = Seq::empty();
    while i < records.len()
        invariant
            i <= records@.len(),
            records@.len() == ips@.len(),
            targets_match(records@.take(i as int), ips@.take(i as int), targets@),
            origin.len() == targets@.len(),
            forall|a: int, b: int| 0 <= a < b < origin.len() ==> origin[a] < origin[b],
            forall|a: int|
                0 <= a < origin.len() ==> 0 <= #[trigger] origin[a] < i && targets@[a].priority
                    == records@[origin[a]].priority && targets@[a].weight
                    == records@[origin[a]].weight,
        decreases records@.len() - i,
    {
        proof {
            assert(records@.take(i + 1).drop_last() =~= records@.take(i as int));
            assert(ips@.take(i + 1).drop_last() =~= ips@.take(i as int));
        }
        if let Some(ip) = ips[i] {
            let record = &records[i];
            let ghost before = targets@;
            targets.push(
                SrvTarget {
                    host: record.host(),
                    port: record.port,
                    priority: record.priority,
                    weight: record.weight,
                    addr: SocketAddress { ip, port: record.port },
                },
            );
            proof {
                assert(targets@.drop_last() =~= before);
                origin = origin.push(i as int);
            }
        }
        i = i + 1;
    }
    proof {
        assert(records@.take(i as int) =~= records@);
        assert(ips@.take(i as int) =~= ips@);
        if ordered(records@) {
            assert forall|a: int, b: int| 0 <= a < b < targets@.len() implies in_order(
                #[trigger] targets@[a],
                #[trigger] targets@[b],
            ) by {
                assert(origin[a] < origin[b]);
                assert(in_order(records@[origin[a]], records@[origin[b]]));
            }
        }
    }
    sort_by_rank(targets)
}

// ── Cache ───────────────────────────────────────────────────────────────────

/// Lifetime of a cached SRV answer, in seconds.
pub const SRV_TTL_SECS: u64 = 300;

/// Lifetime of a cached A/AAAA fallback, in seconds.
pub const FALLBACK_TTL_SECS: u64 = 120;

/// A cached answer.
enum Answer {
    /// What the SRV records gave.
    Targets(Vec<SrvTarget>),
    /// What the A/AAAA fallback gave. The port comes from whoever asks.
    Addresses(Vec<IpAddress>),
}

/// A cached answer as plain values.
pub enum AnswerView {
    Targets(Seq<SrvTarget>),
    Addresses(Seq<IpAddress>),
}

impl View for Answer {
    type V = AnswerView;

    closed spec fn view(&self) -> AnswerView {
        match *self {
            Answer::Targets(targets) => AnswerView::Targets(targets@),
            Answer::Addresses(ips) => AnswerView::Addresses(ips@),
        }
    }
}

/// Cached result with expiry.
struct CacheEntry {
    answer: Answer,
    expires: Deadline,
}

/// The cache as a map from lookup name to answer and expiry time.
pub type CacheView = Map<Seq<char>, (AnswerView, int)>;

/// What the cache holds for `name` at time `now`: an entry counts until its
/// expiry time is reached.
pub open spec fn cached(cache: CacheView, name: Seq<char>, now: Moment) -> Option<AnswerView> {
    if cache.contains_key(name) && cache[name].1 > now.nanos {
        Some(cache[name].0)
    } else {
        None
    }
}

/// The cache after storing `answer` under `name` for `ttl` seconds.
pub open spec fn stored(
    cache: CacheView,
    name: Seq<char>,
    answer: AnswerView,
    ttl: u64,
    now: Moment,
) -> CacheView {
    cache.insert(name, (answer, types::seconds_after(now, ttl as nat)))
}

/// SRV resolver with TTL-based caching.
pub struct SrvResolver {
    cache: TextMap<CacheEntry>,
}

impl View for SrvResolver {
    type V = CacheView;

    closed spec fn view(&self) -> CacheView {
        self.cache@.map_values(|e: CacheEntry| (e.answer@, e.expires.nanos as int))
    }
}

/// How to go about resolving a SIP server.
pub enum Lookup {
    /// The answer is known.
    Cached(Vec<SrvTarget>),
    /// Query the SRV records of this name.
    Query(String),
}

/// Outcome of an A/AAAA lookup.
pub enum HostLookup {
    TimedOut,
    /// The lookup failed, with the resolver's message.
    Failed(String),
    Addresses(Vec<IpAddress>),
}

/// `targets` are `ips` at `domain` and `port`, with no rank.
pub open spec fn fallback_targets(
    domain: Seq<char>,
    port: u16,
    ips: Seq<IpAddress>,
    targets: Seq<SrvTarget>,
) -> bool {
    &&& targets.len() == ips.len()
    &&& forall|i: int|
        0 <= i < targets.len() ==> {
            let t = #[trigger] targets[i];
            &&& t.host@ == domain
            &&& t.port == port
            &&& t.priority == 0
            &&& t.weight == 0
            &&& t.addr == (SocketAddress { ip: ips[i], port })
        }
}

/// `targets` are what a cached answer means to someone who asks for `domain`
/// with `fallback_port`.
pub open spec fn answers(
    answer: AnswerView,
    domain: Seq<char>,
    fallback_port: u16,
    targets: Seq<SrvTarget>,
) -> bool {
    match answer {
        AnswerView::Targets(known) => targets == known,
        AnswerView::Addresses(ips) => fallback_targets(domain, fallback_port, ips, targets),
    }
}

/// `ips` as targets at `domain` and `port`.
fn targets_at(domain: &str, port: u16, ips: &Vec<IpAddress>) -> (r: Vec<SrvTarget>)
    ensures
        fallback_targets(domain@, port, ips@, r@),
{
    let mut targets: Vec<SrvTarget> = Vec::new();
    let mut i: usize = 0;
    while i < ips.len()
        invariant
            i <= ips@.len(),
            fallback_targets(domain@, port, ips@.take(i as int), targets@),
        decreases ips@.len() - i,
    {
        targets.push(
            SrvTarget {
                host: domain.to_owned(),
                port,
                priority: 0,
                weight: 0,
                addr: SocketAddress { ip: ips[i], port },
            },
        );
        i = i + 1;
    }
    assert(ips@.take(i as int) =~= ips@);
    targets
}

impl SrvResolver {
    /// A resolver with an empty cache.
    pub fn new() -> (r: Self)
        ensures
            r@ == CacheView::empty(),
    {
        let r = SrvResolver { cache: TextMap::new() };
        assert(r@ =~= CacheView::empty());
        r
    }

    /// First step of resolving a SIP server domain: answer from the cache, or
    /// name the SRV records to query. Addresses of the domain itself, found
    /// for want of SRV records, are answered at `fallback_port`.
    pub fn resolve_sip_server(
        &self,
        domain: &str,
        transport: SipTransport,
        fallback_port: u16,
        now: Moment,
    ) -> (r: Lookup)
        ensures
            match (cached(self@, srv_name_of(domain@, transport), now), r) {
                (Some(answer), Lookup::Cached(targets)) => answers(
                    answer,
                    domain@,
                    fallback_port,
                    targets@,
                ),
                (None, Lookup::Query(name)) => name@ == srv_name_of(domain@, transport),
                _ => false,
            },
    {
        let name = srv_name(domain, transport);
        if let Some(entry) = self.cache.get(name.as_str()) {
            if entry.expires.nanos > now.nanos as u128 {
                return Lookup::Cached(
                    match &entry.answer {
                        Answer::Targets(targets) => clone_targets(targets),
                        Answer::Addresses(ips) => targets_at(domain, fallback_port, ips),
                    },
                );
            }
        }
        Lookup::Query(name)
    }

    /// Second step: takes the outcome of the SRV query, `None` if it failed or
    /// timed out. A non-empty answer is cached and returned; otherwise the
    /// A/AAAA records are to be tried.
    pub fn srv_answered(&mut self, name: &str, answer: Option<Vec<SrvTarget>>, now: Moment) -> (r:
        Option<Vec<SrvTarget>>)
        ensures
            match r {
                Some(targets) => answer matches Some(given) && given@.len() > 0 && targets@
                    == given@ && final(self)@ == stored(
                    old(self)@,
                    name@,
                    AnswerView::Targets(targets@),
                    SRV_TTL_SECS,
                    now,
                ),
                None => (answer matches Some(given) ==> given@.len() == 0) && final(self)@ == old(
                    self,
                )@,
            },
    {
        match answer {
            Some(targets) => {
                if targets.len() > 0 {
                    self.cache_targets(name, &targets, SRV_TTL_SECS, now);
                    Some(targets)
                } else {
                    None
                }
            },
            None => None,
        }
    }

    /// Fallback: takes the outcome of the A/AAAA lookup of the domain itself.
    /// The addresses are cached and returned at the given port.
    pub fn fallback_a_record(
        &mut self,
        domain: &str,
        port: u16,
        cache_key: &str,
        outcome: HostLookup,
        now: Moment,
    ) -> (r: Result<Vec<SrvTarget>, String>)
        ensures
            ({
                let addr = domain@ + ":"@ + text::decimal(port as nat);
                match outcome {
                    HostLookup::TimedOut => r matches Err(e) && e@ == "DNS lookup timed out for "@
                        + addr && final(self)@ == old(self)@,
                    HostLookup::Failed(why) => r matches Err(e) && e@ == "DNS resolve failed for "@
                        + addr + ": "@ + why@ && final(self)@ == old(self)@,
                    HostLookup::Addresses(ips) => if ips@.len() == 0 {
                        r matches Err(e) && e@ == "No address found for "@ + addr && final(self)@
                            == old(self)@
                    } else {
                        r matches Ok(targets) && fallback_targets(
                            domain@,
                            port,
                            ips@,
                            targets@,
                        ) && final(self)@ == stored(
                            old(self)@,
                            cache_key@,
                            AnswerView::Addresses(ips@),
                            FALLBACK_TTL_SECS,
                            now,
                        )
                    },
                }
            }),
    {
        let mut addr = text::join2(domain, ":");
        text::push_decimal(&mut addr, port as u64);
        match outcome {
            HostLookup::TimedOut => Err(text::join2("DNS lookup timed out for ", addr.as_str())),
            HostLookup::Failed(why) => {
                let mut e = text::join3("DNS resolve failed for ", addr.as_str(), ": ");
                e.append(why.as_str());
                Err(e)
            },
            HostLookup::Addresses(ips) => {
                if ips.len() == 0 {
                    return Err(text::join2("No address found for ", addr.as_str()));
                }
                let targets = targets_at(domain, port, &ips);
                self.store(cache_key, Answer::Addresses(ips), FALLBACK_TTL_SECS, now);
                Ok(targets)
            },
        }
    }

    /// Stores an answer for `ttl` seconds.
    fn store(&mut self, key: &str, answer: Answer, ttl: u64, now: Moment)
        ensures
            final(self)@ == stored(old(self)@, key@, answer@, ttl, now),
    {
        self.cache.insert(
            key.to_owned(),
            CacheEntry { answer, expires: now.after_secs(ttl) },
        );
        assert(self@ =~= stored(old(self)@, key@, answer@, ttl, now));
    }

    /// Store targets in the cache for `ttl` seconds.
    pub fn cache_targets(&mut self, key: &str, targets: &Vec<SrvTarget>, ttl: u64, now: Moment)
        ensures
            final(self)@ == stored(
                old(self)@,
                key@,
                AnswerView::Targets(targets@),
                ttl,
                now,
            ),
    {
        self.store(key, Answer::Targets(clone_targets(targets)), ttl, now);
    }

    /// Clear the DNS cache (useful after network changes).
    pub fn clear_cache(&mut self)
        ensures
            final(self)@ == CacheView::empty(),
    {
        self.cache.clear();
        assert(self@ =~= CacheView::empty());
    }
}

// ── Laws ────────────────────────────────────────────────────────────────────

/// A stored answer is found again under its name until its time to live has
/// passed, and not from then on.
pub proof fn cache_answers_until_expiry(
    cache: CacheView,
    name: Seq<char>,
    answer: AnswerView,
    ttl: u64,
    stored_at: Moment,
    now: Moment,
)
    ensures
        cached(stored(cache, name, answer, ttl, stored_at), name, now) == if now.nanos
            < types::seconds_after(stored_at, ttl as nat) {
            Some(answer)
        } else {
            None
        },
{
}

/// Addresses that were found for want of SRV records are answered at the port
/// that is asked for, whatever port they were looked up for.
pub proof fn fallback_uses_the_port_asked_for(
    cache: CacheView,
    domain: Seq<char>,
    transport: SipTransport,
    ips: Seq<IpAddress>,
    looked_up: Moment,
    now: Moment,
    fallback_port: u16,
    targets: Seq<SrvTarget>,
    i: int,
)
    requires
        now.nanos < types::seconds_after(looked_up, FALLBACK_TTL_SECS as nat),
        answers(
            cached(
                stored(
                    cache,
                    srv_name_of(domain, transport),
                    AnswerView::Addresses(ips),
                    FALLBACK_TTL_SECS,
                    looked_up,
                ),
                srv_name_of(domain, transport),
                now,
            )->0,
            domain,
            fallback_port,
            targets,
        ),
        0 <= i < targets.len(),
    ensures
        targets.len() == ips.len(),
        targets[i].port == fallback_port,
        targets[i].addr == (SocketAddress { ip: ips[i], port: fallback_port }),
{
}

/// Storing an answer leaves every other name as it was.
pub proof fn cache_keeps_other_names(
    cache: CacheView,
    name: Seq<char>,
    answer: AnswerView,
    ttl: u64,
    stored_at: Moment,
    other: Seq<char>,
    now: Moment,
)
    requires
        other != name,
    ensures
        cached(stored(cache, name, answer, ttl, stored_at), other, now) == cached(
            cache,
            other,
            now,
        ),
{
}

/// A cleared cache answers nothing.
pub proof fn cleared_cache_is_silent(name: Seq<char>, now: Moment)
    ensures
        cached(CacheView::empty(), name, now) is None,
{
}

/// Different transports of a domain are looked up under different names, and
/// so are different domains under one transport.
pub proof fn srv_names_are_distinct(
    a: Seq<char>,
    b: Seq<char>,
    s: SipTransport,
    t: SipTransport,
)
    requires
        srv_name_of(a, s) == srv_name_of(b, t),
        s == t || a == b,
    ensures
        a == b,
        s == t,
{
    reveal_strlit("_sip._udp.");
    reveal_strlit("_sip._tcp.");
    reveal_strlit("_sips._tcp.");
    let x = srv_name_of(a, s);
    let y = srv_name_of(b, t);
    assert(x.len() == y.len());
    if s == t {
        let n: int = if s == SipTransport::Tls { 11 } else { 10 };
        assert(a =~= x.skip(n));
        assert(b =~= y.skip(n));
    } else {
        assert(x[6] == y[6]);
        assert(x[4] == y[4]);
    }
}

/// In an ordered list the first target has the lowest priority of all, and
/// the highest weight among those of its priority.
pub proof fn first_target_is_best<T: Ranked>(list: Seq<T>, i: int)
    requires
        ordered(list),
        0 <= i < list.len(),
    ensures
        list[0].priority_of() <= list[i].priority_of(),
        list[0].priority_of() == list[i].priority_of() ==> list[0].weight_of()
            >= list[i].weight_of(),
{
    if i > 0 {
        assert(in_order(list[0], list[i]));
    }
}

/// The names of SRV records, by transport: `_sip._udp.`, `_sip._tcp.` and
/// `_sips._tcp.`, each before the whole domain.
pub proof fn srv_names_follow_the_transport(domain: Seq<char>)
    ensures
        srv_name_of(domain, SipTransport::Udp) == "_sip._udp."@ + domain,
        srv_name_of(domain, SipTransport::Tcp) == "_sip._tcp."@ + domain,
        srv_name_of(domain, SipTransport::Tls) == "_sips._tcp."@ + domain,
{
}

/// Sorted records stand by ascending priority, and by descending weight within
/// one priority. All of them are there, and none other.
pub proof fn records_are_sorted_by_priority_then_weight(
    given: Seq<SrvRecord>,
    sorted: Seq<SrvRecord>,
    i: int,
    j: int,
)
    requires
        stably_ordered(given, sorted),
        0 <= i < j < sorted.len(),
    ensures
        sorted.len() == given.len(),
        sorted[i].priority <= sorted[j].priority,
        sorted[i].priority == sorted[j].priority ==> sorted[i].weight >= sorted[j].weight,
        given.contains(sorted[i]),
{
    lemma_same_elements(given, sorted, i);
    assert(in_order(sorted[i], sorted[j]));
}

/// Sorted targets stand by ascending priority, and by descending weight within
/// one priority. All of them are there, and none other.
pub proof fn targets_are_sorted_by_priority_then_weight(
    given: Seq<SrvTarget>,
    sorted: Seq<SrvTarget>,
    i: int,
    j: int,
)
    requires
        stably_ordered(given, sorted),
        0 <= i < j < sorted.len(),
    ensures
        sorted.len() == given.len(),
        sorted[i].priority <= sorted[j].priority,
        sorted[i].priority == sorted[j].priority ==> sorted[i].weight >= sorted[j].weight,
        given.contains(sorted[i]),
{
    lemma_same_elements(given, sorted, i);
    assert(in_order(sorted[i], sorted[j]));
}

proof fn lemma_same_elements<T>(given: Seq<T>, sorted: Seq<T>, i: int)
    requires
        given.to_multiset() == sorted.to_multiset(),
        0 <= i < sorted.len(),
    ensures
        sorted.len() == given.len(),
        given.contains(sorted[i]),
{
    broadcast use vstd::seq_lib::group_to_multiset_ensures;

    assert(sorted.to_multiset().len() == sorted.len());
    assert(given.to_multiset().len() == given.len());
    assert(sorted.contains(sorted[i]));
    assert(sorted.to_multiset().count(sorted[i]) > 0);
}

/// Nothing is lost by sorting.
pub proof fn sorting_keeps_every_target(given: Seq<SrvTarget>, sorted: Seq<SrvTarget>, i: int)
    requires
        stably_ordered(given, sorted),
        0 <= i < given.len(),
    ensures
        sorted.contains(given[i]),
        sorted.len() == given.len(),
{
    lemma_same_elements(sorted, given, i);
}

/// How many of `ips` are there.
pub open spec fn found_count(ips: Seq<Option<IpAddress>>) -> nat
    decreases ips.len(),
{
    if ips.len() == 0 {
        0
    } else {
        found_count(ips.drop_last()) + if ips.last() is Some {
            1nat
        } else {
            0
        }
    }
}

/// There are as many targets as hosts that were found.
pub proof fn only_found_hosts_count(
    records: Seq<SrvRecord>,
    ips: Seq<Option<IpAddress>>,
    targets: Seq<SrvTarget>,
)
    requires
        records.len() == ips.len(),
        targets_match(records, ips, targets),
    ensures
        targets.len() == found_count(ips),
    decreases records.len(),
{
    if records.len() > 0 {
        only_found_hosts_count(
            records.drop_last(),
            ips.drop_last(),
            if ips.last() is Some {
                targets.drop_last()
            } else {
                targets
            },
        );
    }
}

/// A record whose host was found gives a target, which has the record's port,
/// priority and weight, the host without dots at its end, and the address that
/// was found at the record's port.
pub proof fn found_hosts_become_targets(
    records: Seq<SrvRecord>,
    ips: Seq<Option<IpAddress>>,
    targets: Seq<SrvTarget>,
    i: int,
)
    requires
        records.len() == ips.len(),
        targets_match(records, ips, targets),
        0 <= i < records.len(),
        ips[i] is Some,
    ensures
        exists|k: int|
            0 <= k < targets.len() && #[trigger] stands_for(targets[k], records[i], ips[i]->0),
    decreases records.len(),
{
    let n = records.len() - 1;
    let t = if ips.last() is Some {
        targets.drop_last()
    } else {
        targets
    };
    if i < n {
        let r = records.drop_last();
        let p = ips.drop_last();
        found_hosts_become_targets(r, p, t, i);
        assert(r[i] == records[i] && p[i] == ips[i]);
        let k = choose|k: int|
            0 <= k < t.len() && #[trigger] stands_for(t[k], r[i], p[i]->0);
        assert(targets[k] == t[k]);
        assert(stands_for(targets[k], records[i], ips[i]->0));
    } else {
        assert(stands_for(targets[targets.len() - 1], records[i], ips[i]->0));
    }
}

/// Every target stands for a record whose host was found.
pub proof fn targets_stand_for_found_hosts(
    records: Seq<SrvRecord>,
    ips: Seq<Option<IpAddress>>,
    targets: Seq<SrvTarget>,
    k: int,
)
    requires
        records.len() == ips.len(),
        targets_match(records, ips, targets),
        0 <= k < targets.len(),
    ensures
        exists|i: int|
            0 <= i < records.len() && ips[i] is Some && #[trigger] stands_for(
                targets[k],
                records[i],
                ips[i]->0,
            ),
    decreases records.len(),
{
    let n = records.len() - 1;
    let t = if ips.last() is Some {
        targets.drop_last()
    } else {
        targets
    };
    if k < t.len() {
        let r = records.drop_last();
        let p = ips.drop_last();
        targets_stand_for_found_hosts(r, p, t, k);
        let i = choose|i: int|
            0 <= i < r.len() && p[i] is Some && #[trigger] stands_for(t[k], r[i], p[i]->0);
        assert(r[i] == records[i] && p[i] == ips[i] && targets[k] == t[k]);
        assert(stands_for(targets[k], records[i], ips[i]->0));
    } else {
        assert(stands_for(targets[k], records[n], ips[n]->0));
    }
}

/// `target` has the port, priority and weight of `record`, its host without
/// dots at the end, and `ip` at that port for an address.
pub open spec fn stands_for(target: SrvTarget, record: SrvRecord, ip: IpAddress) -> bool {
    &&& target.port == record.port
    &&& target.priority == record.priority
    &&& target.weight == record.weight
    &&& target.addr.ip == ip
    &&& target.addr.port == record.port
    &&& target.host@ == text::trim_end_matches(record.target@, '.')
}

/// Answers of SRV records are served for five minutes and addresses found for
/// want of them for two, to the nanosecond, and not a moment longer.
pub proof fn answers_live_for_minutes(
    cache: CacheView,
    name: Seq<char>,
    answer: AnswerView,
    stored_at: Moment,
    now: Moment,
)
    ensures
        cached(stored(cache, name, answer, SRV_TTL_SECS, stored_at), name, now) == if now.nanos
            < stored_at.nanos + 300_000_000_000 {
            Some(answer)
        } else {
            None
        },
        cached(stored(cache, name, answer, FALLBACK_TTL_SECS, stored_at), name, now) == if now.nanos
            < stored_at.nanos + 120_000_000_000 {
            Some(answer)
        } else {
            None
        },
{
}

/// A cached answer of SRV records is handed out unchanged, whatever port is
/// asked for; cached addresses become targets at the domain and port asked for,
/// without priority and weight.
pub proof fn cached_answers_are_handed_out(
    known: Seq<SrvTarget>,
    ips: Seq<IpAddress>,
    domain: Seq<char>,
    port: u16,
    targets: Seq<SrvTarget>,
    i: int,
)
    ensures
        answers(AnswerView::Targets(known), domain, port, targets) <==> targets == known,
        answers(AnswerView::Addresses(ips), domain, port, targets) ==> {
            &&& targets.len() == ips.len()
            &&& 0 <= i < ips.len() ==> {
                &&& targets[i].host@ == domain
                &&& targets[i].port == port
                &&& targets[i].priority == 0
                &&& targets[i].weight == 0
                &&& targets[i].addr.ip == ips[i]
                &&& targets[i].addr.port == port
            }
        },
{
}

// ── Equal ranks ─────────────────────────────────────────────────────────────

/// Element `x` has the given priority and weight.
spec fn has_rank<T: Ranked>(x: T, p: u16, w: u16) -> bool {
    x.priority_of() == p && x.weight_of() == w
}

proof fn lemma_group_step<T: Ranked>(s: Seq<T>, p: u16, w: u16)
    requires
        s.len() > 0,
    ensures
        rank_group(s, p, w) == if has_rank(s.last(), p, w) {
            rank_group(s.drop_last(), p, w).push(s.last())
        } else {
            rank_group(s.drop_last(), p, w)
        },
{
    reveal(Seq::filter);
}

/// An element is in the group of its rank.
proof fn lemma_group_has<T: Ranked>(s: Seq<T>, p: u16, w: u16, i: int)
    requires
        0 <= i < s.len(),
        has_rank(s[i], p, w),
    ensures
        exists|a: int| 0 <= a < rank_group(s, p, w).len() && #[trigger] rank_group(s, p, w)[a] == s[i],
    decreases s.len(),
{
    lemma_group_step(s, p, w);
    let f = rank_group(s, p, w);
    if i < s.len() - 1 {
        let init = s.drop_last();
        let g = rank_group(init, p, w);
        lemma_group_has(init, p, w, i);
        let a = choose|a: int| 0 <= a < g.len() && #[trigger] g[a] == init[i];
        assert(f[a] == g[a]);
    } else {
        assert(f[f.len() - 1] == s[i]);
    }
}

/// Two elements of one rank stand in their group in the order in which they
/// stood.
proof fn lemma_group_keeps_order<T: Ranked>(s: Seq<T>, p: u16, w: u16, i: int, j: int)
    requires
        0 <= i < j < s.len(),
        has_rank(s[i], p, w),
        has_rank(s[j], p, w),
    ensures
        exists|a: int, b: int|
            0 <= a < b < rank_group(s, p, w).len() && #[trigger] rank_group(s, p, w)[a] == s[i]
                && #[trigger] rank_group(s, p, w)[b] == s[j],
    decreases s.len(),
{
    lemma_group_step(s, p, w);
    let init = s.drop_last();
    let f = rank_group(s, p, w);
    let g = rank_group(init, p, w);
    if j < s.len() - 1 {
        lemma_group_keeps_order(init, p, w, i, j);
        let (a, b) = choose|a: int, b: int|
            0 <= a < b < g.len() && #[trigger] g[a] == init[i] && #[trigger] g[b] == init[j];
        assert(f[a] == g[a] && f[b] == g[b]);
    } else {
        lemma_group_has(init, p, w, i);
        let a = choose|a: int| 0 <= a < g.len() && #[trigger] g[a] == init[i];
        assert(f[a] == g[a] && f[g.len() as int] == s[j]);
    }
}

/// A member of a group stands in the whole.
proof fn lemma_group_from<T: Ranked>(s: Seq<T>, p: u16, w: u16, a: int)
    requires
        0 <= a < rank_group(s, p, w).len(),
    ensures
        exists|i: int| 0 <= i < s.len() && #[trigger] s[i] == rank_group(s, p, w)[a],
    decreases s.len(),
{
    let f = rank_group(s, p, w);
    if s.len() == 0 {
        reveal(Seq::filter);
    } else {
        lemma_group_step(s, p, w);
        let init = s.drop_last();
        let g = rank_group(init, p, w);
        if a < g.len() {
            lemma_group_from(init, p, w, a);
            let i = choose|i: int| 0 <= i < init.len() && #[trigger] init[i] == g[a];
            assert(s[i] == f[a]);
        } else {
            assert(s[s.len() - 1] == f[a]);
        }
    }
}

/// Members of a group stand in the whole in the order in which they stand in
/// the group.
proof fn lemma_group_in_order<T: Ranked>(s: Seq<T>, p: u16, w: u16, a: int, b: int)
    requires
        0 <= a < b < rank_group(s, p, w).len(),
    ensures
        exists|i: int, j: int|
            0 <= i < j < s.len() && #[trigger] s[i] == rank_group(s, p, w)[a] && #[trigger] s[j]
                == rank_group(s, p, w)[b],
    decreases s.len(),
{
    let f = rank_group(s, p, w);
    if s.len() == 0 {
        reveal(Seq::filter);
    } else {
        lemma_group_step(s, p, w);
        let init = s.drop_last();
        let g = rank_group(init, p, w);
        if b < g.len() {
            lemma_group_in_order(init, p, w, a, b);
            let (i, j) = choose|i: int, j: int|
                0 <= i < j < init.len() && #[trigger] init[i] == g[a] && #[trigger] init[j]
                    == g[b];
            assert(s[i] == f[a] && s[j] == f[b]);
        } else {
            lemma_group_from(init, p, w, a);
            let i = choose|i: int| 0 <= i < init.len() && #[trigger] init[i] == g[a];
            assert(s[i] == f[a] && s[s.len() - 1] == f[b]);
        }
    }
}

/// Of two elements with the same priority and the same weight, the one that
/// stood first stands first after sorting.
pub proof fn equal_ranks_keep_their_order<T: Ranked>(given: Seq<T>, sorted: Seq<T>, i: int, j: int)
    requires
        stably_ordered(given, sorted),
        0 <= i < j < given.len(),
        given[i].priority_of() == given[j].priority_of(),
        given[i].weight_of() == given[j].weight_of(),
    ensures
        exists|a: int, b: int|
            0 <= a < b < sorted.len() && #[trigger] sorted[a] == given[i] && #[trigger] sorted[b]
                == given[j],
{
    let p = given[i].priority_of();
    let w = given[i].weight_of();
    let f = rank_group(given, p, w);
    lemma_group_keeps_order(given, p, w, i, j);
    let (m, n) = choose|m: int, n: int|
        0 <= m < n < f.len() && #[trigger] f[m] == given[i] && #[trigger] f[n] == given[j];
    assert(rank_group(sorted, p, w) == f);
    lemma_group_in_order(sorted, p, w, m, n);
}

/// Targets stand in the order of the records that they stand for.
pub proof fn found_hosts_keep_their_order(
    records: Seq<SrvRecord>,
    ips: Seq<Option<IpAddress>>,
    targets: Seq<SrvTarget>,
    i: int,
    j: int,
)
    requires
        records.len() == ips.len(),
        targets_match(records, ips, targets),
        0 <= i < j < records.len(),
        ips[i] is Some,
        ips[j] is Some,
    ensures
        exists|a: int, b: int|
            0 <= a < b < targets.len() && #[trigger] stands_for(targets[a], records[i], ips[i]->0)
                && #[trigger] stands_for(targets[b], records[j], ips[j]->0),
    decreases records.len(),
{
    let n = records.len() - 1;
    let r = records.drop_last();
    let p = ips.drop_last();
    let t = if ips.last() is Some {
        targets.drop_last()
    } else {
        targets
    };
    assert(r[i] == records[i] && p[i] == ips[i]);
    if j < n {
        assert(r[j] == records[j] && p[j] == ips[j]);
        found_hosts_keep_their_order(r, p, t, i, j);
        let (a, b) = choose|a: int, b: int|
            0 <= a < b < t.len() && #[trigger] stands_for(t[a], r[i], p[i]->0) && #[trigger]
                stands_for(t[b], r[j], p[j]->0);
        assert(targets[a] == t[a] && targets[b] == t[b]);
        assert(stands_for(targets[a], records[i], ips[i]->0));
        assert(stands_for(targets[b], records[j], ips[j]->0));
    } else {
        found_hosts_become_targets(r, p, t, i);
        let a = choose|a: int| 0 <= a < t.len() && #[trigger] stands_for(t[a], r[i], p[i]->0);
        assert(targets[a] == t[a]);
        assert(stands_for(targets[a], records[i], ips[i]->0));
        assert(stands_for(targets[targets.len() - 1], records[j], ips[j]->0));
    }
}

/// Addresses of a domain become targets at that domain and port, one each and
/// in order, without priority and weight.
pub proof fn addresses_become_targets(
    domain: Seq<char>,
    port: u16,
    ips: Seq<IpAddress>,
    targets: Seq<SrvTarget>,
    i: int,
)
    requires
        fallback_targets(domain, port, ips, targets),
    ensures
        targets.len() == ips.len(),
        0 <= i < ips.len() ==> {
            &&& targets[i].host@ == domain
            &&& targets[i].port == port
            &&& targets[i].priority == 0
            &&& targets[i].weight == 0
            &&& targets[i].addr.ip == ips[i]
            &&& targets[i].addr.port == port
        },
{
}

} // verus!
