//! Hosts in URLs, and addresses in text.

use vstd::prelude::*;
use vstd::string::*;

use crate::text;

verus! {

// ── The host of a URL ───────────────────────────────────────────────────────

/// Characters that end the authority of an `http` URL.
pub open spec fn ends_authority(c: char) -> bool {
    c == '/' || c == '\\' || c == '?' || c == '#'
}

/// Length of the authority that `s` starts with.
pub open spec fn authority_len(s: Seq<char>) -> nat
    decreases s.len(),
{
    if s.len() > 0 && !ends_authority(s[0]) {
        1 + authority_len(s.skip(1))
    } else {
        0
    }
}

/// Length of the user information that `s` starts with, up to and with its
/// last `@`.
pub open spec fn userinfo_len(s: Seq<char>) -> nat
    decreases s.len(),
{
    if s.len() == 0 {
        0
    } else if s.last() == '@' {
        s.len()
    } else {
        userinfo_len(s.drop_last())
    }
}

/// The host in a host with an optional port: a pair of square brackets with
/// what stands in it, if nothing but a port follows, else what stands before
/// the first colon. `::1` is taken for an address also without brackets.
pub open spec fn host_name(s: Seq<char>) -> Seq<char> {
    let close = text::len_before(s, ']') as int;
    if s.len() > 0 && s[0] == '[' && close < s.len() && (close + 1 == s.len() || s[close + 1]
        == ':') {
        s.take(close + 1)
    } else if s == "::1"@ {
        s
    } else {
        s.take(text::len_before(s, ':') as int)
    }
}

/// The host of a URL, given what follows its `scheme://`: the authority
/// without user information and port.
pub open spec fn host_part(rest: Seq<char>) -> Seq<char> {
    let authority = rest.take(authority_len(rest) as int);
    host_name(authority.skip(userinfo_len(authority) as int))
}

/// Hosts for which cleartext is tolerated: loopback and `.local`.
pub open spec fn is_local_host(host: Seq<char>) -> bool {
    ||| host == "localhost"@
    ||| host == "127.0.0.1"@
    ||| host == "::1"@
    ||| host == "[::1]"@
    ||| ".local"@.is_suffix_of(host)
}

/// End of the authority that starts at `c[from]`.
fn authority_end(c: &Vec<char>, from: usize) -> (end: usize)
    requires
        from <= c@.len(),
    ensures
        from <= end <= c@.len(),
        end - from == authority_len(c@.skip(from as int)),
{
    let mut i: usize = from;
    while i < c.len() && c[i] != '/' && c[i] != '\\' && c[i] != '?' && c[i] != '#'
        invariant
            from <= i <= c@.len(),
            authority_len(c@.skip(from as int)) == (i - from) + authority_len(c@.skip(i as int)),
        decreases c@.len() - i,
    {
        assert(c@.skip(i as int).skip(1) =~= c@.skip(i + 1));
        i = i + 1;
    }
    i
}

/// End of the user information in `c[from..to]`.
fn userinfo_end(c: &Vec<char>, from: usize, to: usize) -> (end: usize)
    requires
        from <= to <= c@.len(),
    ensures
        from <= end <= to,
        end - from == userinfo_len(c@.subrange(from as int, to as int)),
{
    let mut i: usize = to;
    while i > from && c[i - 1] != '@'
        invariant
            from <= i <= to <= c@.len(),
            userinfo_len(c@.subrange(from as int, to as int)) == userinfo_len(
                c@.subrange(from as int, i as int),
            ),
        decreases i,
    {
        assert(c@.subrange(from as int, i as int).drop_last() =~= c@.subrange(
            from as int,
            i - 1,
        ));
        i = i - 1;
    }
    i
}

/// The host of the URL whose authority starts at `c[from]`, as a range.
fn host_range(c: &Vec<char>, from: usize) -> (r: (usize, usize))
    requires
        from <= c@.len(),
    ensures
        r.0 <= r.1 <= c@.len(),
        c@.subrange(r.0 as int, r.1 as int) == host_part(c@.skip(from as int)),
{
    let to = authority_end(c, from);
    let start = userinfo_end(c, from, to);
    let ghost rest = c@.skip(from as int);
    let ghost authority = rest.take(authority_len(rest) as int);
    let ghost s = c@.subrange(start as int, to as int);
    proof {
        assert(authority =~= c@.subrange(from as int, to as int));
        assert(authority.skip(userinfo_len(authority) as int) =~= s);
    }
    if start < to && c[start] == '[' {
        let close = text::find_char(c, start, to, ']');
        proof {
            assert(s.take(close - start) =~= c@.subrange(start as int, close as int));
            text::lemma_len_before(s, (close - start) as nat, ']');
        }
        if close < to && (close + 1 == to || c[close + 1] == ':') {
            assert(s.take(close + 1 - start) =~= c@.subrange(start as int, close + 1));
            return (start, close + 1);
        }
    }
    if text::range_is(c, start, to, "::1") {
        return (start, to);
    }
    let colon = text::find_char(c, start, to, ':');
    proof {
        assert(s.take(colon - start) =~= c@.subrange(start as int, colon as int));
        text::lemma_len_before(s, (colon - start) as nat, ':');
    }
    (start, colon)
}

/// Does the URL whose authority starts at `c[from]` point at a local host?
pub fn points_at_local_host(c: &Vec<char>, from: usize) -> (r: bool)
    requires
        from <= c@.len(),
    ensures
        r == is_local_host(host_part(c@.skip(from as int))),
{
    let (a, b) = host_range(c, from);
    text::range_is(c, a, b, "localhost") || text::range_is(c, a, b, "127.0.0.1")
        || text::range_is(c, a, b, "::1") || text::range_is(c, a, b, "[::1]") || text::has_suffix(
        c,
        a,
        b,
        ".local",
    )
}

// ── Dotted quads ────────────────────────────────────────────────────────────

/// One number of a dotted quad: decimal, at most 255, without leading zeros.
pub open spec fn octet(s: Seq<char>) -> Option<nat> {
    if s.len() > 0 && text::all_digits(s) && text::digits_value(s) <= 0xFF && (s.len() == 1 || s[0]
        != '0') {
        Some(text::digits_value(s))
    } else {
        None
    }
}

/// The number whose bytes are `a`, `b`, `c` and `d`, highest first.
pub open spec fn quad_value(a: nat, b: nat, c: nat, d: nat) -> nat {
    a * 0x100_0000 + b * 0x1_0000 + c * 0x100 + d
}

/// The IPv4 address that a dotted quad denotes, as a number.
pub open spec fn dotted_quad(s: Seq<char>) -> Option<u32> {
    let parts = text::split(s, '.');
    if parts.len() == 4 {
        match (octet(parts[0]), octet(parts[1]), octet(parts[2]), octet(parts[3])) {
            (Some(a), Some(b), Some(c), Some(d)) => Some(quad_value(a, b, c, d) as u32),
            _ => None,
        }
    } else {
        None
    }
}

/// Reads `c[from..to]` as one number of a dotted quad.
fn read_octet(c: &Vec<char>, from: usize, to: usize) -> (r: Option<u32>)
    requires
        from <= to <= c@.len(),
    ensures
        match r {
            Some(n) => n <= 0xFF && octet(c@.subrange(from as int, to as int)) == Some(n as nat),
            None => octet(c@.subrange(from as int, to as int)) is None,
        },
{
    let ghost s = c@.subrange(from as int, to as int);
    if from == to {
        return None;
    }
    assert(s[0] == c@[from as int]);
    if c[from] == '+' {
        assert(!text::is_digit(s[0]));
        return None;
    }
    if to - from > 1 && c[from] == '0' {
        return None;
    }
    match text::parse_unsigned(c, from, to, 0xFF) {
        Some(n) => Some(n as u32),
        None => None,
    }
}

/// Reads a dotted quad.
pub fn read_dotted_quad(s: &str) -> (r: Option<u32>)
    ensures
        r == dotted_quad(s@),
{
    let c = text::chars_of(s);
    let parts = text::split_ranges(&c, '.');
    if parts.len() != 4 {
        return None;
    }
    let (a0, a1) = parts[0];
    let (b0, b1) = parts[1];
    let (c0, c1) = parts[2];
    let (d0, d1) = parts[3];
    proof {
        assert(parts@[0] == (a0, a1) && parts@[1] == (b0, b1));
        assert(parts@[2] == (c0, c1) && parts@[3] == (d0, d1));
    }
    match (
        read_octet(&c, a0, a1),
        read_octet(&c, b0, b1),
        read_octet(&c, c0, c1),
        read_octet(&c, d0, d1),
    ) {
        (Some(a), Some(b), Some(c), Some(d)) => Some(
            a * 0x100_0000 + b * 0x1_0000 + c * 0x100 + d,
        ),
        _ => None,
    }
}

// ── Laws ────────────────────────────────────────────────────────────────────

/// The dotted quad of an IPv4 address.
pub open spec fn quad_text(ip: u32) -> Seq<char> {
    text::decimal((ip / 0x100_0000) as nat) + seq!['.'] + (text::decimal(
        (ip / 0x1_0000 % 0x100) as nat,
    ) + seq!['.'] + (text::decimal((ip / 0x100 % 0x100) as nat) + seq!['.'] + text::decimal(
        (ip % 0x100) as nat,
    )))
}

proof fn lemma_octet(n: nat)
    requires
        n <= 0xFF,
    ensures
        octet(text::decimal(n)) == Some(n),
        text::free_of(text::decimal(n), '.'),
{
    text::lemma_decimal(n);
    let s = text::decimal(n);
    assert forall|i: int| 0 <= i < s.len() implies #[trigger] s[i] != '.' by {
        assert(text::is_digit(s[i]));
    }
    reveal_with_fuel(text::decimal, 3);
    if n >= 100 {
        assert(s[0] == text::digit(n / 10 / 10));
    } else if n >= 10 {
        assert(s[0] == text::digit(n / 10));
    }
}

/// A dotted quad is made of digits and dots.
pub proof fn lemma_quad_text(ip: u32)
    ensures
        quad_text(ip).len() > 0,
        forall|i: int|
            0 <= i < quad_text(ip).len() ==> #[trigger] quad_text(ip)[i] == '.' || text::is_digit(
                quad_text(ip)[i],
            ),
{
    text::lemma_decimal((ip / 0x100_0000) as nat);
    text::lemma_decimal((ip / 0x1_0000 % 0x100) as nat);
    text::lemma_decimal((ip / 0x100 % 0x100) as nat);
    text::lemma_decimal((ip % 0x100) as nat);
}

/// Every IPv4 address is read back from its dotted quad.
#[verifier::spinoff_prover]
pub proof fn dotted_quads_read_back(ip: u32)
    ensures
        dotted_quad(quad_text(ip)) == Some(ip),
{
    let a = (ip / 0x100_0000) as nat;
    let b = (ip / 0x1_0000 % 0x100) as nat;
    let c = (ip / 0x100 % 0x100) as nat;
    let d = (ip % 0x100) as nat;
    lemma_octet(a);
    lemma_octet(b);
    lemma_octet(c);
    lemma_octet(d);
    let last = text::decimal(d);
    let third = text::decimal(c) + seq!['.'] + last;
    let second = text::decimal(b) + seq!['.'] + third;
    text::lemma_split_whole(last, '.');
    text::lemma_split_first(text::decimal(c), '.', last);
    text::lemma_split_first(text::decimal(b), '.', third);
    text::lemma_split_first(text::decimal(a), '.', second);
    assert(text::split(quad_text(ip), '.') =~= seq![
        text::decimal(a),
        text::decimal(b),
        text::decimal(c),
        text::decimal(d),
    ]);
    text::lemma_four_bytes(ip as nat);
}

proof fn lemma_first_piece(s: Seq<char>, c: char)
    requires
        s.len() > 0,
        s[0] != c,
    ensures
        text::split(s, c)[0].len() > 0,
        text::split(s, c)[0][0] == s[0],
{
    text::lemma_split_nonempty(s.skip(1), c);
}

/// What starts with a bracket is no dotted quad.
pub proof fn brackets_are_no_dotted_quad(s: Seq<char>)
    requires
        s.len() > 0,
        s[0] == '[',
    ensures
        dotted_quad(s) is None,
{
    lemma_first_piece(s, '.');
    let first = text::split(s, '.')[0];
    if text::all_digits(first) {
        assert(text::is_digit(first[0]));
    }
}

/// The decimal notation of a number is the only one without leading zeros.
proof fn lemma_digits_are_decimal(s: Seq<char>)
    requires
        s.len() > 0,
        text::all_digits(s),
        s.len() == 1 || s[0] != '0',
    ensures
        s == text::decimal(text::digits_value(s)),
        s.len() > 1 ==> text::digits_value(s) >= 10,
        s[0] != '0' ==> text::digits_value(s) >= 1,
    decreases s.len(),
{
    let t = s.drop_last();
    let d = (s.last() as int - 0x30) as nat;
    assert(text::is_digit(s[s.len() - 1]));
    assert(text::digit(d) == s.last());
    if s.len() == 1 {
        assert(t =~= Seq::<char>::empty());
        assert(text::digits_value(t) == 0);
        assert(text::digits_value(s) == d);
        assert(s =~= seq![text::digit(d)]);
    } else {
        assert forall|i: int| 0 <= i < t.len() implies text::is_digit(#[trigger] t[i]) by {
            assert(t[i] == s[i]);
        }
        assert(t[0] == s[0]);
        lemma_digits_are_decimal(t);
        let v = text::digits_value(t);
        assert(text::digits_value(s) == v * 10 + d);
        assert((v * 10 + d) / 10 == v && (v * 10 + d) % 10 == d);
        assert(v >= 1);
        assert(text::decimal(v * 10 + d) == text::decimal(v).push(text::digit(d)));
        assert(s =~= text::decimal(v).push(text::digit(d)));
    }
}

/// A text is its pieces with the separator between them.
proof fn lemma_pieces(s: Seq<char>, c: char)
    ensures
        text::split(s, c).len() == 1 ==> s == text::split(s, c)[0],
        text::split(s, c).len() > 1 ==> exists|b: Seq<char>|
            s == text::split(s, c)[0] + seq![c] + b && #[trigger] text::split(b, c)
                == text::split(s, c).skip(1),
    decreases s.len(),
{
    if s.len() > 0 {
        let t = s.skip(1);
        let rest = text::split(t, c);
        let all = text::split(s, c);
        text::lemma_split_nonempty(t, c);
        lemma_pieces(t, c);
        if s[0] == c {
            assert(all.skip(1) =~= rest);
            assert(s =~= all[0] + seq![c] + t);
            assert(text::split(t, c) == all.skip(1));
        } else {
            assert(all[0] == seq![s[0]] + rest[0]);
            if rest.len() == 1 {
                assert(s =~= all[0]);
            } else {
                let b = choose|b: Seq<char>|
                    t == rest[0] + seq![c] + b && #[trigger] text::split(b, c) == rest.skip(1);
                assert(all.skip(1) =~= rest.skip(1));
                assert(s =~= seq![s[0]] + t);
                assert(s =~= all[0] + seq![c] + b);
                assert(text::split(b, c) == all.skip(1));
            }
        }
    }
}

/// Nothing but the dotted quad of an address is read as that address: four
/// numbers up to 255, without leading zeros, with dots between them.
#[verifier::spinoff_prover]
pub proof fn only_dotted_quads_are_read(s: Seq<char>)
    requires
        dotted_quad(s) is Some,
    ensures
        s == quad_text(dotted_quad(s)->0),
{
    let parts = text::split(s, '.');
    let a = octet(parts[0])->0;
    let b = octet(parts[1])->0;
    let c = octet(parts[2])->0;
    let d = octet(parts[3])->0;
    lemma_digits_are_decimal(parts[0]);
    lemma_digits_are_decimal(parts[1]);
    lemma_digits_are_decimal(parts[2]);
    lemma_digits_are_decimal(parts[3]);
    lemma_pieces(s, '.');
    let s1 = choose|b: Seq<char>|
        s == parts[0] + seq!['.'] + b && #[trigger] text::split(b, '.') == parts.skip(1);
    lemma_pieces(s1, '.');
    let s2 = choose|b: Seq<char>|
        s1 == parts.skip(1)[0] + seq!['.'] + b && #[trigger] text::split(b, '.') == parts.skip(
            1,
        ).skip(1);
    lemma_pieces(s2, '.');
    let s3 = choose|b: Seq<char>|
        s2 == parts.skip(1).skip(1)[0] + seq!['.'] + b && #[trigger] text::split(b, '.')
            == parts.skip(1).skip(1).skip(1);
    lemma_pieces(s3, '.');
    assert(s3 == parts[3]);
    let ip = dotted_quad(s)->0;
    text::lemma_bytes_of(a, b, c, d);
    assert(ip == quad_value(a, b, c, d));
    assert(s =~= quad_text(ip));
}

} // verus!
