//! Text primitives shared by the URL and SDP code.
//!
//! Strings are modelled as `Seq<char>`. The executable side works on the
//! decoded characters of a string together with index ranges into them, so
//! that no intermediate string is allocated while scanning.

use vstd::prelude::*;
use vstd::string::*;

verus! {

// ── Whitespace ──────────────────────────────────────────────────────────────

/// Characters with the Unicode `White_Space` property.
pub open spec fn is_space(c: char) -> bool {
    let n = c as int;
    ||| 0x9 <= n <= 0xD
    ||| n == 0x20
    ||| n == 0x85
    ||| n == 0xA0
    ||| n == 0x1680
    ||| 0x2000 <= n <= 0x200A
    ||| n == 0x2028
    ||| n == 0x2029
    ||| n == 0x202F
    ||| n == 0x205F
    ||| n == 0x3000
}

/// Is `c` a whitespace character?
pub fn char_is_space(c: char) -> (r: bool)
    ensures
        r == is_space(c),
{
    let n: u32 = c as u32;
    (0x9 <= n && n <= 0xD) || n == 0x20 || n == 0x85 || n == 0xA0 || n == 0x1680 || (0x2000 <= n
        && n <= 0x200A) || n == 0x2028 || n == 0x2029 || n == 0x202F || n == 0x205F || n == 0x3000
}

/// `s` without its leading whitespace.
pub open spec fn trim_start(s: Seq<char>) -> Seq<char>
    decreases s.len(),
{
    if s.len() > 0 && is_space(s[0]) {
        trim_start(s.skip(1))
    } else {
        s
    }
}

/// `s` without its trailing whitespace.
pub open spec fn trim_end(s: Seq<char>) -> Seq<char>
    decreases s.len(),
{
    if s.len() > 0 && is_space(s.last()) {
        trim_end(s.drop_last())
    } else {
        s
    }
}

/// `s` without the whitespace on either side.
pub open spec fn trim(s: Seq<char>) -> Seq<char> {
    trim_end(trim_start(s))
}

/// `s` without any trailing copies of `c`.
pub open spec fn trim_end_matches(s: Seq<char>, c: char) -> Seq<char>
    decreases s.len(),
{
    if s.len() > 0 && s.last() == c {
        trim_end_matches(s.drop_last(), c)
    } else {
        s
    }
}

/// Length of the leading run of non-whitespace characters.
pub open spec fn word_len(s: Seq<char>) -> nat
    decreases s.len(),
{
    if s.len() > 0 && !is_space(s[0]) {
        1 + word_len(s.skip(1))
    } else {
        0
    }
}

pub proof fn lemma_trim_start_shorter(s: Seq<char>)
    ensures
        trim_start(s).len() <= s.len(),
        trim_start(s).len() > 0 ==> !is_space(trim_start(s)[0]),
    decreases s.len(),
{
    if s.len() > 0 && is_space(s[0]) {
        lemma_trim_start_shorter(s.skip(1));
    }
}

pub proof fn lemma_word_len_bounds(s: Seq<char>)
    ensures
        word_len(s) <= s.len(),
        s.len() > 0 && !is_space(s[0]) ==> word_len(s) > 0,
        forall|i: int| 0 <= i < word_len(s) ==> !is_space(#[trigger] s[i]),
        word_len(s) < s.len() ==> is_space(s[word_len(s) as int]),
    decreases s.len(),
{
    if s.len() > 0 && !is_space(s[0]) {
        let t = s.skip(1);
        lemma_word_len_bounds(t);
        assert forall|i: int| 0 <= i < word_len(s) implies !is_space(#[trigger] s[i]) by {
            if i > 0 {
                assert(t[i - 1] == s[i]);
            }
        }
        if word_len(s) < s.len() {
            assert(t[word_len(t) as int] == s[word_len(s) as int]);
        }
    }
}

/// The maximal runs of non-whitespace characters of `s`, in order.
pub open spec fn words(s: Seq<char>) -> Seq<Seq<char>>
    decreases s.len(),
{
    let t = trim_start(s);
    if t.len() == 0 {
        Seq::empty()
    } else {
        proof {
            lemma_trim_start_shorter(s);
            lemma_word_len_bounds(t);
        }
        seq![t.take(word_len(t) as int)] + words(t.skip(word_len(t) as int))
    }
}

// ── Splitting ───────────────────────────────────────────────────────────────

/// The pieces of `s` between occurrences of `c`; always at least one piece.
pub open spec fn split(s: Seq<char>, c: char) -> Seq<Seq<char>>
    decreases s.len(),
{
    if s.len() == 0 {
        seq![s]
    } else {
        let rest = split(s.skip(1), c);
        if s[0] == c {
            seq![Seq::<char>::empty()] + rest
        } else {
            rest.update(0, seq![s[0]] + rest[0])
        }
    }
}

/// `c` does not occur in `s`.
pub open spec fn free_of(s: Seq<char>, c: char) -> bool {
    forall|i: int| 0 <= i < s.len() ==> #[trigger] s[i] != c
}

/// Length of the part of `s` before the first `c`; all of it if there is none.
pub open spec fn len_before(s: Seq<char>, c: char) -> nat
    decreases s.len(),
{
    if s.len() > 0 && s[0] != c {
        1 + len_before(s.skip(1), c)
    } else {
        0
    }
}

pub proof fn lemma_len_before(s: Seq<char>, n: nat, c: char)
    requires
        n <= s.len(),
        free_of(s.take(n as int), c),
        n < s.len() ==> s[n as int] == c,
    ensures
        len_before(s, c) == n,
    decreases n,
{
    if n > 0 {
        let t = s.skip(1);
        assert(s.take(n as int)[0] == s[0]);
        assert forall|i: int| 0 <= i < n - 1 implies #[trigger] t.take(n - 1)[i] != c by {
            assert(t.take(n - 1)[i] == s.take(n as int)[i + 1]);
        }
        lemma_len_before(t, (n - 1) as nat, c);
    }
}

/// No whitespace occurs in `s`.
pub open spec fn no_space(s: Seq<char>) -> bool {
    forall|i: int| 0 <= i < s.len() ==> !is_space(#[trigger] s[i])
}

pub proof fn lemma_split_nonempty(s: Seq<char>, c: char)
    ensures
        split(s, c).len() > 0,
    decreases s.len(),
{
    if s.len() > 0 {
        lemma_split_nonempty(s.skip(1), c);
    }
}

/// Text without the separator is a single piece.
pub proof fn lemma_split_whole(a: Seq<char>, c: char)
    requires
        free_of(a, c),
    ensures
        split(a, c) == seq![a],
    decreases a.len(),
{
    if a.len() > 0 {
        let t = a.skip(1);
        assert forall|i: int| 0 <= i < t.len() implies #[trigger] t[i] != c by {
            assert(t[i] == a[i + 1]);
        }
        lemma_split_whole(t, c);
        assert(seq![a[0]] + t =~= a);
        assert(split(a, c) =~= seq![a]);
    }
}

/// The first separator ends the first piece.
pub proof fn lemma_split_first(a: Seq<char>, c: char, b: Seq<char>)
    requires
        free_of(a, c),
    ensures
        split(a + seq![c] + b, c) == seq![a] + split(b, c),
    decreases a.len(),
{
    let s = a + seq![c] + b;
    lemma_split_nonempty(b, c);
    if a.len() == 0 {
        assert(s.skip(1) =~= b);
        assert(a =~= Seq::<char>::empty());
    } else {
        let t = a.skip(1);
        assert forall|i: int| 0 <= i < t.len() implies #[trigger] t[i] != c by {
            assert(t[i] == a[i + 1]);
        }
        lemma_split_first(t, c, b);
        assert(s.skip(1) =~= t + seq![c] + b);
        assert(s[0] == a[0]);
        assert(seq![a[0]] + t =~= a);
        assert(split(s, c) =~= seq![a] + split(b, c));
    }
}

/// `c` does not occur among the first `n` characters of `s`.
pub open spec fn free_up_to(s: Seq<char>, n: nat, c: char) -> bool
    decreases n,
{
    n == 0 || (s[n - 1] != c && free_up_to(s, (n - 1) as nat, c))
}

pub proof fn lemma_free_up_to(s: Seq<char>, n: nat, c: char)
    requires
        n <= s.len(),
        free_up_to(s, n, c),
    ensures
        free_of(s.take(n as int), c),
    decreases n,
{
    if n > 0 {
        lemma_free_up_to(s, (n - 1) as nat, c);
        assert forall|i: int| 0 <= i < n implies #[trigger] s.take(n as int)[i] != c by {
            if i < n - 1 {
                assert(s.take(n - 1)[i] == s.take(n as int)[i]);
            }
        }
    }
}

/// Leading whitespace does not change the words of a text.
pub proof fn lemma_words_skip_space(s: Seq<char>)
    requires
        s.len() > 0,
        is_space(s[0]),
    ensures
        words(s) == words(s.skip(1)),
{
    lemma_words_by_start(s);
    lemma_words_by_start(s.skip(1));
}

proof fn lemma_trim_start_twice(s: Seq<char>)
    ensures
        trim_start(trim_start(s)) == trim_start(s),
{
    lemma_trim_start_shorter(s);
}

proof fn lemma_words_by_start(s: Seq<char>)
    ensures
        words(s) == words(trim_start(s)),
{
    lemma_trim_start_twice(s);
}

proof fn lemma_word_len_append(a: Seq<char>, sp: char, b: Seq<char>)
    requires
        is_space(sp),
    ensures
        word_len(a + seq![sp] + b) == word_len(a),
    decreases a.len(),
{
    let s = a + seq![sp] + b;
    if a.len() == 0 {
        assert(s[0] == sp);
    } else {
        assert(s[0] == a[0]);
        assert(s.skip(1) =~= a.skip(1) + seq![sp] + b);
        lemma_word_len_append(a.skip(1), sp, b);
    }
}

/// A whitespace character between two texts keeps their words apart.
pub proof fn lemma_words_join(a: Seq<char>, sp: char, b: Seq<char>)
    requires
        is_space(sp),
    ensures
        words(a + seq![sp] + b) == words(a) + words(b),
    decreases a.len(),
{
    let s = a + seq![sp] + b;
    if a.len() == 0 {
        assert(s[0] == sp);
        assert(s.skip(1) =~= b);
        lemma_words_skip_space(s);
        assert(words(a) =~= Seq::<Seq<char>>::empty());
        assert(words(a) + words(b) =~= words(b));
    } else if is_space(a[0]) {
        assert(s[0] == a[0]);
        assert(s.skip(1) =~= a.skip(1) + seq![sp] + b);
        lemma_words_skip_space(s);
        lemma_words_skip_space(a);
        lemma_words_join(a.skip(1), sp, b);
    } else {
        assert(s[0] == a[0]);
        let n = word_len(a) as int;
        lemma_word_len_append(a, sp, b);
        lemma_word_len_bounds(a);
        assert(trim_start(s) == s);
        assert(trim_start(a) == a);
        assert(s.take(n) =~= a.take(n));
        assert(s.skip(n) =~= a.skip(n) + seq![sp] + b);
        lemma_words_join(a.skip(n), sp, b);
        assert(words(s) == seq![s.take(n)] + words(s.skip(n)));
        assert(words(a) == seq![a.take(n)] + words(a.skip(n)));
        assert(words(s) =~= words(a) + words(b));
    }
}

/// A non-empty text without whitespace is one word.
pub proof fn lemma_words_single(w: Seq<char>)
    requires
        w.len() > 0,
        no_space(w),
    ensures
        words(w) == seq![w],
{
    lemma_word_len_bounds(w);
    assert(word_len(w) == w.len()) by {
        if word_len(w) < w.len() {
            assert(is_space(w[word_len(w) as int]));
        }
    }
    assert(w.take(w.len() as int) =~= w);
    let rest = w.skip(w.len() as int);
    assert(rest =~= Seq::<char>::empty());
    assert(words(rest) =~= Seq::<Seq<char>>::empty());
    assert(words(w) =~= seq![w]);
}

/// Trimming keeps a first character that is not whitespace.
pub proof fn lemma_trim_keeps_first(s: Seq<char>)
    requires
        s.len() > 0,
        !is_space(s[0]),
    ensures
        trim(s).len() > 0,
        trim(s)[0] == s[0],
    decreases s.len(),
{
    assert(trim_start(s) == s);
    if is_space(s.last()) {
        let t = s.drop_last();
        assert(t.len() > 0);
        assert(t[0] == s[0]);
        lemma_trim_keeps_first(t);
        assert(trim_start(t) == t);
    }
}

/// Trimming takes one trailing whitespace character off a text that has none
/// at either end.
pub proof fn lemma_trim_one(s: Seq<char>, sp: char)
    requires
        s.len() > 0,
        !is_space(s[0]),
        !is_space(s.last()),
        is_space(sp),
    ensures
        trim(s.push(sp)) == s,
        trim(s) == s,
{
    reveal_with_fuel(trim_end, 2);
    assert(s.push(sp).drop_last() =~= s);
    assert(s.push(sp)[0] == s[0]);
}

// ── Numbers ─────────────────────────────────────────────────────────────────

/// The decimal digit for `d < 10`.
pub open spec fn digit(d: nat) -> char {
    (0x30 + d) as char
}

/// Decimal notation of `n`, without leading zeros.
pub open spec fn decimal(n: nat) -> Seq<char>
    decreases n,
{
    if n < 10 {
        seq![digit(n)]
    } else {
        decimal(n / 10).push(digit(n % 10))
    }
}

pub open spec fn is_digit(c: char) -> bool {
    0x30 <= c as int <= 0x39
}

pub open spec fn all_digits(s: Seq<char>) -> bool {
    forall|i: int| 0 <= i < s.len() ==> is_digit(#[trigger] s[i])
}

/// The number that a run of decimal digits denotes.
pub open spec fn digits_value(s: Seq<char>) -> nat
    decreases s.len(),
{
    if s.len() == 0 {
        0
    } else {
        digits_value(s.drop_last()) * 10 + (s.last() as int - 0x30) as nat
    }
}

/// Reads an unsigned number of at most `max`: an optional `+`, then one or
/// more decimal digits and nothing else.
pub open spec fn parse_number(s: Seq<char>, max: nat) -> Option<nat> {
    let d = if s.len() > 0 && s[0] == '+' {
        s.skip(1)
    } else {
        s
    };
    if d.len() > 0 && all_digits(d) && digits_value(d) <= max {
        Some(digits_value(d))
    } else {
        None
    }
}

/// Decimal notation is digits only, and reads back as the number.
pub proof fn lemma_decimal(n: nat)
    ensures
        decimal(n).len() > 0,
        all_digits(decimal(n)),
        digits_value(decimal(n)) == n,
    decreases n,
{
    reveal_with_fuel(digits_value, 2);
    if n < 10 {
        assert(decimal(n).drop_last() =~= Seq::<char>::empty());
    } else {
        lemma_decimal(n / 10);
        assert(decimal(n).drop_last() =~= decimal(n / 10));
    }
}

/// Reading back the decimal notation of a number within the limit gives the
/// number.
pub proof fn lemma_parse_decimal(n: nat, max: nat)
    requires
        n <= max,
    ensures
        parse_number(decimal(n), max) == Some(n),
{
    lemma_decimal(n);
    assert(is_digit(decimal(n)[0]));
}

proof fn lemma_quotient(n: int, by: int, quotient: int, rest: int)
    requires
        by > 0,
        n == quotient * by + rest,
        0 <= rest < by,
    ensures
        n / by == quotient,
        n % by == rest,
{
    vstd::arithmetic::div_mod::lemma_fundamental_div_mod_converse(n, by, quotient, rest);
}

/// A number is made of its bytes.
pub proof fn lemma_four_bytes(n: nat)
    ensures
        n / 0x100_0000 * 0x100_0000 + n / 0x1_0000 % 0x100 * 0x1_0000 + n / 0x100 % 0x100 * 0x100
            + n % 0x100 == n,
        n / 0x100 * 0x100 + n % 0x100 == n,
{
    let one = n / 0x100;
    let two = one / 0x100;
    vstd::arithmetic::div_mod::lemma_fundamental_div_mod(n as int, 0x100);
    vstd::arithmetic::div_mod::lemma_fundamental_div_mod(one as int, 0x100);
    vstd::arithmetic::div_mod::lemma_fundamental_div_mod(two as int, 0x100);
    vstd::arithmetic::div_mod::lemma_div_denominator(n as int, 0x100, 0x100);
    vstd::arithmetic::div_mod::lemma_div_denominator(n as int, 0x1_0000, 0x100);
}

/// The bytes of a number are those that it is made of.
pub proof fn lemma_bytes_of(a: nat, b: nat, c: nat, d: nat)
    requires
        a <= 0xFF,
        b <= 0xFF,
        c <= 0xFF,
        d <= 0xFF,
    ensures
        ({
            let n = a * 0x100_0000 + b * 0x1_0000 + c * 0x100 + d;
            &&& n <= 0xFFFF_FFFF
            &&& n / 0x100_0000 == a
            &&& n / 0x1_0000 % 0x100 == b
            &&& n / 0x100 % 0x100 == c
            &&& n % 0x100 == d
        }),
{
    let n = a * 0x100_0000 + b * 0x1_0000 + c * 0x100 + d;
    let two = a * 0x100 + b;
    let three = two * 0x100 + c;
    lemma_quotient(n as int, 0x100, three as int, d as int);
    lemma_quotient(three as int, 0x100, two as int, c as int);
    lemma_quotient(two as int, 0x100, a as int, b as int);
    lemma_quotient(n as int, 0x1_0000, two as int, (c * 0x100 + d) as int);
    lemma_quotient(n as int, 0x100_0000, a as int, (b * 0x1_0000 + c * 0x100 + d) as int);
}

// ── Scanning ────────────────────────────────────────────────────────────────

/// The characters of a string, one by one.
pub fn chars_of(s: &str) -> (r: Vec<char>)
    ensures
        r@ == s@,
{
    let mut out: Vec<char> = Vec::new();
    for c in it: s.chars()
        invariant
            out@ == it.seq().take(it.index() as int),
            it.seq() == s@,
    {
        out.push(c);
    }
    out
}

/// Do two strings hold the same characters?
pub fn same_text(a: &str, b: &str) -> (r: bool)
    ensures
        r == (a@ == b@),
{
    let x = chars_of(a);
    assert(x@.subrange(0, x@.len() as int) =~= a@);
    range_is(&x, 0, x.len(), b)
}

/// Does `c[from..to]` hold exactly the characters of `text`?
pub fn range_is(c: &Vec<char>, from: usize, to: usize, text: &str) -> (r: bool)
    requires
        from <= to <= c@.len(),
    ensures
        r == (c@.subrange(from as int, to as int) == text@),
{
    let t = chars_of(text);
    if t.len() != to - from {
        return false;
    }
    let r = has_prefix(c, from, to, text);
    proof {
        assert(c@.subrange(from as int, to as int).take(t@.len() as int) =~= c@.subrange(
            from as int,
            to as int,
        ));
    }
    r
}

/// Does `c[from..to]` begin with `prefix`?
pub fn has_prefix(c: &Vec<char>, from: usize, to: usize, prefix: &str) -> (r: bool)
    requires
        from <= to <= c@.len(),
    ensures
        r == prefix@.is_prefix_of(c@.subrange(from as int, to as int)),
{
    let p = chars_of(prefix);
    let ghost s = c@.subrange(from as int, to as int);
    if p.len() > to - from {
        return false;
    }
    let mut i: usize = 0;
    while i < p.len()
        invariant
            from <= to <= c@.len(),
            p@ == prefix@,
            p@.len() <= to - from,
            i <= p@.len(),
            s == c@.subrange(from as int, to as int),
            forall|j: int| 0 <= j < i ==> #[trigger] p@[j] == s[j],
        decreases p@.len() - i,
    {
        if c[from + i] != p[i] {
            assert(s[i as int] != prefix@[i as int]);
            assert(!(prefix@ =~= s.subrange(0, prefix@.len() as int))) by {
                if prefix@ =~= s.subrange(0, prefix@.len() as int) {
                    assert(prefix@[i as int] == s.subrange(0, prefix@.len() as int)[i as int]);
                }
            }
            return false;
        }
        i = i + 1;
    }
    assert(prefix@ =~= s.subrange(0, prefix@.len() as int));
    true
}

/// Does `c[from..to]` end with `suffix`?
pub fn has_suffix(c: &Vec<char>, from: usize, to: usize, suffix: &str) -> (r: bool)
    requires
        from <= to <= c@.len(),
    ensures
        r == suffix@.is_suffix_of(c@.subrange(from as int, to as int)),
{
    let n = chars_of(suffix).len();
    let ghost s = c@.subrange(from as int, to as int);
    if n > to - from {
        return false;
    }
    let r = range_is(c, to - n, to, suffix);
    assert(c@.subrange(to - n, to as int) =~= s.subrange(s.len() - n, s.len() as int));
    r
}

/// First position in `c[from..to]` that holds `sep`, or `to`.
pub fn find_char(c: &Vec<char>, from: usize, to: usize, sep: char) -> (r: usize)
    requires
        from <= to <= c@.len(),
    ensures
        from <= r <= to,
        free_of(c@.subrange(from as int, r as int), sep),
        r < to ==> c@[r as int] == sep,
{
    let mut i: usize = from;
    while i < to && c[i] != sep
        invariant
            from <= i <= to <= c@.len(),
            forall|j: int| from <= j < i ==> #[trigger] c@[j] != sep,
        decreases to - i,
    {
        i = i + 1;
    }
    i
}

/// The range of `c[from..to]` that remains when whitespace is trimmed from
/// both sides.
pub fn trim_range(c: &Vec<char>, from: usize, to: usize) -> (r: (usize, usize))
    requires
        from <= to <= c@.len(),
    ensures
        from <= r.0 <= r.1 <= to,
        c@.subrange(r.0 as int, r.1 as int) == trim(c@.subrange(from as int, to as int)),
{
    let a = skip_space(c, from, to);
    let mut b: usize = to;
    while b > a && char_is_space(c[b - 1])
        invariant
            from <= a <= b <= to <= c@.len(),
            trim_end(c@.subrange(a as int, b as int)) == trim(
                c@.subrange(from as int, to as int),
            ),
        decreases b - a,
    {
        assert(c@.subrange(a as int, b as int).drop_last() =~= c@.subrange(a as int, b - 1));
        b = b - 1;
    }
    (a, b)
}

/// First position in `c[from..to]` that is not whitespace, or `to`.
fn skip_space(c: &Vec<char>, from: usize, to: usize) -> (a: usize)
    requires
        from <= to <= c@.len(),
    ensures
        from <= a <= to,
        c@.subrange(a as int, to as int) == trim_start(c@.subrange(from as int, to as int)),
        a < to ==> !is_space(c@[a as int]),
{
    let mut a: usize = from;
    while a < to && char_is_space(c[a])
        invariant
            from <= a <= to <= c@.len(),
            trim_start(c@.subrange(a as int, to as int)) == trim_start(
                c@.subrange(from as int, to as int),
            ),
        decreases to - a,
    {
        assert(c@.subrange(a as int, to as int).skip(1) =~= c@.subrange(a + 1, to as int));
        a = a + 1;
    }
    a
}

/// `ranges` picks out of `c` exactly the texts of `parts`, in order.
pub open spec fn ranges_match(
    c: Seq<char>,
    ranges: Seq<(usize, usize)>,
    parts: Seq<Seq<char>>,
) -> bool {
    &&& ranges.len() == parts.len()
    &&& forall|i: int|
        #![trigger ranges[i]]
        #![trigger parts[i]]
        0 <= i < ranges.len() ==> {
            &&& ranges[i].0 <= ranges[i].1 <= c.len()
            &&& c.subrange(ranges[i].0 as int, ranges[i].1 as int) == parts[i]
        }
}

/// The ranges of the words in `c[from..to]`.
pub fn word_ranges(c: &Vec<char>, from: usize, to: usize) -> (r: Vec<(usize, usize)>)
    requires
        from <= to <= c@.len(),
    ensures
        ranges_match(c@, r@, words(c@.subrange(from as int, to as int))),
{
    let mut out: Vec<(usize, usize)> = Vec::new();
    let ghost all = words(c@.subrange(from as int, to as int));
    let mut pos: usize = from;
    assert(Seq::<Seq<char>>::empty() + all =~= all);
    let ghost mut done: Seq<Seq<char>> = Seq::empty();
    loop
        invariant
            from <= pos <= to <= c@.len(),
            all == words(c@.subrange(from as int, to as int)),
            all == done + words(c@.subrange(pos as int, to as int)),
            ranges_match(c@, out@, done),
        ensures
            ranges_match(c@, out@, all),
        decreases to - pos,
    {
        let start = skip_space(c, pos, to);
        let ghost t = c@.subrange(start as int, to as int);
        if start == to {
            assert(words(c@.subrange(pos as int, to as int)) =~= Seq::<Seq<char>>::empty());
            assert(all =~= done);
            break;
        }
        let end = word_end(c, start, to);
        proof {
            lemma_word_len_bounds(t);
            assert(t.take(end - start) =~= c@.subrange(start as int, end as int));
            assert(t.skip(end - start) =~= c@.subrange(end as int, to as int));
            done = done.push(c@.subrange(start as int, end as int));
            assert(all =~= done + words(c@.subrange(end as int, to as int)));
        }
        out.push((start, end));
        pos = end;
    }
    out
}

/// End of the run of non-whitespace characters that starts at `from`.
fn word_end(c: &Vec<char>, from: usize, to: usize) -> (end: usize)
    requires
        from <= to <= c@.len(),
    ensures
        from <= end <= to,
        end - from == word_len(c@.subrange(from as int, to as int)),
{
    let mut i: usize = from;
    while i < to && !char_is_space(c[i])
        invariant
            from <= i <= to <= c@.len(),
            word_len(c@.subrange(from as int, to as int)) == (i - from) + word_len(
                c@.subrange(i as int, to as int),
            ),
        decreases to - i,
    {
        assert(c@.subrange(i as int, to as int).skip(1) =~= c@.subrange(i + 1, to as int));
        i = i + 1;
    }
    i
}

/// The ranges of the pieces of `c` between occurrences of `sep`.
pub fn split_ranges(c: &Vec<char>, sep: char) -> (r: Vec<(usize, usize)>)
    ensures
        ranges_match(c@, r@, split(c@, sep)),
{
    let mut out: Vec<(usize, usize)> = Vec::new();
    let mut pos: usize = 0;
    let ghost mut done: Seq<Seq<char>> = Seq::empty();
    let n = c.len();
    proof {
        assert(c@.subrange(0, n as int) =~= c@);
        assert(done + split(c@, sep) =~= split(c@, sep));
    }
    loop
        invariant_except_break
            pos <= n == c@.len(),
            split(c@, sep) == done + split(c@.subrange(pos as int, n as int), sep),
            ranges_match(c@, out@, done),
        ensures
            ranges_match(c@, out@, split(c@, sep)),
        decreases n - pos,
    {
        let end = find_char(c, pos, n, sep);
        let ghost line = c@.subrange(pos as int, end as int);
        let ghost rest = c@.subrange(pos as int, n as int);
        out.push((pos, end));
        if end == n {
            proof {
                lemma_split_whole(rest, sep);
                assert(line =~= rest);
                assert(done.push(line) =~= done + seq![rest]);
            }
            break;
        }
        proof {
            let after = c@.subrange(end + 1, n as int);
            assert(rest =~= line + seq![sep] + after);
            lemma_split_first(line, sep, after);
            assert(done.push(line) + split(after, sep) =~= done + (seq![line] + split(
                after,
                sep,
            )));
            done = done.push(line);
        }
        pos = end + 1;
    }
    out
}

/// Reads `c[from..to]` as an unsigned number of at most `max`.
pub fn parse_unsigned(c: &Vec<char>, from: usize, to: usize, max: u64) -> (r: Option<u64>)
    requires
        from <= to <= c@.len(),
        max <= 0xFFFF_FFFF,
    ensures
        match r {
            Some(v) => parse_number(c@.subrange(from as int, to as int), max as nat) == Some(
                v as nat,
            ),
            None => parse_number(c@.subrange(from as int, to as int), max as nat) is None,
        },
{
    let ghost s = c@.subrange(from as int, to as int);
    let mut start: usize = from;
    if from < to && c[from] == '+' {
        start = from + 1;
    }
    let ghost d = c@.subrange(start as int, to as int);
    assert(d =~= if s.len() > 0 && s[0] == '+' {
        s.skip(1)
    } else {
        s
    });
    if start == to {
        return None;
    }
    let mut value: u64 = 0;
    let mut i: usize = start;
    while i < to
        invariant
            from <= start <= i <= to <= c@.len(),
            d == c@.subrange(start as int, to as int),
            d.len() == to - start,
            value <= max <= 0xFFFF_FFFF,
            value == digits_value(d.take(i - start)),
            all_digits(d.take(i - start)),
            start < to,
            d == if s.len() > 0 && s[0] == '+' {
                s.skip(1)
            } else {
                s
            },
            s == c@.subrange(from as int, to as int),
        decreases to - i,
    {
        let ghost k = i - start;
        assert(d[k] == c@[i as int]);
        let n: u64 = match digit_of(c[i]) {
            Some(n) => n,
            None => return None,
        };
        assert(d.take(k + 1).drop_last() =~= d.take(k));
        assert(d.take(k + 1).last() == c@[i as int]);
        assert(is_digit(d[k]));
        let next: u64 = value * 10 + n;
        assert(next == digits_value(d.take(k + 1)));
        if next > max {
            proof {
                lemma_digits_value_grows(d, k + 1);
            }
            return None;
        }
        assert forall|j: int| 0 <= j < k + 1 implies is_digit(#[trigger] d.take(k + 1)[j]) by {
            if j < k {
                assert(d.take(k)[j] == d.take(k + 1)[j]);
            }
        }
        value = next;
        i = i + 1;
    }
    assert(d.take(d.len() as int) =~= d);
    Some(value)
}

/// The value of a decimal digit.
fn digit_of(c: char) -> (r: Option<u64>)
    ensures
        match r {
            Some(n) => is_digit(c) && n == c as int - 0x30,
            None => !is_digit(c),
        },
{
    let n: u32 = c as u32;
    if n < 0x30 || n > 0x39 {
        None
    } else {
        Some((n - 0x30) as u64)
    }
}

/// A longer run of digits denotes no smaller number.
proof fn lemma_digits_value_grows(d: Seq<char>, n: int)
    requires
        0 <= n <= d.len(),
    ensures
        all_digits(d) ==> digits_value(d) >= digits_value(d.take(n)),
    decreases d.len() - n,
{
    if n < d.len() {
        assert(d.take(n + 1).drop_last() =~= d.take(n));
        lemma_digits_value_grows(d, n + 1);
    } else {
        assert(d.take(n) =~= d);
    }
}

// ── Building ────────────────────────────────────────────────────────────────

/// The text of one decimal digit.
fn digit_text(d: u64) -> (r: &'static str)
    requires
        d < 10,
    ensures
        r@ == seq![digit(d as nat)],
{
    proof {
        reveal_strlit("0");
        reveal_strlit("1");
        reveal_strlit("2");
        reveal_strlit("3");
        reveal_strlit("4");
        reveal_strlit("5");
        reveal_strlit("6");
        reveal_strlit("7");
        reveal_strlit("8");
        reveal_strlit("9");
    }
    let r = match d {
        0 => "0",
        1 => "1",
        2 => "2",
        3 => "3",
        4 => "4",
        5 => "5",
        6 => "6",
        7 => "7",
        8 => "8",
        _ => "9",
    };
    assert(r@ =~= seq![digit(d as nat)]);
    r
}

/// Appends the decimal notation of `n`.
pub fn push_decimal(out: &mut String, n: u64)
    ensures
        final(out)@ == old(out)@ + decimal(n as nat),
    decreases n,
{
    if n >= 10 {
        push_decimal(out, n / 10);
    }
    let ghost before = out@;
    out.append(digit_text(n % 10));
    proof {
        if n >= 10 {
            assert(before == old(out)@ + decimal((n / 10) as nat));
            assert(out@ =~= old(out)@ + decimal(n as nat));
        } else {
            assert(before == old(out)@);
        }
    }
}

/// The two texts, one after the other.
pub fn join2(a: &str, b: &str) -> (r: String)
    ensures
        r@ == a@ + b@,
{
    let mut r = a.to_owned();
    r.append(b);
    r
}

/// The three texts, one after the other.
pub fn join3(a: &str, b: &str, c: &str) -> (r: String)
    ensures
        r@ == a@ + b@ + c@,
{
    let mut r = join2(a, b);
    r.append(c);
    r
}

/// `s` without any trailing copies of `c`.
pub fn without_trailing(s: &str, c: char) -> (r: &str)
    ensures
        r@ == trim_end_matches(s@, c),
{
    let chars = chars_of(s);
    let mut n: usize = chars.len();
    assert(s@.take(n as int) =~= s@);
    while n > 0 && chars[n - 1] == c
        invariant
            chars@ == s@,
            n <= s@.len(),
            trim_end_matches(s@.take(n as int), c) == trim_end_matches(s@, c),
        decreases n,
    {
        assert(s@.take(n as int).drop_last() =~= s@.take(n - 1));
        n = n - 1;
    }
    let r = s.substring_char(0, n);
    assert(r@ =~= s@.take(n as int));
    r
}

// ── Laws ────────────────────────────────────────────────────────────────────

/// Among the ASCII characters, whitespace is the space and the five control
/// characters from tab to carriage return.
pub proof fn ascii_whitespace(c: char)
    requires
        (c as int) < 128,
    ensures
        is_space(c) <==> c == ' ' || 9 <= c as int <= 13,
{
}

/// Beyond ASCII, whitespace is what Unicode lists as such.
pub proof fn unicode_whitespace(c: char)
    requires
        c as int >= 128,
    ensures
        is_space(c) <==> c == '\u{85}' || c == '\u{A0}' || c == '\u{1680}' || '\u{2000}' <= c
            <= '\u{200A}' || c == '\u{2028}' || c == '\u{2029}' || c == '\u{202F}' || c
            == '\u{205F}' || c == '\u{3000}',
{
}

/// Whatever whitespace stands around a text is trimmed, and nothing else.
pub proof fn trimming_takes_whitespace_only(before: Seq<char>, s: Seq<char>, after: Seq<char>)
    requires
        forall|i: int| 0 <= i < before.len() ==> is_space(#[trigger] before[i]),
        forall|i: int| 0 <= i < after.len() ==> is_space(#[trigger] after[i]),
        s.len() > 0,
        !is_space(s[0]),
        !is_space(s.last()),
    ensures
        trim(before + s + after) == s,
    decreases before.len() + after.len(),
{
    let all = before + s + after;
    if before.len() > 0 {
        let rest = before.skip(1);
        assert forall|i: int| 0 <= i < rest.len() implies is_space(#[trigger] rest[i]) by {
            assert(rest[i] == before[i + 1]);
        }
        trimming_takes_whitespace_only(rest, s, after);
        assert(all[0] == before[0]);
        assert(all.skip(1) =~= rest + s + after);
    } else {
        assert(all =~= s + after);
        assert(all[0] == s[0]);
        assert(trim_start(all) == all);
        if after.len() > 0 {
            let rest = after.drop_last();
            assert forall|i: int| 0 <= i < rest.len() implies is_space(#[trigger] rest[i]) by {
                assert(rest[i] == after[i]);
            }
            trimming_takes_whitespace_only(before, s, rest);
            assert(all.last() == after[after.len() - 1]);
            assert(all.drop_last() =~= before + s + rest);
            assert((before + s + rest)[0] == s[0]);
            assert(trim_start(before + s + rest) == before + s + rest);
        } else {
            assert(all =~= s);
        }
    }
}

/// Numbers are read from decimal digits, with or without a plus before them,
/// up to the limit. Anything else is no number.
pub proof fn numbers_are_read_up_to_the_limit(n: nat, max: nat)
    ensures
        n <= max ==> parse_number(decimal(n), max) == Some(n),
        n <= max ==> parse_number(seq!['+'] + decimal(n), max) == Some(n),
        n > max ==> parse_number(decimal(n), max) is None,
        parse_number(Seq::empty(), max) is None,
{
    lemma_decimal(n);
    assert(is_digit(decimal(n)[0]));
    assert((seq!['+'] + decimal(n)).skip(1) =~= decimal(n));
}

/// What is read as a number holds digits only, but for a plus at its start.
pub proof fn only_digits_are_numbers(s: Seq<char>, max: nat, i: int)
    requires
        0 <= i < s.len(),
        !('0' <= s[i] <= '9'),
        !(i == 0 && s[i] == '+'),
    ensures
        parse_number(s, max) is None,
{
    let d = if s.len() > 0 && s[0] == '+' {
        s.skip(1)
    } else {
        s
    };
    if all_digits(d) {
        if s[0] == '+' {
            assert(d[i - 1] == s[i]);
            assert(is_digit(d[i - 1]));
        } else {
            assert(is_digit(d[i]));
        }
    }
}

/// Decimal notation has the digit of the ones at its end, and before it the
/// notation of the tens.
pub proof fn decimal_notation_has_the_ones_last(n: nat)
    ensures
        decimal(n).len() > 0,
        decimal(n).last() as int == '0' as int + n % 10,
        n < 10 ==> decimal(n).len() == 1,
        n >= 10 ==> decimal(n).drop_last() == decimal(n / 10),
    decreases n,
{
    if n >= 10 {
        decimal_notation_has_the_ones_last(n / 10);
        assert(decimal(n).drop_last() =~= decimal(n / 10));
    }
}

/// All copies of a character at the end of a text are taken away, and nothing
/// else.
pub proof fn trailing_characters_are_taken_away(s: Seq<char>, c: char, n: nat)
    requires
        s.len() > 0 ==> s.last() != c,
    ensures
        trim_end_matches(s + Seq::new(n, |i: int| c), c) == s,
    decreases n,
{
    let all = s + Seq::new(n, |i: int| c);
    if n > 0 {
        trailing_characters_are_taken_away(s, c, (n - 1) as nat);
        assert(all.last() == c);
        assert(all.drop_last() =~= s + Seq::new((n - 1) as nat, |i: int| c));
    } else {
        assert(all =~= s);
    }
}

} // verus!
