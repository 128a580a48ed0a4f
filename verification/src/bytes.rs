//! Byte-level building blocks of the on-disk schema: fixed-width integer
//! encodings, decimal text, and the lexicographic order the storage engine
//! sorts keys by.

use vstd::prelude::*;

verus! {

/// The four bytes of `x`, least significant first.
pub open spec fn le_bytes(x: u32) -> Seq<u8> {
    seq![
        (x % 256) as u8,
        ((x / 256) % 256) as u8,
        ((x / 65536) % 256) as u8,
        (x / 16777216) as u8,
    ]
}

/// The four bytes of `x`, most significant first.
pub open spec fn be_bytes(x: u32) -> Seq<u8> {
    seq![
        (x / 16777216) as u8,
        ((x / 65536) % 256) as u8,
        ((x / 256) % 256) as u8,
        (x % 256) as u8,
    ]
}

/// The number whose big-endian encoding starts at `at` in `s`.
pub open spec fn be_value(s: Seq<u8>, at: int) -> int {
    s[at] * 16777216 + s[at + 1] * 65536 + s[at + 2] * 256 + s[at + 3]
}

/// The number whose little-endian encoding starts at `at` in `s`.
pub open spec fn le_value(s: Seq<u8>, at: int) -> int {
    s[at + 3] * 16777216 + s[at + 2] * 65536 + s[at + 1] * 256 + s[at]
}

/// Encodes `x` as four little-endian bytes.
pub fn u32_le(x: u32) -> (out: Vec<u8>)
    ensures
        out@ == le_bytes(x),
{
    let mut out: Vec<u8> = Vec::new();
    out.push((x % 256) as u8);
    out.push(((x / 256) % 256) as u8);
    out.push(((x / 65536) % 256) as u8);
    out.push((x / 16777216) as u8);
    assert(out@ =~= le_bytes(x));
    out
}

/// Encodes `x` as four big-endian bytes.
pub fn u32_be(x: u32) -> (out: Vec<u8>)
    ensures
        out@ == be_bytes(x),
{
    let mut out: Vec<u8> = Vec::new();
    out.push((x / 16777216) as u8);
    out.push(((x / 65536) % 256) as u8);
    out.push(((x / 256) % 256) as u8);
    out.push((x % 256) as u8);
    assert(out@ =~= be_bytes(x));
    out
}

/// Reads the big-endian number stored in the four bytes of `s` from `at` on.
pub fn u32_from_be(s: &Vec<u8>, at: usize) -> (x: u32)
    requires
        at + 4 <= s.len(),
    ensures
        x == be_value(s@, at as int),
{
    let b0: u32 = s[at] as u32;
    let b1: u32 = s[at + 1] as u32;
    let b2: u32 = s[at + 2] as u32;
    let b3: u32 = s[at + 3] as u32;
    b0 * 16777216 + b1 * 65536 + b2 * 256 + b3
}

/// Reads the little-endian number stored in the four bytes of `s` from `at` on.
pub fn u32_from_le(s: &Vec<u8>, at: usize) -> (x: u32)
    requires
        at + 4 <= s.len(),
    ensures
        x == le_value(s@, at as int),
{
    let b0: u32 = s[at] as u32;
    let b1: u32 = s[at + 1] as u32;
    let b2: u32 = s[at + 2] as u32;
    let b3: u32 = s[at + 3] as u32;
    b3 * 16777216 + b2 * 65536 + b1 * 256 + b0
}

/// Decoding a big-endian encoding gives the number back.
pub proof fn lemma_be_round_trip(x: u32)
    ensures
        be_bytes(x).len() == 4,
        be_value(be_bytes(x), 0) == x,
{
}

/// Decoding a little-endian encoding gives the number back.
pub proof fn lemma_le_round_trip(x: u32)
    ensures
        le_bytes(x).len() == 4,
        le_value(le_bytes(x), 0) == x,
{
}

/// Encoding the number read from four big-endian bytes gives the bytes back.
pub proof fn lemma_be_bytes_of_value(s: Seq<u8>, at: int)
    requires
        0 <= at,
        at + 4 <= s.len(),
    ensures
        0 <= be_value(s, at) <= u32::MAX,
        be_bytes(be_value(s, at) as u32) == s.subrange(at, at + 4),
{
    let b0 = s[at] as int;
    let b1 = s[at + 1] as int;
    let b2 = s[at + 2] as int;
    let b3 = s[at + 3] as int;
    let x = be_value(s, at);
    assert(x % 256 == b3);
    assert(x / 256 == b0 * 65536 + b1 * 256 + b2);
    assert((x / 256) % 256 == b2);
    assert(x / 65536 == b0 * 256 + b1);
    assert((x / 65536) % 256 == b1);
    assert(x / 16777216 == b0);
    assert(be_bytes(x as u32) =~= s.subrange(at, at + 4));
}

/// Encoding the number read from four little-endian bytes gives the bytes
/// back.
pub proof fn lemma_le_bytes_of_value(s: Seq<u8>, at: int)
    requires
        0 <= at,
        at + 4 <= s.len(),
    ensures
        0 <= le_value(s, at) <= u32::MAX,
        le_bytes(le_value(s, at) as u32) == s.subrange(at, at + 4),
{
    let b0 = s[at + 3] as int;
    let b1 = s[at + 2] as int;
    let b2 = s[at + 1] as int;
    let b3 = s[at] as int;
    let x = le_value(s, at);
    assert(x % 256 == b3);
    assert(x / 256 == b0 * 65536 + b1 * 256 + b2);
    assert((x / 256) % 256 == b2);
    assert(x / 65536 == b0 * 256 + b1);
    assert((x / 65536) % 256 == b1);
    assert(x / 16777216 == b0);
    assert(le_bytes(x as u32) =~= s.subrange(at, at + 4));
}

/// Decoding is unaffected by what precedes or follows the four bytes.
pub proof fn lemma_be_value_in_context(before: Seq<u8>, x: u32, after: Seq<u8>)
    ensures
        be_value(before + be_bytes(x) + after, before.len() as int) == x,
{
    let s = before + be_bytes(x) + after;
    let at = before.len() as int;
    assert(s[at] == be_bytes(x)[0]);
    assert(s[at + 1] == be_bytes(x)[1]);
    assert(s[at + 2] == be_bytes(x)[2]);
    assert(s[at + 3] == be_bytes(x)[3]);
}

/// Decoding is unaffected by what precedes or follows the four bytes.
pub proof fn lemma_le_value_in_context(before: Seq<u8>, x: u32, after: Seq<u8>)
    ensures
        le_value(before + le_bytes(x) + after, before.len() as int) == x,
{
    let s = before + le_bytes(x) + after;
    let at = before.len() as int;
    assert(s[at] == le_bytes(x)[0]);
    assert(s[at + 1] == le_bytes(x)[1]);
    assert(s[at + 2] == le_bytes(x)[2]);
    assert(s[at + 3] == le_bytes(x)[3]);
}

/// The ASCII decimal digits of `n`, most significant first, without leading
/// zeros.
pub open spec fn decimal_digits(n: nat) -> Seq<u8>
    decreases n,
{
    if n < 10 {
        seq![(48 + n) as u8]
    } else {
        decimal_digits(n / 10).push((48 + n % 10) as u8)
    }
}

/// The number a string of ASCII decimal digits stands for.
pub open spec fn decimal_value(s: Seq<u8>) -> nat
    decreases s.len(),
{
    if s.len() == 0 {
        0
    } else {
        (decimal_value(s.drop_last()) * 10 + (s.last() - 48)) as nat
    }
}

/// Reading the decimal digits of a number gives the number back, so distinct
/// numbers have distinct digit strings.
pub proof fn lemma_decimal_round_trip(n: nat)
    ensures
        decimal_value(decimal_digits(n)) == n,
        decimal_digits(n).len() >= 1,
        forall|i: int| 0 <= i < decimal_digits(n).len() ==> 48 <= #[trigger] decimal_digits(n)[i] <= 57,
    decreases n,
{
    if n < 10 {
        let s = decimal_digits(n);
        assert(s.drop_last() =~= Seq::<u8>::empty());
        assert(decimal_value(s.drop_last()) == 0);
    } else {
        lemma_decimal_round_trip(n / 10);
        let s = decimal_digits(n);
        assert(s.drop_last() =~= decimal_digits(n / 10));
    }
}

/// Writes `n` in ASCII decimal.
pub fn decimal(n: u32) -> (out: Vec<u8>)
    ensures
        out@ == decimal_digits(n as nat),
    decreases n,
{
    if n < 10 {
        let mut out: Vec<u8> = Vec::new();
        out.push(48 + n as u8);
        assert(out@ =~= decimal_digits(n as nat));
        out
    } else {
        let mut out = decimal(n / 10);
        out.push(48 + (n % 10) as u8);
        out
    }
}

/// Appends the bytes of `tail` to `out`.
pub fn extend(out: &mut Vec<u8>, tail: &Vec<u8>)
    ensures
        final(out)@ == old(out)@ + tail@,
{
    let mut i: usize = 0;
    while i < tail.len()
        invariant
            i <= tail@.len(),
            out@ == old(out)@ + tail@.subrange(0, i as int),
        decreases tail@.len() - i,
    {
        out.push(tail[i]);
        i = i + 1;
        assert(out@ =~= old(out)@ + tail@.subrange(0, i as int));
    }
    assert(tail@.subrange(0, tail@.len() as int) =~= tail@);
}

/// A fresh copy of `src`.
pub fn copy(src: &Vec<u8>) -> (out: Vec<u8>)
    ensures
        out@ == src@,
{
    let mut out: Vec<u8> = Vec::new();
    extend(&mut out, src);
    assert(out@ =~= src@);
    out
}

/// Whether two byte strings hold the same bytes.
pub fn same(a: &Vec<u8>, b: &Vec<u8>) -> (eq: bool)
    ensures
        eq == (a@ == b@),
{
    if a.len() != b.len() {
        return false;
    }
    let mut i: usize = 0;
    while i < a.len()
        invariant
            i <= a@.len(),
            a@.len() == b@.len(),
            a@.subrange(0, i as int) == b@.subrange(0, i as int),
        decreases a@.len() - i,
    {
        if a[i] != b[i] {
            assert(a@[i as int] != b@[i as int]);
            return false;
        }
        i = i + 1;
        assert(a@.subrange(0, i as int) =~= a@.subrange(0, i - 1).push(a@[i - 1]));
        assert(b@.subrange(0, i as int) =~= b@.subrange(0, i - 1).push(b@[i - 1]));
    }
    assert(a@ =~= a@.subrange(0, a@.len() as int));
    assert(b@ =~= b@.subrange(0, b@.len() as int));
    true
}

/// Whether `s` begins with `prefix`.
pub open spec fn has_prefix(s: Seq<u8>, prefix: Seq<u8>) -> bool {
    prefix.len() <= s.len() && s.subrange(0, prefix.len() as int) == prefix
}

/// Whether `s` begins with `prefix`.
pub fn starts_with(s: &Vec<u8>, prefix: &Vec<u8>) -> (yes: bool)
    ensures
        yes == has_prefix(s@, prefix@),
{
    if prefix.len() > s.len() {
        return false;
    }
    let mut i: usize = 0;
    while i < prefix.len()
        invariant
            i <= prefix@.len(),
            prefix@.len() <= s@.len(),
            s@.subrange(0, i as int) == prefix@.subrange(0, i as int),
        decreases prefix@.len() - i,
    {
        if s[i] != prefix[i] {
            assert(s@.subrange(0, prefix@.len() as int)[i as int] != prefix@[i as int]);
            return false;
        }
        i = i + 1;
        assert(s@.subrange(0, i as int) =~= s@.subrange(0, i - 1).push(s@[i - 1]));
        assert(prefix@.subrange(0, i as int) =~= prefix@.subrange(0, i - 1).push(prefix@[i - 1]));
    }
    assert(prefix@ =~= prefix@.subrange(0, prefix@.len() as int));
    true
}

/// Strict lexicographic order on byte strings: `a` sorts before `b`.
pub open spec fn lex_lt(a: Seq<u8>, b: Seq<u8>) -> bool
    decreases a.len(),
{
    if b.len() == 0 {
        false
    } else if a.len() == 0 {
        true
    } else if a[0] != b[0] {
        a[0] < b[0]
    } else {
        lex_lt(a.drop_first(), b.drop_first())
    }
}

/// Lexicographic order on byte strings: `a` sorts no later than `b`.
pub open spec fn lex_le(a: Seq<u8>, b: Seq<u8>) -> bool {
    a == b || lex_lt(a, b)
}

/// Of two different byte strings exactly one sorts before the other.
pub proof fn lemma_lex_total(a: Seq<u8>, b: Seq<u8>)
    ensures
        a == b || lex_lt(a, b) || lex_lt(b, a),
        !(lex_lt(a, b) && lex_lt(b, a)),
    decreases a.len(),
{
    if a.len() == 0 || b.len() == 0 {
        if a.len() == 0 && b.len() == 0 {
            assert(a =~= b);
        }
    } else if a[0] == b[0] {
        lemma_lex_total(a.drop_first(), b.drop_first());
        if a.drop_first() == b.drop_first() {
            assert(a =~= seq![a[0]] + a.drop_first());
            assert(b =~= seq![b[0]] + b.drop_first());
        }
    }
}

/// The order is transitive.
pub proof fn lemma_lex_transitive(a: Seq<u8>, b: Seq<u8>, c: Seq<u8>)
    requires
        lex_lt(a, b),
        lex_lt(b, c),
    ensures
        lex_lt(a, c),
    decreases a.len(),
{
    if a.len() > 0 && a[0] == b[0] && b[0] == c[0] {
        lemma_lex_transitive(a.drop_first(), b.drop_first(), c.drop_first());
    }
}

/// The position from which `a` and `b` decide their order: the first index at
/// which they differ, or the length of the shorter one.
pub open spec fn lex_decided_at(a: Seq<u8>, b: Seq<u8>, i: int) -> bool {
    &&& 0 <= i <= a.len()
    &&& i <= b.len()
    &&& a.subrange(0, i) == b.subrange(0, i)
    &&& (i < a.len() && i < b.len() ==> a[i] != b[i])
}

/// Once the deciding position is known, the order is read off it.
pub proof fn lemma_lex_by_position(a: Seq<u8>, b: Seq<u8>, i: int)
    requires
        lex_decided_at(a, b, i),
    ensures
        lex_lt(a, b) == (if i == b.len() {
            false
        } else if i == a.len() {
            true
        } else {
            a[i] < b[i]
        }),
    decreases i,
{
    if i == 0 {
    } else {
        assert(a[0] == a.subrange(0, i)[0]);
        assert(b[0] == b.subrange(0, i)[0]);
        assert(a.drop_first().subrange(0, i - 1) =~= a.subrange(0, i).drop_first());
        assert(b.drop_first().subrange(0, i - 1) =~= b.subrange(0, i).drop_first());
        lemma_lex_by_position(a.drop_first(), b.drop_first(), i - 1);
    }
}

/// Whether `a` sorts strictly before `b`.
pub fn lex_less(a: &Vec<u8>, b: &Vec<u8>) -> (lt: bool)
    ensures
        lt == lex_lt(a@, b@),
{
    let mut i: usize = 0;
    while i < a.len() && i < b.len() && a[i] == b[i]
        invariant
            i <= a@.len(),
            i <= b@.len(),
            a@.subrange(0, i as int) == b@.subrange(0, i as int),
        decreases a@.len() - i,
    {
        i = i + 1;
        assert(a@.subrange(0, i as int) =~= a@.subrange(0, i - 1).push(a@[i - 1]));
        assert(b@.subrange(0, i as int) =~= b@.subrange(0, i - 1).push(b@[i - 1]));
    }
    proof {
        lemma_lex_by_position(a@, b@, i as int);
    }
    if i == b.len() {
        false
    } else if i == a.len() {
        true
    } else {
        a[i] < b[i]
    }
}

} // verus!
