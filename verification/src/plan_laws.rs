//! What holds of the physical layout: how the order of the storage engine
//! relates to heights, and that a seek in it answers a read at a height.

use vstd::prelude::*;
use crate::bytes::{
    be_bytes, be_value, has_prefix, lemma_be_bytes_of_value, lemma_be_round_trip, lemma_lex_by_position,
    lemma_lex_total, lex_decided_at, lex_le, lex_lt,
};
use crate::plan::{value_found, Row};
use crate::schema::{state_key_bytes, state_prefix_bytes};
use crate::store::{lemma_read_at_absent, lemma_read_at_found, read_at};

verus! {

/// Two byte strings that begin alike are ordered as their ends are.
pub proof fn lemma_lex_after_common_prefix(p: Seq<u8>, a: Seq<u8>, b: Seq<u8>)
    ensures
        lex_lt(p + a, p + b) == lex_lt(a, b),
    decreases p.len(),
{
    if p.len() == 0 {
        assert(p + a =~= a);
        assert(p + b =~= b);
    } else {
        assert((p + a).drop_first() =~= p.drop_first() + a);
        assert((p + b).drop_first() =~= p.drop_first() + b);
        lemma_lex_after_common_prefix(p.drop_first(), a, b);
    }
}

/// Big-endian encodings are ordered as the numbers are.
pub proof fn lemma_big_endian_order(x: u32, y: u32)
    ensures
        lex_lt(be_bytes(x), be_bytes(y)) == (x < y),
{
    let a = be_bytes(x);
    let b = be_bytes(y);
    lemma_be_round_trip(x);
    lemma_be_round_trip(y);
    let i: int = if a[0] != b[0] {
        0
    } else if a[1] != b[1] {
        1
    } else if a[2] != b[2] {
        2
    } else if a[3] != b[3] {
        3
    } else {
        4
    };
    assert(a.subrange(0, i) =~= b.subrange(0, i));
    assert(lex_decided_at(a, b, i));
    lemma_lex_by_position(a, b, i);
}

/// The versions of one key sort by height: the engine's order on their keys
/// is the order of their heights.
pub proof fn law_versions_sort_by_height(key: Seq<u8>, lower: u32, upper: u32)
    ensures
        lex_lt(state_key_bytes(key, lower), state_key_bytes(key, upper)) == (lower < upper),
{
    lemma_lex_after_common_prefix(state_prefix_bytes(key), be_bytes(lower), be_bytes(upper));
    lemma_big_endian_order(lower, upper);
}

/// A byte string that sorts between two strings with a common beginning
/// begins like them.
pub proof fn lemma_between_shares_prefix(p: Seq<u8>, a: Seq<u8>, b: Seq<u8>, f: Seq<u8>)
    requires
        lex_le(p + a, f),
        lex_le(f, p + b),
        a.len() > 0,
    ensures
        has_prefix(f, p),
    decreases p.len(),
{
    if p.len() == 0 {
        assert(f.subrange(0, 0) =~= p);
    } else {
        let low = p + a;
        let high = p + b;
        assert(low[0] == p[0]);
        assert(high[0] == p[0]);
        assert(low.drop_first() =~= p.drop_first() + a);
        assert(high.drop_first() =~= p.drop_first() + b);
        if f.len() == 0 {
            // nothing sorts before the empty string
            assert(low != f);
            assert(!lex_lt(low, f));
        } else {
            if f[0] != p[0] {
                if low == f {
                } else if high == f {
                } else {
                    assert(lex_lt(low, f) == (p[0] < f[0]));
                    assert(lex_lt(f, high) == (f[0] < p[0]));
                }
            }
            assert(f[0] == p[0]);
            assert(lex_le(low.drop_first(), f.drop_first())) by {
                if low == f {
                } else {
                    assert(lex_lt(low, f));
                }
            }
            assert(lex_le(f.drop_first(), high.drop_first())) by {
                if high == f {
                } else {
                    assert(lex_lt(f, high));
                }
            }
            lemma_between_shares_prefix(p.drop_first(), a, b, f.drop_first());
            assert(f.subrange(0, p.len() as int) =~= seq![f[0]] + f.drop_first().subrange(
                0,
                p.len() - 1,
            ));
            assert(p =~= seq![p[0]] + p.drop_first());
        }
    }
}

/// The rows of the state keyspace: the value stored under each key.
pub type StateRows = Map<Seq<u8>, Seq<u8>>;

/// Whether every row is a version: its key is that of some user key at some
/// height.
pub open spec fn only_versions(rows: StateRows) -> bool {
    forall|raw: Seq<u8>| #[trigger]
        rows.contains_key(raw) ==> exists|key: Seq<u8>, height: u32|
            key.len() <= u32::MAX && raw == #[trigger] state_key_bytes(key, height)
}

/// What the rows hold, as the value written to a key at a height.
pub open spec fn versions_in(rows: StateRows) -> Map<(Seq<u8>, u32), Seq<u8>> {
    Map::new(
        |p: (Seq<u8>, u32)| p.0.len() <= u32::MAX && rows.contains_key(state_key_bytes(p.0, p.1)),
        |p: (Seq<u8>, u32)| rows[state_key_bytes(p.0, p.1)],
    )
}

/// Whether `found` is what a seek for the greatest row at or below `bound`
/// returns: that row, or nothing if every row sorts above `bound`.
pub open spec fn is_seek_result(rows: StateRows, bound: Seq<u8>, found: Option<Row>) -> bool {
    match found {
        Some(row) => {
            &&& rows.contains_key(row.key@)
            &&& rows[row.key@] == row.value@
            &&& lex_le(row.key@, bound)
            &&& forall|raw: Seq<u8>| #[trigger]
                rows.contains_key(raw) && lex_le(raw, bound) ==> lex_le(raw, row.key@)
        },
        None => forall|raw: Seq<u8>| #[trigger] rows.contains_key(raw) ==> !lex_le(raw, bound),
    }
}

/// A key that begins with the prefix of a user key and is eight bytes
/// longer than the user key is the key of one of its versions.
pub proof fn lemma_version_of(key: Seq<u8>, raw: Seq<u8>)
    requires
        has_prefix(raw, state_prefix_bytes(key)),
        raw.len() == key.len() + 8,
    ensures
        0 <= be_value(raw, key.len() as int + 4) <= u32::MAX,
        raw == state_key_bytes(key, be_value(raw, key.len() as int + 4) as u32),
{
    let at = key.len() as int + 4;
    lemma_be_bytes_of_value(raw, at);
    assert(raw =~= raw.subrange(0, at) + raw.subrange(at, at + 4));
}

/// The key of a version of a user key is the key of a version of no other
/// user key: what begins with the prefix of `key` and is a version at all is
/// a version of `key`.
pub proof fn lemma_version_with_prefix(key: Seq<u8>, other: Seq<u8>, height: u32)
    requires
        key.len() <= u32::MAX,
        other.len() <= u32::MAX,
        has_prefix(state_key_bytes(other, height), state_prefix_bytes(key)),
    ensures
        other.len() == key.len(),
{
    let raw = state_key_bytes(other, height);
    let p = state_prefix_bytes(key);
    assert(raw.subrange(0, p.len() as int).subrange(0, 4) =~= raw.subrange(0, 4));
    assert(p.subrange(0, 4) =~= crate::bytes::le_bytes(key.len() as u32));
    assert(raw.subrange(0, 4) =~= crate::bytes::le_bytes(other.len() as u32));
    crate::bytes::lemma_le_round_trip(key.len() as u32);
    crate::bytes::lemma_le_round_trip(other.len() as u32);
}

/// A seek answers a read at a height. In a state keyspace that holds
/// versions only, the greatest row at or below the key of `key` at `height`
/// is read as the value that `key` has as of `height`: the one written at
/// the greatest height not above `height`, or none.
#[verifier::rlimit(40)]
pub proof fn law_seek_reads_at_height(rows: StateRows, key: Seq<u8>, height: u32, found: Option<Row>)
    requires
        only_versions(rows),
        key.len() <= u32::MAX,
        is_seek_result(rows, state_key_bytes(key, height), found),
    ensures
        value_found(key, found) == read_at(versions_in(rows), key, height),
{
    let bound = state_key_bytes(key, height);
    let state = versions_in(rows);
    let prefix = state_prefix_bytes(key);
    let is_version = found matches Some(row) && has_prefix(row.key@, prefix) && row.key@.len()
        == key.len() + 8;
    if is_version {
        let row = found.unwrap();
        lemma_version_of(key, row.key@);
        let at = be_value(row.key@, key.len() as int + 4) as u32;
        law_versions_sort_by_height(key, height, at);
        lemma_lex_total(row.key@, bound);
        assert(at <= height);
        assert(state.contains_key((key, at)));
        assert forall|g: u32| at < g <= height implies !state.contains_key((key, g)) by {
            let raw = state_key_bytes(key, g);
            if rows.contains_key(raw) {
                law_versions_sort_by_height(key, g, height);
                law_versions_sort_by_height(key, at, g);
                lemma_lex_total(raw, row.key@);
                assert(lex_le(raw, bound));
                assert(lex_le(raw, row.key@));
            }
        }
        lemma_read_at_found(state, key, height, at);
    } else {
        assert forall|g: u32| g <= height implies !state.contains_key((key, g)) by {
            let raw = state_key_bytes(key, g);
            if rows.contains_key(raw) {
                law_versions_sort_by_height(key, g, height);
                law_versions_sort_by_height(key, height, g);
                lemma_lex_total(raw, bound);
                assert(lex_le(raw, bound));
                let row = found.unwrap();
                assert(lex_le(raw, row.key@));
                lemma_between_shares_prefix(prefix, be_bytes(g), be_bytes(height), row.key@);
                let (other, at) = choose|other: Seq<u8>, at: u32|
                    other.len() <= u32::MAX && row.key@ == #[trigger] state_key_bytes(other, at);
                lemma_version_with_prefix(key, other, at);
                assert(row.key@.len() == key.len() + 8);
            }
        }
        lemma_read_at_absent(state, key, height);
    }
}

} // verus!
