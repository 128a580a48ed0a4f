//! The physical layout of the store: its keyspaces, how logical keys and
//! heights become the byte strings the storage engine sorts, and the write
//! operations that make up a commit or a rollback.

use vstd::prelude::*;
use crate::bytes::{
    be_bytes, be_value, decimal, decimal_digits, extend, le_bytes, le_value,
    lemma_be_bytes_of_value, lemma_be_value_in_context, lemma_decimal_round_trip,
    lemma_le_bytes_of_value, lemma_le_value_in_context, u32_be,
    u32_from_be, u32_from_le, u32_le,
};

verus! {

/// The named partitions of the store.
#[derive(Clone, Copy, Debug, PartialEq, Eq, Structural)]
pub enum Keyspace {
    /// Schema version and compaction state, under the key `"C"`.
    Config,
    /// Header of the current tip, under the key `"T"`.
    Tip,
    /// Last committed height, under the key `"H"`.
    Height,
    /// Every version of every user key.
    State,
    /// For each height, the user keys written at it.
    Updates,
    /// Block hash of each height.
    HeightToHash,
}

impl Keyspace {
    /// The name under which the storage engine knows the partition.
    pub fn name(&self) -> (name: &'static str)
        ensures
            name@ == (match *self {
                Keyspace::Config => "config"@,
                Keyspace::Tip => "tip"@,
                Keyspace::Height => "height"@,
                Keyspace::State => "state"@,
                Keyspace::Updates => "updates"@,
                Keyspace::HeightToHash => "height-to-hash"@,
            }),
    {
        match self {
            Keyspace::Config => "config",
            Keyspace::Tip => "tip",
            Keyspace::Height => "height",
            Keyspace::State => "state",
            Keyspace::Updates => "updates",
            Keyspace::HeightToHash => "height-to-hash",
        }
    }
}

/// The key of the configuration record: `"C"`.
pub open spec fn config_key_bytes() -> Seq<u8> {
    seq![0x43u8]
}

/// The key of the tip record: `"T"`.
pub open spec fn tip_key_bytes() -> Seq<u8> {
    seq![0x54u8]
}

/// The key of the height record: `"H"`.
pub open spec fn height_key_bytes() -> Seq<u8> {
    seq![0x48u8]
}

/// The text `/__INTERNAL/height-to-hash/` that starts every block-hash key.
pub open spec fn hash_key_prefix() -> Seq<u8> {
    seq![
        0x2fu8, 0x5f, 0x5f, 0x49, 0x4e, 0x54, 0x45, 0x52, 0x4e, 0x41, 0x4c, 0x2f,
        0x68, 0x65, 0x69, 0x67, 0x68, 0x74, 0x2d, 0x74, 0x6f, 0x2d, 0x68, 0x61, 0x73, 0x68, 0x2f,
    ]
}

/// What all versions of one user key start with: the key's length as four
/// little-endian bytes, then the key.
pub open spec fn state_prefix_bytes(key: Seq<u8>) -> Seq<u8> {
    le_bytes(key.len() as u32) + key
}

/// The key of the version of `key` written at `height`: the prefix, then the
/// height as four big-endian bytes.
pub open spec fn state_key_bytes(key: Seq<u8>, height: u32) -> Seq<u8> {
    state_prefix_bytes(key) + be_bytes(height)
}

/// The key of the `id`-th entry in the list of keys written at `height`.
pub open spec fn updates_key_bytes(height: u32, id: u32) -> Seq<u8> {
    be_bytes(height) + le_bytes(id)
}

/// The key of the block hash of `height`.
pub open spec fn hash_key_bytes(height: u32) -> Seq<u8> {
    hash_key_prefix() + decimal_digits(height as nat)
}

/// The key of the configuration record.
pub fn config_key() -> (key: Vec<u8>)
    ensures
        key@ == config_key_bytes(),
{
    let mut key: Vec<u8> = Vec::new();
    key.push(0x43);
    assert(key@ =~= config_key_bytes());
    key
}

/// The key of the tip record.
pub fn tip_key() -> (key: Vec<u8>)
    ensures
        key@ == tip_key_bytes(),
{
    let mut key: Vec<u8> = Vec::new();
    key.push(0x54);
    assert(key@ =~= tip_key_bytes());
    key
}

/// The key of the height record.
pub fn height_key() -> (key: Vec<u8>)
    ensures
        key@ == height_key_bytes(),
{
    let mut key: Vec<u8> = Vec::new();
    key.push(0x48);
    assert(key@ =~= height_key_bytes());
    key
}

/// The prefix shared by all versions of `key`.
pub fn state_prefix(key: &Vec<u8>) -> (out: Vec<u8>)
    requires
        key@.len() <= u32::MAX,
    ensures
        out@ == state_prefix_bytes(key@),
{
    let mut out = u32_le(key.len() as u32);
    extend(&mut out, key);
    out
}

/// The key of the version of `key` written at `height`.
pub fn state_key(key: &Vec<u8>, height: u32) -> (out: Vec<u8>)
    requires
        key@.len() <= u32::MAX,
    ensures
        out@ == state_key_bytes(key@, height),
{
    let mut out = state_prefix(key);
    let suffix = u32_be(height);
    extend(&mut out, &suffix);
    out
}

/// The key of the `id`-th entry in the list of keys written at `height`.
pub fn updates_key(height: u32, id: u32) -> (out: Vec<u8>)
    ensures
        out@ == updates_key_bytes(height, id),
{
    let mut out = u32_be(height);
    let suffix = u32_le(id);
    extend(&mut out, &suffix);
    out
}

/// The key of the block hash of `height`.
pub fn hash_key(height: u32) -> (out: Vec<u8>)
    ensures
        out@ == hash_key_bytes(height),
{
    let mut out: Vec<u8> = Vec::new();
    out.push(0x2f);
    out.push(0x5f);
    out.push(0x5f);
    out.push(0x49);
    out.push(0x4e);
    out.push(0x54);
    out.push(0x45);
    out.push(0x52);
    out.push(0x4e);
    out.push(0x41);
    out.push(0x4c);
    out.push(0x2f);
    out.push(0x68);
    out.push(0x65);
    out.push(0x69);
    out.push(0x67);
    out.push(0x68);
    out.push(0x74);
    out.push(0x2d);
    out.push(0x74);
    out.push(0x6f);
    out.push(0x2d);
    out.push(0x68);
    out.push(0x61);
    out.push(0x73);
    out.push(0x68);
    out.push(0x2f);
    assert(out@ =~= hash_key_prefix());
    let digits = decimal(height);
    extend(&mut out, &digits);
    out
}

/// The height and the entry number that a key of the updates keyspace holds,
/// if it has the length of one.
pub fn parse_updates_key(raw: &Vec<u8>) -> (parsed: Option<(u32, u32)>)
    ensures
        parsed.is_some() == (raw@.len() == 8),
        parsed matches Some((height, id)) ==> height == be_value(raw@, 0) && id == le_value(raw@, 4)
            && raw@ == updates_key_bytes(height, id),
{
    if raw.len() != 8 {
        return None;
    }
    let height = u32_from_be(raw, 0);
    let id = u32_from_le(raw, 4);
    proof {
        lemma_be_bytes_of_value(raw@, 0);
        lemma_le_bytes_of_value(raw@, 4);
        assert(raw@ =~= raw@.subrange(0, 4) + raw@.subrange(4, 8));
    }
    Some((height, id))
}

/// The height stored in the height record, if the record has four bytes.
pub fn parse_height(raw: &Vec<u8>) -> (parsed: Option<u32>)
    ensures
        parsed.is_some() == (raw@.len() == 4),
        parsed matches Some(height) ==> raw@ == le_bytes(height),
{
    if raw.len() != 4 {
        return None;
    }
    let height = u32_from_le(raw, 0);
    proof {
        lemma_le_bytes_of_value(raw@, 0);
        assert(raw@ =~= raw@.subrange(0, 4));
    }
    Some(height)
}

/// Two versions have the same key in the state keyspace only if they are
/// versions of the same user key at the same height.
pub proof fn lemma_state_key_injective(k1: Seq<u8>, h1: u32, k2: Seq<u8>, h2: u32)
    requires
        k1.len() <= u32::MAX,
        k2.len() <= u32::MAX,
        state_key_bytes(k1, h1) == state_key_bytes(k2, h2),
    ensures
        k1 == k2,
        h1 == h2,
{
    let a = state_key_bytes(k1, h1);
    let b = state_key_bytes(k2, h2);
    let n1 = k1.len() as u32;
    let n2 = k2.len() as u32;
    assert(a =~= le_bytes(n1) + (k1 + be_bytes(h1)));
    assert(b =~= le_bytes(n2) + (k2 + be_bytes(h2)));
    lemma_le_value_in_context(Seq::empty(), n1, k1 + be_bytes(h1));
    lemma_le_value_in_context(Seq::empty(), n2, k2 + be_bytes(h2));
    assert(Seq::<u8>::empty() + le_bytes(n1) + (k1 + be_bytes(h1)) =~= a);
    assert(Seq::<u8>::empty() + le_bytes(n2) + (k2 + be_bytes(h2)) =~= b);
    assert(n1 == n2);
    assert(k1 =~= a.subrange(4, 4 + k1.len() as int));
    assert(k2 =~= b.subrange(4, 4 + k2.len() as int));
    lemma_be_value_in_context(state_prefix_bytes(k1), h1, Seq::empty());
    lemma_be_value_in_context(state_prefix_bytes(k2), h2, Seq::empty());
    assert(state_prefix_bytes(k1) + be_bytes(h1) + Seq::<u8>::empty() =~= a);
    assert(state_prefix_bytes(k2) + be_bytes(h2) + Seq::<u8>::empty() =~= b);
}

/// Two entries of the updates keyspace have the same key only if they are
/// the same entry of the same height.
pub proof fn lemma_updates_key_injective(h1: u32, i1: u32, h2: u32, i2: u32)
    requires
        updates_key_bytes(h1, i1) == updates_key_bytes(h2, i2),
    ensures
        h1 == h2,
        i1 == i2,
{
    lemma_be_value_in_context(Seq::empty(), h1, le_bytes(i1));
    lemma_be_value_in_context(Seq::empty(), h2, le_bytes(i2));
    assert(Seq::<u8>::empty() + be_bytes(h1) + le_bytes(i1) =~= updates_key_bytes(h1, i1));
    assert(Seq::<u8>::empty() + be_bytes(h2) + le_bytes(i2) =~= updates_key_bytes(h2, i2));
    lemma_le_value_in_context(be_bytes(h1), i1, Seq::empty());
    lemma_le_value_in_context(be_bytes(h2), i2, Seq::empty());
    assert(be_bytes(h1) + le_bytes(i1) + Seq::<u8>::empty() =~= updates_key_bytes(h1, i1));
    assert(be_bytes(h2) + le_bytes(i2) + Seq::<u8>::empty() =~= updates_key_bytes(h2, i2));
}

/// Two heights have the same block-hash key only if they are the same height.
pub proof fn law_hash_keys_differ(h1: u32, h2: u32)
    requires
        hash_key_bytes(h1) == hash_key_bytes(h2),
    ensures
        h1 == h2,
{
    let p = hash_key_prefix();
    let d1 = decimal_digits(h1 as nat);
    let d2 = decimal_digits(h2 as nat);
    assert(d1 =~= (p + d1).subrange(p.len() as int, (p + d1).len() as int));
    assert(d2 =~= (p + d2).subrange(p.len() as int, (p + d2).len() as int));
    lemma_decimal_round_trip(h1 as nat);
    lemma_decimal_round_trip(h2 as nat);
}

} // verus!
