//! What is handed to the storage engine: the write operations of a commit or
//! a rollback, the key to seek for a read at a height, and the reading of the
//! row that the seek found.

use vstd::prelude::*;
use crate::bytes::{be_value, copy, has_prefix, le_bytes, starts_with, u32_le};
use crate::schema::{
    hash_key, hash_key_bytes, height_key, height_key_bytes, parse_updates_key, state_key,
    state_key_bytes, state_prefix, state_prefix_bytes, updates_key, updates_key_bytes, Keyspace,
};
use crate::store::Write;

verus! {

/// One operation of an atomic write batch.
#[derive(Clone, Debug, PartialEq, Eq)]
pub enum Op {
    /// Store `value` under `key`.
    Put { space: Keyspace, key: Vec<u8>, value: Vec<u8> },
    /// Remove what is stored under `key`.
    Delete { space: Keyspace, key: Vec<u8> },
}

/// An operation, as mathematics.
pub enum OpView {
    Put { space: Keyspace, key: Seq<u8>, value: Seq<u8> },
    Delete { space: Keyspace, key: Seq<u8> },
}

impl View for Op {
    type V = OpView;

    open spec fn view(&self) -> OpView {
        match *self {
            Op::Put { space, key, value } => OpView::Put { space, key: key@, value: value@ },
            Op::Delete { space, key } => OpView::Delete { space, key: key@ },
        }
    }
}

/// A row read from the storage engine.
#[derive(Clone, Debug, PartialEq, Eq)]
pub struct Row {
    pub key: Vec<u8>,
    pub value: Vec<u8>,
}

/// Why a batch cannot be laid out.
#[derive(Clone, Copy, Debug, PartialEq, Eq, Structural)]
pub enum PlanError {
    /// A key is longer than the four-byte length field can say.
    KeyTooLong,
    /// The block has more writes than the four-byte entry number can count.
    TooManyWrites,
}

/// The operations as mathematics, in order.
pub open spec fn views(ops: Seq<Op>) -> Seq<OpView> {
    ops.map_values(|op: Op| op@)
}

/// The two operations of one write: the new version, and the entry that
/// records the key among those written at `height`.
pub open spec fn put_plan(key: Seq<u8>, value: Seq<u8>, height: u32, id: u32) -> Seq<OpView> {
    seq![
        OpView::Put { space: Keyspace::State, key: state_key_bytes(key, height), value },
        OpView::Put { space: Keyspace::Updates, key: updates_key_bytes(height, id), value: key },
    ]
}

/// The operations of the first `n` writes of a block, the `i`-th write as
/// entry `i`.
pub open spec fn writes_plan(writes: Seq<Write>, height: u32, n: nat) -> Seq<OpView>
    decreases n,
{
    if n == 0 {
        Seq::empty()
    } else {
        writes_plan(writes, height, (n - 1) as nat) + put_plan(
            writes[n - 1].key@,
            writes[n - 1].value@,
            height,
            (n - 1) as u32,
        )
    }
}

/// The operation that makes `height` the stored tip.
pub open spec fn height_plan(height: u32) -> OpView {
    OpView::Put { space: Keyspace::Height, key: height_key_bytes(), value: le_bytes(height) }
}

/// The operations of a commit: the writes, the block hash, the new tip.
pub open spec fn commit_plan(height: u32, hash: Seq<u8>, writes: Seq<Write>) -> Seq<OpView> {
    writes_plan(writes, height, writes.len()) + seq![
        OpView::Put { space: Keyspace::HeightToHash, key: hash_key_bytes(height), value: hash },
        height_plan(height),
    ]
}

/// Whether a row of the updates keyspace records a write above `floor`.
pub open spec fn is_undone(row: Row, floor: int) -> bool {
    row.key@.len() == 8 && be_value(row.key@, 0) > floor && row.value@.len() <= u32::MAX
}

/// The operations that undo the write recorded by a row of the updates
/// keyspace: remove the version, the row itself, and the block hash of the
/// row's height.
pub open spec fn undo_plan(row: Row) -> Seq<OpView> {
    let written = be_value(row.key@, 0) as u32;
    seq![
        OpView::Delete { space: Keyspace::State, key: state_key_bytes(row.value@, written) },
        OpView::Delete { space: Keyspace::Updates, key: row.key@ },
        OpView::Delete { space: Keyspace::HeightToHash, key: hash_key_bytes(written) },
    ]
}

/// The operations that undo the writes recorded above `floor` by the first
/// `n` of `rows`.
pub open spec fn undo_all(rows: Seq<Row>, floor: int, n: nat) -> Seq<OpView>
    decreases n,
{
    if n == 0 {
        Seq::empty()
    } else if is_undone(rows[n - 1], floor) {
        undo_all(rows, floor, (n - 1) as nat) + undo_plan(rows[n - 1])
    } else {
        undo_all(rows, floor, (n - 1) as nat)
    }
}

/// The operations of a rollback to `height`, given the rows of the updates
/// keyspace: undo every write recorded above `height`, then make `height`
/// the stored tip.
pub open spec fn rollback_plan(height: u32, rows: Seq<Row>) -> Seq<OpView> {
    undo_all(rows, height as int, rows.len()).push(height_plan(height))
}

/// The operations of a restart, given the rows of the updates keyspace:
/// undo every write recorded, at whatever height, then remove the stored
/// tip.
pub open spec fn restart_plan(rows: Seq<Row>) -> Seq<OpView> {
    undo_all(rows, -1, rows.len()).push(
        OpView::Delete { space: Keyspace::Height, key: height_key_bytes() },
    )
}

/// The value that a read of `key` gets from the row `found`, the greatest
/// row of the state keyspace at or below the key sought: the row's value if
/// the row is a version of `key`, nothing otherwise.
pub open spec fn value_found(key: Seq<u8>, found: Option<Row>) -> Option<Seq<u8>> {
    match found {
        Some(row) => if key.len() <= u32::MAX && has_prefix(row.key@, state_prefix_bytes(key))
            && row.key@.len() == key.len() + 8 {
            Some(row.value@)
        } else {
            None
        },
        None => None,
    }
}

/// Appends the two operations of one write to `ops`.
fn push_put(ops: &mut Vec<Op>, key: &Vec<u8>, value: &Vec<u8>, height: u32, id: u32)
    requires
        key@.len() <= u32::MAX,
    ensures
        views(final(ops)@) == views(old(ops)@) + put_plan(key@, value@, height, id),
{
    let version = Op::Put {
        space: Keyspace::State,
        key: state_key(key, height),
        value: copy(value),
    };
    let entry = Op::Put { space: Keyspace::Updates, key: updates_key(height, id), value: copy(key) };
    ops.push(version);
    ops.push(entry);
    assert(views(ops@) =~= views(old(ops)@) + put_plan(key@, value@, height, id));
}

/// The two operations of one write of `value` to `key` at `height`, recorded
/// as entry `id` among the keys written at that height.
pub fn put_ops(key: &Vec<u8>, value: &Vec<u8>, height: u32, id: u32) -> (out: Result<
    Vec<Op>,
    PlanError,
>)
    ensures
        out.is_ok() == (key@.len() <= u32::MAX),
        out matches Ok(ops) ==> views(ops@) == put_plan(key@, value@, height, id),
        out matches Err(e) ==> e == PlanError::KeyTooLong,
{
    if key.len() > u32::MAX as usize {
        return Err(PlanError::KeyTooLong);
    }
    let mut ops: Vec<Op> = Vec::new();
    push_put(&mut ops, key, value, height, id);
    assert(views(ops@) =~= put_plan(key@, value@, height, id));
    Ok(ops)
}

/// The operation that makes `height` the stored tip.
pub fn set_height_op(height: u32) -> (op: Op)
    ensures
        op@ == height_plan(height),
{
    Op::Put { space: Keyspace::Height, key: height_key(), value: u32_le(height) }
}

/// The operations of the commit of a block: its writes as versions at
/// `height` and entries of the updates keyspace, `hash` as the block hash of
/// `height`, and `height` as the stored tip. A block with more writes than an
/// entry number can count, or with a key longer than a length field can say,
/// is refused.
pub fn commit_ops(height: u32, hash: &Vec<u8>, writes: &Vec<Write>) -> (out: Result<
    Vec<Op>,
    PlanError,
>)
    ensures
        out matches Ok(ops) ==> views(ops@) == commit_plan(height, hash@, writes@),
        out.is_ok() == (writes@.len() <= u32::MAX && forall|i: int|
            0 <= i < writes@.len() ==> (#[trigger] writes@[i]).key@.len() <= u32::MAX),
        out matches Err(e) ==> e == (if writes@.len() > u32::MAX {
            PlanError::TooManyWrites
        } else {
            PlanError::KeyTooLong
        }),
{
    if writes.len() > u32::MAX as usize {
        return Err(PlanError::TooManyWrites);
    }
    let mut ops: Vec<Op> = Vec::new();
    let mut i: usize = 0;
    assert(views(ops@) =~= writes_plan(writes@, height, 0));
    while i < writes.len()
        invariant
            i <= writes@.len(),
            writes@.len() <= u32::MAX,
            views(ops@) == writes_plan(writes@, height, i as nat),
            forall|j: int| 0 <= j < i ==> (#[trigger] writes@[j]).key@.len() <= u32::MAX,
        decreases writes@.len() - i,
    {
        if writes[i].key.len() > u32::MAX as usize {
            return Err(PlanError::KeyTooLong);
        }
        push_put(&mut ops, &writes[i].key, &writes[i].value, height, i as u32);
        i = i + 1;
    }
    let ghost written = views(ops@);
    ops.push(Op::Put { space: Keyspace::HeightToHash, key: hash_key(height), value: copy(hash) });
    ops.push(set_height_op(height));
    assert(views(ops@) =~= commit_plan(height, hash@, writes@));
    Ok(ops)
}

/// Where the scan of the updates keyspace for a rollback to `height` starts:
/// at the first possible entry of the next height. There is nothing to scan
/// above the greatest height.
pub fn rollback_scan_start(height: u32) -> (start: Option<Vec<u8>>)
    ensures
        start.is_some() == (height < u32::MAX),
        start matches Some(key) ==> key@ == updates_key_bytes((height + 1) as u32, 0),
{
    if height == u32::MAX {
        None
    } else {
        Some(updates_key(height + 1, 0))
    }
}

/// The operations that undo the writes that `rows` record above `floor`, or
/// at any height without a floor.
fn undo_ops(floor: Option<u32>, rows: &Vec<Row>) -> (ops: Vec<Op>)
    ensures
        views(ops@) == undo_all(
            rows@,
            match floor {
                Some(height) => height as int,
                None => -1,
            },
            rows@.len(),
        ),
{
    let ghost bound: int = match floor {
        Some(height) => height as int,
        None => -1,
    };
    let mut ops: Vec<Op> = Vec::new();
    let mut i: usize = 0;
    assert(views(ops@) =~= undo_all(rows@, bound, 0));
    while i < rows.len()
        invariant
            i <= rows@.len(),
            bound == (match floor {
                Some(height) => height as int,
                None => -1,
            }),
            views(ops@) == undo_all(rows@, bound, i as nat),
        decreases rows@.len() - i,
    {
        let row = &rows[i];
        let ghost before = views(ops@);
        match parse_updates_key(&row.key) {
            Some((written, _id)) => {
                let above = match floor {
                    Some(height) => written > height,
                    None => true,
                };
                if above && row.value.len() <= u32::MAX as usize {
                    ops.push(Op::Delete { space: Keyspace::State, key: state_key(&row.value, written) });
                    ops.push(Op::Delete { space: Keyspace::Updates, key: copy(&row.key) });
                    ops.push(Op::Delete { space: Keyspace::HeightToHash, key: hash_key(written) });
                    assert(views(ops@) =~= before + undo_plan(*row));
                }
            },
            None => {},
        }
        i = i + 1;
    }
    ops
}

/// The operations of a rollback to `height`, given the rows that the scan of
/// the updates keyspace returned. A row that records no write above `height`
/// is passed over.
pub fn rollback_ops(height: u32, rows: &Vec<Row>) -> (ops: Vec<Op>)
    ensures
        views(ops@) == rollback_plan(height, rows@),
{
    let mut ops = undo_ops(Some(height), rows);
    ops.push(set_height_op(height));
    assert(views(ops@) =~= rollback_plan(height, rows@));
    ops
}

/// Where the scan of the updates keyspace for a restart starts: at its
/// first possible entry.
pub fn restart_scan_start() -> (start: Vec<u8>)
    ensures
        start@ == updates_key_bytes(0, 0),
{
    updates_key(0, 0)
}

/// The operations of a restart, given the rows that the scan of the whole
/// updates keyspace returned: every version recorded, its entry and the
/// block hash of its height are removed, and so is the stored tip. A row
/// that is no entry is passed over.
pub fn restart_ops(rows: &Vec<Row>) -> (ops: Vec<Op>)
    ensures
        views(ops@) == restart_plan(rows@),
{
    let mut ops = undo_ops(None, rows);
    ops.push(Op::Delete { space: Keyspace::Height, key: height_key() });
    assert(views(ops@) =~= restart_plan(rows@));
    ops
}

/// The key to seek in the state keyspace for a read of `key` at `height`:
/// the answer is the greatest row at or below it. A key too long to have
/// been written has no version to seek.
pub fn read_bound(key: &Vec<u8>, height: u32) -> (bound: Option<Vec<u8>>)
    ensures
        bound.is_some() == (key@.len() <= u32::MAX),
        bound matches Some(b) ==> b@ == state_key_bytes(key@, height),
{
    if key.len() > u32::MAX as usize {
        None
    } else {
        Some(state_key(key, height))
    }
}

/// What a read of `key` returns, given the row that the seek found: the
/// row's value if the row is a version of `key`, nothing if the seek ran
/// into the versions of another key or found no row.
pub fn value_at(key: &Vec<u8>, found: Option<Row>) -> (value: Option<Vec<u8>>)
    ensures
        value.is_some() == value_found(key@, found).is_some(),
        value matches Some(v) ==> value_found(key@, found) == Some(v@),
{
    if key.len() > u32::MAX as usize {
        return None;
    }
    match found {
        Some(row) => {
            let prefix = state_prefix(key);
            if row.key.len() >= 8 && row.key.len() - 8 == key.len() && starts_with(&row.key, &prefix) {
                Some(row.value)
            } else {
                None
            }
        },
        None => None,
    }
}

} // verus!
