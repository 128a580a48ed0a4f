//! What the planned operations do to a storage engine: a commit puts the
//! block's versions where reads find them, and a rollback takes away every
//! version above its height.

use vstd::prelude::*;
use crate::bytes::{be_value, le_bytes, lemma_be_value_in_context};
use crate::plan::{
    commit_plan, height_plan, is_undone, put_plan, restart_plan, rollback_plan, undo_all, undo_plan,
    writes_plan,
    OpView, Row,
};
use crate::plan_laws::{only_versions, versions_in, StateRows};
use crate::schema::{
    hash_key_bytes, height_key_bytes, lemma_state_key_injective, lemma_updates_key_injective,
    state_key_bytes, updates_key_bytes, Keyspace,
};
use crate::store::{committed, restarted, rolled_back, state_after_writes, StoreView, Write};

verus! {

/// What a storage engine holds: the value under each key of each keyspace.
pub type Engine = Map<(Keyspace, Seq<u8>), Seq<u8>>;

/// The engine after one operation.
pub open spec fn after_op(e: Engine, op: OpView) -> Engine {
    match op {
        OpView::Put { space, key, value } => e.insert((space, key), value),
        OpView::Delete { space, key } => e.remove((space, key)),
    }
}

/// The engine after the first `n` of `ops`, one after the other.
pub open spec fn applied(e: Engine, ops: Seq<OpView>, n: nat) -> Engine
    decreases n,
{
    if n == 0 {
        e
    } else {
        after_op(applied(e, ops, (n - 1) as nat), ops[n - 1])
    }
}

/// The engine after all of `ops`.
pub open spec fn applied_all(e: Engine, ops: Seq<OpView>) -> Engine {
    applied(e, ops, ops.len())
}

/// The rows of the state keyspace of an engine.
pub open spec fn state_rows(e: Engine) -> StateRows {
    Map::new(|raw: Seq<u8>| e.contains_key((Keyspace::State, raw)), |raw: Seq<u8>| e[(Keyspace::State, raw)])
}

/// Operations applied in two parts are applied as a whole.
pub proof fn lemma_applied_in_parts(e: Engine, first: Seq<OpView>, second: Seq<OpView>, n: nat)
    requires
        n <= second.len(),
    ensures
        applied(e, first + second, first.len() + n) == applied(applied_all(e, first), second, n),
    decreases n,
{
    if n == 0 {
        lemma_applied_prefix(e, first, second, first.len());
    } else {
        lemma_applied_in_parts(e, first, second, (n - 1) as nat);
        assert((first + second)[first.len() + n - 1] == second[n - 1]);
    }
}

/// The first operations of a sequence are applied as if nothing followed.
pub proof fn lemma_applied_prefix(e: Engine, first: Seq<OpView>, second: Seq<OpView>, n: nat)
    requires
        n <= first.len(),
    ensures
        applied(e, first + second, n) == applied(e, first, n),
    decreases n,
{
    if n > 0 {
        lemma_applied_prefix(e, first, second, (n - 1) as nat);
        assert((first + second)[n - 1] == first[n - 1]);
    }
}

/// Operations applied in two parts are applied as a whole.
pub proof fn lemma_applied_all_in_parts(e: Engine, first: Seq<OpView>, second: Seq<OpView>)
    ensures
        applied_all(e, first + second) == applied_all(applied_all(e, first), second),
{
    lemma_applied_in_parts(e, first, second, second.len());
}

/// The engine after the two operations of one write.
pub proof fn lemma_put_applied(e: Engine, key: Seq<u8>, value: Seq<u8>, height: u32, id: u32)
    ensures
        applied_all(e, put_plan(key, value, height, id)) == e.insert(
            (Keyspace::State, state_key_bytes(key, height)),
            value,
        ).insert((Keyspace::Updates, updates_key_bytes(height, id)), key),
{
    let ops = put_plan(key, value, height, id);
    assert(applied(e, ops, 0) == e);
    assert(applied(e, ops, 1) == after_op(applied(e, ops, 0), ops[0]));
    assert(applied(e, ops, 2) == after_op(applied(e, ops, 1), ops[1]));
}

/// The versions in a state keyspace after one more version is put.
pub proof fn lemma_versions_after_put(rows: StateRows, key: Seq<u8>, height: u32, value: Seq<u8>)
    requires
        key.len() <= u32::MAX,
    ensures
        versions_in(rows.insert(state_key_bytes(key, height), value)) == versions_in(rows).insert(
            (key, height),
            value,
        ),
        only_versions(rows) ==> only_versions(rows.insert(state_key_bytes(key, height), value)),
{
    let after = rows.insert(state_key_bytes(key, height), value);
    assert forall|p: (Seq<u8>, u32)|
        (#[trigger] versions_in(after).contains_key(p)) == versions_in(rows).insert(
            (key, height),
            value,
        ).contains_key(p) && (versions_in(after).contains_key(p) ==> versions_in(after)[p]
            == versions_in(rows).insert((key, height), value)[p]) by {
        if p.0.len() <= u32::MAX && state_key_bytes(p.0, p.1) == state_key_bytes(key, height) {
            lemma_state_key_injective(p.0, p.1, key, height);
        }
    }
    assert(versions_in(after) =~= versions_in(rows).insert((key, height), value));
}

/// Whether the writes can be laid out: none has a key longer than a length
/// field can say.
pub open spec fn keys_fit(writes: Seq<Write>) -> bool {
    forall|i: int| 0 <= i < writes.len() ==> (#[trigger] writes[i]).key@.len() <= u32::MAX
}

/// The engine after the operations of the first `n` writes of a block is the
/// engine after those of the first `n - 1`, with the version of the last of
/// them put and then its entry in the updates keyspace.
pub proof fn lemma_writes_step(e: Engine, writes: Seq<Write>, height: u32, n: nat)
    requires
        0 < n <= writes.len(),
    ensures
        applied_all(e, writes_plan(writes, height, n)) == applied_all(
            e,
            writes_plan(writes, height, (n - 1) as nat),
        ).insert((Keyspace::State, state_key_bytes(writes[n - 1].key@, height)), writes[n - 1].value@).insert(
            (Keyspace::Updates, updates_key_bytes(height, (n - 1) as u32)),
            writes[n - 1].key@,
        ),
{
    let m = (n - 1) as nat;
    let w = writes[n - 1];
    let step = put_plan(w.key@, w.value@, height, m as u32);
    lemma_applied_all_in_parts(e, writes_plan(writes, height, m), step);
    lemma_put_applied(applied_all(e, writes_plan(writes, height, m)), w.key@, w.value@, height, m as u32);
}

/// The operations of the first `n` writes of a block leave as versions what
/// the writes make of the versions that were there.
pub proof fn lemma_writes_make_versions(e: Engine, writes: Seq<Write>, height: u32, n: nat)
    requires
        n <= writes.len(),
        keys_fit(writes),
    ensures
        versions_in(state_rows(applied_all(e, writes_plan(writes, height, n)))) == state_after_writes(
            versions_in(state_rows(e)),
            height,
            writes,
            n,
        ),
        only_versions(state_rows(e)) ==> only_versions(
            state_rows(applied_all(e, writes_plan(writes, height, n))),
        ),
    decreases n,
{
    if n == 0 {
        assert(state_rows(applied_all(e, writes_plan(writes, height, 0))) =~= state_rows(e));
    } else {
        lemma_writes_make_versions(e, writes, height, (n - 1) as nat);
        lemma_writes_step(e, writes, height, n);
        let before = applied_all(e, writes_plan(writes, height, (n - 1) as nat));
        let after = applied_all(e, writes_plan(writes, height, n));
        let w = writes[n - 1];
        assert(state_rows(after) =~= state_rows(before).insert(state_key_bytes(w.key@, height), w.value@));
        lemma_versions_after_put(state_rows(before), w.key@, height, w.value@);
    }
}

/// The operations of the first `n` writes of a block put entries of the
/// block's height into the updates keyspace and take none away: entry `i`
/// holds the key of write `i`, and every other entry is as it was.
#[verifier::rlimit(40)]
pub proof fn lemma_writes_make_entries(e: Engine, writes: Seq<Write>, height: u32, n: nat)
    requires
        n <= writes.len() <= u32::MAX,
    ensures
        ({
            let after = applied_all(e, writes_plan(writes, height, n));
            &&& forall|raw: Seq<u8>| #[trigger]
                after.contains_key((Keyspace::Updates, raw)) ==> {
                    ||| (e.contains_key((Keyspace::Updates, raw)) && after[(Keyspace::Updates, raw)]
                        == e[(Keyspace::Updates, raw)])
                    ||| exists|i: int|
                        0 <= i < n && raw == #[trigger] updates_key_bytes(height, i as u32)
                }
            &&& forall|raw: Seq<u8>| #[trigger]
                e.contains_key((Keyspace::Updates, raw)) ==> after.contains_key((Keyspace::Updates, raw))
            &&& forall|i: int|
                0 <= i < n ==> after.contains_key(
                    (Keyspace::Updates, #[trigger] updates_key_bytes(height, i as u32)),
                ) && after[(Keyspace::Updates, updates_key_bytes(height, i as u32))] == writes[i].key@
        }),
    decreases n,
{
    if n > 0 {
        let m = (n - 1) as nat;
        lemma_writes_make_entries(e, writes, height, m);
        lemma_writes_step(e, writes, height, n);
        let before = applied_all(e, writes_plan(writes, height, m));
        let after = applied_all(e, writes_plan(writes, height, n));
        assert forall|i: int| 0 <= i < n implies after.contains_key(
            (Keyspace::Updates, #[trigger] updates_key_bytes(height, i as u32)),
        ) && after[(Keyspace::Updates, updates_key_bytes(height, i as u32))] == writes[i].key@ by {
            if i < m {
                if updates_key_bytes(height, i as u32) == updates_key_bytes(height, m as u32) {
                    lemma_updates_key_injective(height, i as u32, height, m as u32);
                }
            }
        }
        assert forall|raw: Seq<u8>| #[trigger]
            after.contains_key((Keyspace::Updates, raw)) implies {
            ||| (e.contains_key((Keyspace::Updates, raw)) && after[(Keyspace::Updates, raw)] == e[(
                Keyspace::Updates,
                raw,
            )])
            ||| exists|i: int| 0 <= i < n && raw == #[trigger] updates_key_bytes(height, i as u32)
        } by {
            if raw == updates_key_bytes(height, m as u32) {
            } else {
                assert(before.contains_key((Keyspace::Updates, raw)));
            }
        }
    }
}

/// The operations of the first `n` writes of a block put no row into the
/// state keyspace but the versions of the keys written, at the block's
/// height.
pub proof fn lemma_writes_make_no_other_row(e: Engine, writes: Seq<Write>, height: u32, n: nat)
    requires
        n <= writes.len(),
    ensures
        forall|raw: Seq<u8>| #[trigger]
            applied_all(e, writes_plan(writes, height, n)).contains_key((Keyspace::State, raw)) ==> {
                ||| e.contains_key((Keyspace::State, raw))
                ||| exists|i: int|
                    0 <= i < n && raw == state_key_bytes((#[trigger] writes[i]).key@, height)
            },
    decreases n,
{
    if n > 0 {
        let m = (n - 1) as nat;
        lemma_writes_make_no_other_row(e, writes, height, m);
        lemma_writes_step(e, writes, height, n);
        let before = applied_all(e, writes_plan(writes, height, m));
        let after = applied_all(e, writes_plan(writes, height, n));
        assert forall|raw: Seq<u8>| #[trigger]
            after.contains_key((Keyspace::State, raw)) implies {
            ||| e.contains_key((Keyspace::State, raw))
            ||| exists|i: int| 0 <= i < n && raw == state_key_bytes((#[trigger] writes[i]).key@, height)
        } by {
            if raw == state_key_bytes(writes[n - 1].key@, height) {
            } else {
                assert(before.contains_key((Keyspace::State, raw)));
            }
        }
    }
}

/// A commit puts the block where reads find it. After the operations of a
/// commit the engine holds, as versions, what the store holds after the
/// commit; the block hash under the key of the height; and the height as the
/// stored tip.
pub proof fn law_commit_plan_commits(e: Engine, height: u32, hash: Seq<u8>, writes: Seq<Write>)
    requires
        writes.len() <= u32::MAX,
        keys_fit(writes),
    ensures
        ({
            let after = applied_all(e, commit_plan(height, hash, writes));
            &&& versions_in(state_rows(after)) == state_after_writes(
                versions_in(state_rows(e)),
                height,
                writes,
                writes.len(),
            )
            &&& only_versions(state_rows(e)) ==> only_versions(state_rows(after))
            &&& after.contains_key((Keyspace::HeightToHash, hash_key_bytes(height)))
            &&& after[(Keyspace::HeightToHash, hash_key_bytes(height))] == hash
            &&& after.contains_key((Keyspace::Height, height_key_bytes()))
            &&& after[(Keyspace::Height, height_key_bytes())] == le_bytes(height)
        }),
{
    let written = writes_plan(writes, height, writes.len());
    let tail = seq![
        OpView::Put { space: Keyspace::HeightToHash, key: hash_key_bytes(height), value: hash },
        height_plan(height),
    ];
    lemma_writes_make_versions(e, writes, height, writes.len());
    lemma_applied_all_in_parts(e, written, tail);
    let before = applied_all(e, written);
    assert(applied(before, tail, 0) == before);
    assert(applied(before, tail, 1) == after_op(applied(before, tail, 0), tail[0]));
    assert(applied(before, tail, 2) == after_op(applied(before, tail, 1), tail[1]));
    let after = applied_all(e, commit_plan(height, hash, writes));
    assert(state_rows(after) =~= state_rows(before));
}

/// Whether every version above `height` has its entry in the updates
/// keyspace: an entry of the version's height that holds the version's key.
pub open spec fn indexed_above(e: Engine, height: int) -> bool {
    forall|key: Seq<u8>, at: u32|
        at > height && key.len() <= u32::MAX && #[trigger] e.contains_key(
            (Keyspace::State, state_key_bytes(key, at)),
        ) ==> exists|id: u32|
            e.contains_key((Keyspace::Updates, #[trigger] updates_key_bytes(at, id))) && e[(
                Keyspace::Updates,
                updates_key_bytes(at, id),
            )] == key
}

/// Whether nothing was committed at `height` yet: the updates keyspace has
/// no entry of that height.
pub open spec fn nothing_at(e: Engine, height: u32) -> bool {
    forall|id: u32| !e.contains_key((Keyspace::Updates, #[trigger] updates_key_bytes(height, id)))
}

/// A commit keeps the updates keyspace in step with the versions: if every
/// version above `floor` had its entry before a block was committed at a
/// height that nothing was committed at, every version above `floor` has its
/// entry after it.
#[verifier::rlimit(40)]
pub proof fn law_commit_keeps_the_index(
    e: Engine,
    floor: u32,
    height: u32,
    hash: Seq<u8>,
    writes: Seq<Write>,
)
    requires
        writes.len() <= u32::MAX,
        keys_fit(writes),
        indexed_above(e, floor as int),
        nothing_at(e, height),
    ensures
        indexed_above(applied_all(e, commit_plan(height, hash, writes)), floor as int),
{
    let written = writes_plan(writes, height, writes.len());
    let tail = seq![
        OpView::Put { space: Keyspace::HeightToHash, key: hash_key_bytes(height), value: hash },
        height_plan(height),
    ];
    lemma_writes_make_entries(e, writes, height, writes.len());
    lemma_writes_make_no_other_row(e, writes, height, writes.len());
    lemma_applied_all_in_parts(e, written, tail);
    let before = applied_all(e, written);
    assert(applied(before, tail, 0) == before);
    assert(applied(before, tail, 1) == after_op(applied(before, tail, 0), tail[0]));
    assert(applied(before, tail, 2) == after_op(applied(before, tail, 1), tail[1]));
    let after = applied_all(e, commit_plan(height, hash, writes));
    assert forall|key: Seq<u8>, at: u32|
        at > floor && key.len() <= u32::MAX && #[trigger] after.contains_key(
            (Keyspace::State, state_key_bytes(key, at)),
        ) implies exists|id: u32|
        after.contains_key((Keyspace::Updates, #[trigger] updates_key_bytes(at, id))) && after[(
            Keyspace::Updates,
            updates_key_bytes(at, id),
        )] == key by {
        let raw = state_key_bytes(key, at);
        assert(before.contains_key((Keyspace::State, raw)));
        if e.contains_key((Keyspace::State, raw)) {
            let id = choose|id: u32|
                e.contains_key((Keyspace::Updates, #[trigger] updates_key_bytes(at, id))) && e[(
                    Keyspace::Updates,
                    updates_key_bytes(at, id),
                )] == key;
            let uk = updates_key_bytes(at, id);
            assert(before.contains_key((Keyspace::Updates, uk)));
            if before[(Keyspace::Updates, uk)] != e[(Keyspace::Updates, uk)] {
                let i = choose|i: int|
                    0 <= i < writes.len() && uk == #[trigger] updates_key_bytes(height, i as u32);
                lemma_updates_key_injective(at, id, height, i as u32);
                assert(false);
            }
            assert(after.contains_key((Keyspace::Updates, updates_key_bytes(at, id))));
        } else {
            let i = choose|i: int|
                0 <= i < writes.len() && raw == state_key_bytes((#[trigger] writes[i]).key@, height);
            lemma_state_key_injective(key, at, writes[i].key@, height);
            assert(before.contains_key((Keyspace::Updates, updates_key_bytes(height, i as u32))));
            assert(after.contains_key((Keyspace::Updates, updates_key_bytes(at, i as u32))));
        }
    }
}

/// Whether `rows` holds every entry of the updates keyspace above `height`.
pub open spec fn scan_covers(e: Engine, height: int, rows: Seq<Row>) -> bool {
    forall|raw: Seq<u8>| #[trigger]
        e.contains_key((Keyspace::Updates, raw)) && raw.len() == 8 && be_value(raw, 0) > height
            ==> exists|i: int|
            0 <= i < rows.len() && (#[trigger] rows[i]).key@ == raw && rows[i].value@ == e[(
                Keyspace::Updates,
                raw,
            )]
}

/// Whether the operations of an undone row take `slot` away.
pub open spec fn undone_by(row: Row, height: int, slot: (Keyspace, Seq<u8>)) -> bool {
    is_undone(row, height) && {
        ||| slot == (Keyspace::State, state_key_bytes(row.value@, be_value(row.key@, 0) as u32))
        ||| slot == (Keyspace::Updates, row.key@)
        ||| slot == (Keyspace::HeightToHash, hash_key_bytes(be_value(row.key@, 0) as u32))
    }
}

/// What undoing the first `n` rows leaves in the engine: nothing new, and of
/// what was there all but what the rows undo.
#[verifier::rlimit(40)]
pub proof fn lemma_undo_applied(e: Engine, rows: Seq<Row>, height: int, n: nat)
    requires
        n <= rows.len(),
    ensures
        ({
            let after = applied_all(e, undo_all(rows, height, n));
            &&& forall|slot: (Keyspace, Seq<u8>)| #[trigger]
                after.contains_key(slot) ==> e.contains_key(slot) && after[slot] == e[slot]
            &&& forall|slot: (Keyspace, Seq<u8>)|
                e.contains_key(slot) && !(#[trigger] after.contains_key(slot)) ==> exists|i: int|
                    0 <= i < n && undone_by(#[trigger] rows[i], height, slot)
            &&& forall|i: int, slot: (Keyspace, Seq<u8>)|
                0 <= i < n && undone_by(#[trigger] rows[i], height, slot) ==> !(
                #[trigger] after.contains_key(slot))
        }),
    decreases n,
{
    if n > 0 {
        let m = (n - 1) as nat;
        lemma_undo_applied(e, rows, height, m);
        let before = applied_all(e, undo_all(rows, height, m));
        let row = rows[n - 1];
        if is_undone(row, height) {
            let step = undo_plan(row);
            lemma_applied_all_in_parts(e, undo_all(rows, height, m), step);
            assert(applied(before, step, 0) == before);
            assert(applied(before, step, 1) == after_op(applied(before, step, 0), step[0]));
            assert(applied(before, step, 2) == after_op(applied(before, step, 1), step[1]));
            assert(applied(before, step, 3) == after_op(applied(before, step, 2), step[2]));
            let after = applied_all(e, undo_all(rows, height, n));
            assert forall|slot: (Keyspace, Seq<u8>)|
                e.contains_key(slot) && !(#[trigger] after.contains_key(slot)) implies exists|i: int|
                0 <= i < n && undone_by(#[trigger] rows[i], height, slot) by {
                if before.contains_key(slot) {
                    assert(undone_by(rows[n - 1], height, slot));
                } else {
                    let i = choose|i: int| 0 <= i < m && undone_by(#[trigger] rows[i], height, slot);
                    assert(undone_by(rows[i], height, slot));
                }
            }
        } else {
            let after = applied_all(e, undo_all(rows, height, n));
            assert forall|slot: (Keyspace, Seq<u8>)|
                e.contains_key(slot) && !(#[trigger] after.contains_key(slot)) implies exists|i: int|
                0 <= i < n && undone_by(#[trigger] rows[i], height, slot) by {
                let i = choose|i: int| 0 <= i < m && undone_by(#[trigger] rows[i], height, slot);
                assert(undone_by(rows[i], height, slot));
            }
        }
    }
}

/// Undoing the entries above a floor takes away every version above the
/// floor and no other, and touches nothing in the height keyspace.
#[verifier::rlimit(40)]
pub proof fn lemma_undo_takes_versions(e: Engine, floor: int, rows: Seq<Row>)
    requires
        floor >= -1,
        indexed_above(e, floor),
        scan_covers(e, floor, rows),
    ensures
        ({
            let after = applied_all(e, undo_all(rows, floor, rows.len()));
            &&& versions_in(state_rows(after)) == versions_in(state_rows(e)).restrict(
                Set::new(|p: (Seq<u8>, u32)| p.1 <= floor),
            )
            &&& forall|raw: Seq<u8>|
                (#[trigger] after.contains_key((Keyspace::Height, raw))) == e.contains_key(
                    (Keyspace::Height, raw),
                )
        }),
{
    lemma_undo_applied(e, rows, floor, rows.len());
    let after = applied_all(e, undo_all(rows, floor, rows.len()));
    let kept = versions_in(state_rows(e)).restrict(Set::new(|p: (Seq<u8>, u32)| p.1 <= floor));
    assert forall|p: (Seq<u8>, u32)|
        (#[trigger] versions_in(state_rows(after)).contains_key(p)) == kept.contains_key(p) && (
        kept.contains_key(p) ==> versions_in(state_rows(after))[p] == kept[p]) by {
        let slot = (Keyspace::State, state_key_bytes(p.0, p.1));
        if p.0.len() <= u32::MAX && e.contains_key(slot) {
            if p.1 <= floor {
                if !after.contains_key(slot) {
                    let i = choose|i: int|
                        0 <= i < rows.len() && undone_by(#[trigger] rows[i], floor, slot);
                    lemma_state_key_injective(
                        p.0,
                        p.1,
                        rows[i].value@,
                        be_value(rows[i].key@, 0) as u32,
                    );
                    assert(false);
                }
            } else {
                let id = choose|id: u32|
                    e.contains_key((Keyspace::Updates, #[trigger] updates_key_bytes(p.1, id))) && e[(
                        Keyspace::Updates,
                        updates_key_bytes(p.1, id),
                    )] == p.0;
                let raw = updates_key_bytes(p.1, id);
                lemma_be_value_in_context(Seq::empty(), p.1, le_bytes(id));
                assert(Seq::<u8>::empty() + crate::bytes::be_bytes(p.1) + le_bytes(id) =~= raw);
                assert(e.contains_key((Keyspace::Updates, raw)));
                let i = choose|i: int|
                    0 <= i < rows.len() && (#[trigger] rows[i]).key@ == raw && rows[i].value@ == e[(
                        Keyspace::Updates,
                        raw,
                    )];
                assert(undone_by(rows[i], floor, slot));
                assert(!after.contains_key(slot));
            }
        }
    }
    assert(versions_in(state_rows(after)) =~= kept);
    assert forall|raw: Seq<u8>|
        (#[trigger] after.contains_key((Keyspace::Height, raw))) == e.contains_key(
            (Keyspace::Height, raw),
        ) by {
        let slot = (Keyspace::Height, raw);
        if e.contains_key(slot) && !after.contains_key(slot) {
            let i = choose|i: int| 0 <= i < rows.len() && undone_by(#[trigger] rows[i], floor, slot);
            assert(false);
        }
    }
}

/// A rollback takes away every version above its height and no other. In an
/// engine in which every version above `height` has its entry in the updates
/// keyspace, the operations of a rollback to `height`, planned from a scan
/// that holds every such entry, leave the versions at or below `height` as
/// they were and none above it, and make `height` the stored tip.
pub proof fn law_rollback_plan_rolls_back(e: Engine, height: u32, rows: Seq<Row>)
    requires
        indexed_above(e, height as int),
        scan_covers(e, height as int, rows),
    ensures
        ({
            let after = applied_all(e, rollback_plan(height, rows));
            &&& versions_in(state_rows(after)) == versions_in(state_rows(e)).restrict(
                Set::new(|p: (Seq<u8>, u32)| p.1 <= height),
            )
            &&& after.contains_key((Keyspace::Height, height_key_bytes()))
            &&& after[(Keyspace::Height, height_key_bytes())] == le_bytes(height)
        }),
{
    let undone = undo_all(rows, height as int, rows.len());
    let tail = seq![height_plan(height)];
    assert(rollback_plan(height, rows) =~= undone + tail);
    lemma_undo_takes_versions(e, height as int, rows);
    lemma_applied_all_in_parts(e, undone, tail);
    let before = applied_all(e, undone);
    assert(applied(before, tail, 0) == before);
    assert(applied(before, tail, 1) == after_op(applied(before, tail, 0), tail[0]));
    let after = applied_all(e, rollback_plan(height, rows));
    assert(state_rows(after) =~= state_rows(before));
    assert(Set::new(|p: (Seq<u8>, u32)| p.1 <= height as int) =~= Set::new(
        |p: (Seq<u8>, u32)| p.1 <= height,
    ));
}

/// A restart leaves nothing. In an engine in which every version has its
/// entry in the updates keyspace, the operations of a restart, planned from
/// a scan that holds every entry, leave no version and no stored tip: the
/// engine then holds what a store holds that nothing was committed to.
pub proof fn law_restart_plan_leaves_nothing(e: Engine, rows: Seq<Row>)
    requires
        indexed_above(e, -1),
        scan_covers(e, -1, rows),
    ensures
        ({
            let after = applied_all(e, restart_plan(rows));
            &&& versions_in(state_rows(after)) == Map::<(Seq<u8>, u32), Seq<u8>>::empty()
            &&& !after.contains_key((Keyspace::Height, height_key_bytes()))
        }),
{
    let undone = undo_all(rows, -1, rows.len());
    let tail = seq![OpView::Delete { space: Keyspace::Height, key: height_key_bytes() }];
    assert(restart_plan(rows) =~= undone + tail);
    lemma_undo_takes_versions(e, -1, rows);
    lemma_applied_all_in_parts(e, undone, tail);
    let before = applied_all(e, undone);
    assert(applied(before, tail, 0) == before);
    assert(applied(before, tail, 1) == after_op(applied(before, tail, 0), tail[0]));
    let after = applied_all(e, restart_plan(rows));
    assert(state_rows(after) =~= state_rows(before));
    assert(versions_in(state_rows(after)) =~= Map::<(Seq<u8>, u32), Seq<u8>>::empty());
}

/// Whether the engine holds, as versions, what the store holds.
pub open spec fn holds(e: Engine, s: StoreView) -> bool {
    versions_in(state_rows(e)) == s.state
}

/// An engine that is written by the planned operations follows the store: if
/// it holds what the store holds, it holds after the operations of a commit
/// what the store holds after the commit, after the operations of a
/// rollback what the store holds after the rollback, and after those of a
/// restart what a restarted store holds. Every read at a height
/// that a seek in the engine answers is therefore a read of the store.
pub proof fn law_engine_follows_the_store(
    e: Engine,
    s: StoreView,
    height: u32,
    hash: Seq<u8>,
    writes: Seq<Write>,
    rows: Seq<Row>,
)
    requires
        holds(e, s),
    ensures
        writes.len() <= u32::MAX && keys_fit(writes) ==> holds(
            applied_all(e, commit_plan(height, hash, writes)),
            committed(s, height, hash, writes),
        ),
        indexed_above(e, height as int) && scan_covers(e, height as int, rows) ==> holds(
            applied_all(e, rollback_plan(height, rows)),
            rolled_back(s, height),
        ),
        indexed_above(e, -1) && scan_covers(e, -1, rows) ==> holds(
            applied_all(e, restart_plan(rows)),
            restarted(),
        ),
{
    if writes.len() <= u32::MAX && keys_fit(writes) {
        law_commit_plan_commits(e, height, hash, writes);
    }
    if indexed_above(e, height as int) && scan_covers(e, height as int, rows) {
        law_rollback_plan_rolls_back(e, height, rows);
    }
    if indexed_above(e, -1) && scan_covers(e, -1, rows) {
        law_restart_plan_leaves_nothing(e, rows);
    }
}

} // verus!
