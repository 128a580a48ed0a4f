//! What holds of every versioned store: reads after a commit, the history a
//! commit leaves untouched, and what a rollback followed by a commit amounts
//! to.

use vstd::prelude::*;
use crate::store::{
    committed, lemma_read_at_absent, lemma_read_at_found, read_at, rolled_back, state_after_writes,
    written_at, StoreView, Write,
};

verus! {

/// A block as the store sees it: the height it is committed at, its hash and
/// its writes.
pub struct Block {
    pub height: u32,
    pub hash: Seq<u8>,
    pub writes: Seq<Write>,
}

/// A store that nothing was committed to.
pub open spec fn fresh() -> StoreView {
    StoreView { state: Map::empty(), hashes: Map::empty(), tip: None }
}

/// The store after the first `n` of `blocks` were committed to `s`, one after
/// the other.
pub open spec fn replayed(s: StoreView, blocks: Seq<Block>, n: nat) -> StoreView
    decreases n,
{
    if n == 0 {
        s
    } else {
        committed(
            replayed(s, blocks, (n - 1) as nat),
            blocks[n - 1].height,
            blocks[n - 1].hash,
            blocks[n - 1].writes,
        )
    }
}

/// Whether the store holds no version above `height`.
pub open spec fn nothing_above(s: StoreView, height: u32) -> bool {
    forall|p: (Seq<u8>, u32)| s.state.contains_key(p) ==> p.1 <= height
}

/// Whether two stores hold the same block hashes up to `height`.
pub open spec fn same_hashes_up_to(a: StoreView, b: StoreView, height: u32) -> bool {
    forall|g: u32| g <= height ==> same_hash_at(a, b, g)
}

/// Whether two stores hold the same block hash for `height`, or both none.
pub open spec fn same_hash_at(a: StoreView, b: StoreView, height: u32) -> bool {
    a.hashes.contains_key(height) == b.hashes.contains_key(height) && (a.hashes.contains_key(height)
        ==> a.hashes[height] == b.hashes[height])
}

/// Writes made at a height change nothing at any other height.
pub proof fn lemma_writes_leave_other_heights(
    state: Map<(Seq<u8>, u32), Seq<u8>>,
    height: u32,
    writes: Seq<Write>,
    n: nat,
    p: (Seq<u8>, u32),
)
    requires
        p.1 != height,
    ensures
        state_after_writes(state, height, writes, n).contains_key(p) == state.contains_key(p),
        state.contains_key(p) ==> state_after_writes(state, height, writes, n)[p] == state[p],
    decreases n,
{
    if n > 0 {
        lemma_writes_leave_other_heights(state, height, writes, (n - 1) as nat, p);
    }
}

/// After the first `n` writes of a block, a key written among them holds the
/// value of its last write among them.
pub proof fn lemma_last_write_wins(
    state: Map<(Seq<u8>, u32), Seq<u8>>,
    height: u32,
    writes: Seq<Write>,
    n: nat,
    i: int,
)
    requires
        0 <= i < n,
        forall|j: int| i < j < n ==> writes[j].key@ != writes[i].key@,
    ensures
        state_after_writes(state, height, writes, n).contains_key((writes[i].key@, height)),
        state_after_writes(state, height, writes, n)[(writes[i].key@, height)] == writes[i].value@,
    decreases n,
{
    if n - 1 > i {
        lemma_last_write_wins(state, height, writes, (n - 1) as nat, i);
    }
}

/// A commit changes no read below its height.
pub proof fn law_commit_keeps_history(
    s: StoreView,
    height: u32,
    hash: Seq<u8>,
    writes: Seq<Write>,
    key: Seq<u8>,
    below: u32,
)
    requires
        below < height,
    ensures
        read_at(committed(s, height, hash, writes).state, key, below) == read_at(s.state, key, below),
    decreases below,
{
    lemma_writes_leave_other_heights(s.state, height, writes, writes.len(), (key, below));
    if below > 0 {
        law_commit_keeps_history(s, height, hash, writes, key, (below - 1) as u32);
    }
}

/// After a block is committed at `height`, a key written in it reads, at
/// `height`, as the block's last write to it; and at every height from its
/// previous write at `prev` up to `height`, as what was written at `prev`.
pub proof fn law_reads_after_commit(
    s: StoreView,
    height: u32,
    hash: Seq<u8>,
    writes: Seq<Write>,
    i: int,
    prev: u32,
    at: u32,
)
    requires
        0 <= i < writes.len(),
        forall|j: int| i < j < writes.len() ==> writes[j].key@ != writes[i].key@,
        s.state.contains_key((writes[i].key@, prev)),
        forall|g: u32| prev < g < height ==> !s.state.contains_key((writes[i].key@, g)),
        prev <= at < height,
    ensures
        read_at(committed(s, height, hash, writes).state, writes[i].key@, height) == Some(
            writes[i].value@,
        ),
        read_at(committed(s, height, hash, writes).state, writes[i].key@, at) == Some(
            s.state[(writes[i].key@, prev)],
        ),
{
    let key = writes[i].key@;
    lemma_last_write_wins(s.state, height, writes, writes.len(), i);
    law_commit_keeps_history(s, height, hash, writes, key, at);
    assert forall|g: u32| prev < g <= at implies !s.state.contains_key((key, g)) by {}
    lemma_read_at_found(s.state, key, at, prev);
}

/// A key reads as absent at every height below its first write.
pub proof fn law_absent_before_first_write(s: StoreView, key: Seq<u8>, first: u32, at: u32)
    requires
        forall|g: u32| g < first ==> !s.state.contains_key((key, g)),
        at < first,
    ensures
        read_at(s.state, key, at).is_none(),
{
    lemma_read_at_absent(s.state, key, at);
}

/// Blocks committed above `height` change neither the versions nor the block
/// hashes at or below it.
pub proof fn lemma_replay_above(s: StoreView, blocks: Seq<Block>, n: nat, height: u32)
    requires
        n <= blocks.len(),
        forall|i: int| 0 <= i < n ==> (#[trigger] blocks[i]).height > height,
    ensures
        forall|p: (Seq<u8>, u32)|
            p.1 <= height ==> (#[trigger] replayed(s, blocks, n).state.contains_key(p))
                == s.state.contains_key(p) && (s.state.contains_key(p) ==> replayed(s, blocks, n).state[p]
                == s.state[p]),
        same_hashes_up_to(replayed(s, blocks, n), s, height),
        n > 0 ==> replayed(s, blocks, n).tip == Some(blocks[n - 1].height),
    decreases n,
{
    if n > 0 {
        lemma_replay_above(s, blocks, (n - 1) as nat, height);
        let before = replayed(s, blocks, (n - 1) as nat);
        let b = blocks[n - 1];
        assert forall|p: (Seq<u8>, u32)| p.1 <= height implies (#[trigger] replayed(
            s,
            blocks,
            n,
        ).state.contains_key(p)) == s.state.contains_key(p) && (s.state.contains_key(p) ==> replayed(
            s,
            blocks,
            n,
        ).state[p] == s.state[p]) by {
            lemma_writes_leave_other_heights(before.state, b.height, b.writes, b.writes.len(), p);
        }
        assert forall|g: u32| g <= height implies same_hash_at(replayed(s, blocks, n), s, g) by {
            assert(same_hash_at(before, s, g));
        }
    }
}

/// Rolling back to `height` undoes every commit made above it: the versions
/// are those from before, `height` is the tip, and the block hashes up to
/// `height` are those from before.
pub proof fn law_rollback_undoes_commits(s: StoreView, blocks: Seq<Block>, height: u32)
    requires
        nothing_above(s, height),
        forall|i: int| 0 <= i < blocks.len() ==> (#[trigger] blocks[i]).height > height,
    ensures
        rolled_back(replayed(s, blocks, blocks.len()), height).state == s.state,
        rolled_back(replayed(s, blocks, blocks.len()), height).tip == Some(height),
        same_hashes_up_to(rolled_back(replayed(s, blocks, blocks.len()), height), s, height),
{
    let t = replayed(s, blocks, blocks.len());
    lemma_replay_above(s, blocks, blocks.len(), height);
    assert forall|p: (Seq<u8>, u32)|
        (#[trigger] rolled_back(t, height).state.contains_key(p)) == s.state.contains_key(p) && (
        s.state.contains_key(p) ==> rolled_back(t, height).state[p] == s.state[p]) by {
        if p.1 <= height {
            assert(t.state.contains_key(p) == s.state.contains_key(p));
        }
    }
    assert(rolled_back(t, height).state =~= s.state);
    assert forall|g: u32| g <= height implies same_hash_at(rolled_back(t, height), s, g) by {
        assert(same_hash_at(t, s, g));
    }
}

/// Writes take no version away.
pub proof fn lemma_writes_keep_versions(
    state: Map<(Seq<u8>, u32), Seq<u8>>,
    height: u32,
    writes: Seq<Write>,
    n: nat,
    p: (Seq<u8>, u32),
)
    requires
        state.contains_key(p),
    ensures
        state_after_writes(state, height, writes, n).contains_key(p),
    decreases n,
{
    if n > 0 {
        lemma_writes_keep_versions(state, height, writes, (n - 1) as nat, p);
    }
}

/// After a replay, the height of every block replayed that wrote something
/// is a height that was written at.
pub proof fn lemma_replay_writes_at_its_heights(s: StoreView, blocks: Seq<Block>, n: nat, i: int)
    requires
        0 <= i < n <= blocks.len(),
        blocks[i].writes.len() > 0,
    ensures
        written_at(replayed(s, blocks, n).state, blocks[i].height),
    decreases n,
{
    let b = blocks[i];
    let last = b.writes.len() - 1;
    let p = (b.writes[last].key@, b.height);
    if i == n - 1 {
        let before = replayed(s, blocks, (n - 1) as nat);
        lemma_last_write_wins(before.state, b.height, b.writes, b.writes.len(), last);
        assert(replayed(s, blocks, n).state.contains_key(p));
    } else {
        lemma_replay_writes_at_its_heights(s, blocks, (n - 1) as nat, i);
        let before = replayed(s, blocks, (n - 1) as nat);
        let key = choose|key: Seq<u8>| before.state.contains_key((key, b.height));
        let c = blocks[n - 1];
        lemma_writes_keep_versions(before.state, c.height, c.writes, c.writes.len(), (key, b.height));
        assert(replayed(s, blocks, n).state.contains_key((key, b.height)));
    }
}

/// After a replay, a block hash is there that was there before or is that
/// of a block replayed.
pub proof fn lemma_replay_hashes(s: StoreView, blocks: Seq<Block>, n: nat, g: u32)
    requires
        n <= blocks.len(),
        replayed(s, blocks, n).hashes.contains_key(g),
    ensures
        s.hashes.contains_key(g) || exists|i: int| 0 <= i < n && (#[trigger] blocks[i]).height == g,
    decreases n,
{
    if n > 0 {
        if blocks[n - 1].height != g {
            lemma_replay_hashes(s, blocks, (n - 1) as nat, g);
        }
    }
}

/// Where every block above `height` wrote something, rolling back to
/// `height` undoes them wholly: the versions, the block hashes and the tip
/// are those of the store before the blocks, at tip `height`.
pub proof fn law_rollback_undoes_writing_blocks_wholly(s: StoreView, blocks: Seq<Block>, height: u32)
    requires
        nothing_above(s, height),
        forall|g: u32| s.hashes.contains_key(g) ==> g <= height,
        forall|i: int| 0 <= i < blocks.len() ==> (#[trigger] blocks[i]).height > height,
        forall|i: int| 0 <= i < blocks.len() ==> (#[trigger] blocks[i]).writes.len() > 0,
    ensures
        rolled_back(replayed(s, blocks, blocks.len()), height).state == s.state,
        rolled_back(replayed(s, blocks, blocks.len()), height).hashes == s.hashes,
        rolled_back(replayed(s, blocks, blocks.len()), height).tip == Some(height),
{
    law_rollback_undoes_commits(s, blocks, height);
    let t = replayed(s, blocks, blocks.len());
    let r = rolled_back(t, height);
    assert forall|g: u32| (#[trigger] r.hashes.contains_key(g)) == s.hashes.contains_key(g) && (
    s.hashes.contains_key(g) ==> r.hashes[g] == s.hashes[g]) by {
        if g <= height {
            assert(same_hash_at(r, s, g));
        } else if t.hashes.contains_key(g) {
            lemma_replay_hashes(s, blocks, blocks.len(), g);
            let i = choose|i: int| 0 <= i < blocks.len() && (#[trigger] blocks[i]).height == g;
            lemma_replay_writes_at_its_heights(s, blocks, blocks.len(), i);
        }
    }
    assert(r.hashes =~= s.hashes);
}

/// A chain replayed from a fresh store, block `i` at height `i`, holds
/// nothing above its last height and has that height as its tip.
pub proof fn lemma_chain_replay(chain: Seq<Block>, n: nat)
    requires
        0 < n <= chain.len(),
        forall|i: int| 0 <= i < n ==> (#[trigger] chain[i]).height == i,
    ensures
        nothing_above(replayed(fresh(), chain, n), (n - 1) as u32),
        replayed(fresh(), chain, n).tip == Some((n - 1) as u32),
    decreases n,
{
    let s = replayed(fresh(), chain, n);
    let before = replayed(fresh(), chain, (n - 1) as nat);
    let b = chain[n - 1];
    if n > 1 {
        lemma_chain_replay(chain, (n - 1) as nat);
    }
    assert forall|p: (Seq<u8>, u32)| s.state.contains_key(p) implies p.1 <= (n - 1) as u32 by {
        if p.1 != b.height {
            lemma_writes_leave_other_heights(before.state, b.height, b.writes, b.writes.len(), p);
        }
    }
}

/// The block hash of every committed height is there: a chain replayed
/// from a fresh store, block `i` at height `i`, holds the hash of each of
/// its blocks under the block's height.
pub proof fn law_every_committed_height_has_its_hash(chain: Seq<Block>, n: nat, height: u32)
    requires
        n <= chain.len(),
        forall|i: int| 0 <= i < n ==> (#[trigger] chain[i]).height == i,
        height < n,
    ensures
        replayed(fresh(), chain, n).hashes.contains_key(height),
        replayed(fresh(), chain, n).hashes[height] == chain[height as int].hash,
    decreases n,
{
    if height < n - 1 {
        law_every_committed_height_has_its_hash(chain, (n - 1) as nat, height);
    }
}

/// A reorganisation leaves what a clean replay leaves. Take a store that
/// holds the chain up to `height`, commit any blocks above `height` to it,
/// roll it back to `height` and commit the chain's block of `height + 1`:
/// every read, the tip and the block hashes up to `height + 1` are those of a
/// fresh store to which the chain was committed from its first block to the
/// one of `height + 1`.
pub proof fn law_reorg_equals_replay(chain: Seq<Block>, stale: Seq<Block>, height: u32)
    requires
        height + 2 <= chain.len(),
        height < u32::MAX,
        forall|i: int| 0 <= i < height + 2 ==> (#[trigger] chain[i]).height == i,
        forall|i: int| 0 <= i < stale.len() ==> (#[trigger] stale[i]).height > height,
    ensures
        ({
            let base = replayed(fresh(), chain, (height + 1) as nat);
            let next = chain[height + 1];
            let reorged = committed(
                rolled_back(replayed(base, stale, stale.len()), height),
                next.height,
                next.hash,
                next.writes,
            );
            let clean = replayed(fresh(), chain, (height + 2) as nat);
            &&& reorged.state == clean.state
            &&& reorged.tip == clean.tip
            &&& same_hashes_up_to(reorged, clean, (height + 1) as u32)
            &&& forall|key: Seq<u8>, at: u32|
                read_at(reorged.state, key, at) == read_at(clean.state, key, at)
        }),
{
    let base = replayed(fresh(), chain, (height + 1) as nat);
    lemma_chain_replay(chain, (height + 1) as nat);
    law_rollback_undoes_commits(base, stale, height);
    let undone = rolled_back(replayed(base, stale, stale.len()), height);
    let next = chain[height + 1];
    let clean = replayed(fresh(), chain, (height + 2) as nat);
    assert(clean == committed(base, next.height, next.hash, next.writes));
    let reorged = committed(undone, next.height, next.hash, next.writes);
    assert forall|g: u32| g <= (height + 1) as u32 implies same_hash_at(reorged, clean, g) by {
        if g <= height {
            assert(same_hash_at(undone, base, g));
        }
    }
}

} // verus!
