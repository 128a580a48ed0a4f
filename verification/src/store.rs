//! The height-versioned key/value store: every logical key keeps the value
//! written at each height, reads see the value written at the greatest height
//! not above the height asked for, and a rollback forgets what was written
//! above a height.

use vstd::prelude::*;
use crate::bytes::{copy, same};

verus! {

/// One write: a user key and the value given to it.
#[derive(Clone, Debug, PartialEq, Eq)]
pub struct Write {
    pub key: Vec<u8>,
    pub value: Vec<u8>,
}

/// One stored version: the value that `key` was given at `height`.
struct Version {
    key: Vec<u8>,
    height: u32,
    value: Vec<u8>,
}

/// The block hash recorded for a height.
struct HashEntry {
    height: u32,
    hash: Vec<u8>,
}

/// What a store holds, as mathematics.
pub struct StoreView {
    /// The value written to a key at a height.
    pub state: Map<(Seq<u8>, u32), Seq<u8>>,
    /// The block hash recorded for a height.
    pub hashes: Map<u32, Seq<u8>>,
    /// The last committed height, absent in a fresh store.
    pub tip: Option<u32>,
}

/// The value of `key` as of `height`: the one written at the greatest height
/// not above `height`, if there is one.
pub open spec fn read_at(state: Map<(Seq<u8>, u32), Seq<u8>>, key: Seq<u8>, height: u32) -> Option<
    Seq<u8>,
>
    decreases height,
{
    if state.contains_key((key, height)) {
        Some(state[(key, height)])
    } else if height == 0 {
        None
    } else {
        read_at(state, key, (height - 1) as u32)
    }
}

/// Whether some key was written at `height`.
pub open spec fn written_at(state: Map<(Seq<u8>, u32), Seq<u8>>, height: u32) -> bool {
    exists|key: Seq<u8>| state.contains_key((key, height))
}

/// The state after the first `n` of `writes` were made at `height`, one
/// after the other.
pub open spec fn state_after_writes(
    state: Map<(Seq<u8>, u32), Seq<u8>>,
    height: u32,
    writes: Seq<Write>,
    n: nat,
) -> Map<(Seq<u8>, u32), Seq<u8>>
    decreases n,
{
    if n == 0 {
        state
    } else {
        state_after_writes(state, height, writes, (n - 1) as nat).insert(
            (writes[n - 1].key@, height),
            writes[n - 1].value@,
        )
    }
}

/// The store after the block of `height` with hash `hash` and its `writes`
/// was committed.
pub open spec fn committed(s: StoreView, height: u32, hash: Seq<u8>, writes: Seq<Write>) -> StoreView {
    StoreView {
        state: state_after_writes(s.state, height, writes, writes.len()),
        hashes: s.hashes.insert(height, hash),
        tip: Some(height),
    }
}

/// The store after a rollback to `height`: no version above `height` is
/// left, the block hash of every height above it at which something was
/// written is gone, and `height` is the tip.
pub open spec fn rolled_back(s: StoreView, height: u32) -> StoreView {
    StoreView {
        state: s.state.restrict(Set::new(|p: (Seq<u8>, u32)| p.1 <= height)),
        hashes: s.hashes.remove_keys(Set::new(|g: u32| g > height && written_at(s.state, g))),
        tip: Some(height),
    }
}

/// The store after a restart: nothing written, no block hash, no tip.
pub open spec fn restarted() -> StoreView {
    StoreView { state: Map::empty(), hashes: Map::empty(), tip: None }
}

/// The elements of `s` whose flag is set, in their order.
spec fn kept<T>(s: Seq<T>, flags: Seq<bool>) -> Seq<T>
    decreases s.len(),
{
    if s.len() == 0 {
        Seq::empty()
    } else if flags[s.len() - 1] {
        kept(s.drop_last(), flags).push(s.last())
    } else {
        kept(s.drop_last(), flags)
    }
}

/// Drops from `v` the elements whose flag is not set.
fn retain_flagged<T>(v: &mut Vec<T>, flags: &Vec<bool>)
    requires
        flags@.len() == old(v)@.len(),
    ensures
        final(v)@ == kept(old(v)@, flags@),
{
    let ghost orig = v@;
    let mut reversed: Vec<T> = Vec::new();
    while v.len() > 0
        invariant
            v@.len() <= orig.len(),
            v@ == orig.subrange(0, v@.len() as int),
            reversed@.len() == orig.len() - v@.len(),
            forall|j: int| 0 <= j < reversed@.len() ==> reversed@[j] == orig[orig.len() - 1 - j],
        decreases v@.len(),
    {
        let last = v.pop();
        match last {
            Some(x) => {
                reversed.push(x);
            },
            None => {},
        }
    }
    let ghost all = reversed@;
    assert(v@ =~= kept(orig.subrange(0, 0), flags@));
    while reversed.len() > 0
        invariant
            all.len() == orig.len(),
            flags@.len() == orig.len(),
            forall|j: int| 0 <= j < all.len() ==> all[j] == orig[orig.len() - 1 - j],
            reversed@.len() <= all.len(),
            reversed@ == all.subrange(0, reversed@.len() as int),
            v@ == kept(orig.subrange(0, orig.len() - reversed@.len()), flags@),
        decreases reversed@.len(),
    {
        let ghost k: int = orig.len() - reversed@.len();
        let next = reversed.pop();
        let keep = flags[flags.len() - reversed.len() - 1];
        proof {
            assert(orig.subrange(0, k + 1).drop_last() =~= orig.subrange(0, k));
            assert(orig.subrange(0, k + 1).last() == orig[k]);
        }
        match next {
            Some(x) => {
                if keep {
                    v.push(x);
                }
            },
            None => {},
        }
    }
    assert(orig.subrange(0, orig.len() as int) =~= orig);
}

/// The last position in `versions` that holds the version of `key` at
/// `height`, or -1.
spec fn slot_of(versions: Seq<Version>, key: Seq<u8>, height: u32) -> int
    decreases versions.len(),
{
    if versions.len() == 0 {
        -1
    } else if versions.last().key@ == key && versions.last().height == height {
        versions.len() - 1
    } else {
        slot_of(versions.drop_last(), key, height)
    }
}

/// The last position in `hashes` that holds the hash of `height`, or -1.
spec fn hash_slot_of(hashes: Seq<HashEntry>, height: u32) -> int
    decreases hashes.len(),
{
    if hashes.len() == 0 {
        -1
    } else if hashes.last().height == height {
        hashes.len() - 1
    } else {
        hash_slot_of(hashes.drop_last(), height)
    }
}

/// Whether `v` is the version of `key` at `height`.
spec fn is_version_of(v: Version, key: Seq<u8>, height: u32) -> bool {
    v.key@ == key && v.height == height
}

/// The position found holds the version looked for, and no later position
/// does.
proof fn lemma_slot_of(versions: Seq<Version>, key: Seq<u8>, height: u32)
    ensures
        -1 <= slot_of(versions, key, height) < versions.len(),
        slot_of(versions, key, height) >= 0 ==> is_version_of(
            versions[slot_of(versions, key, height)],
            key,
            height,
        ),
        forall|j: int|
            slot_of(versions, key, height) < j < versions.len() ==> !is_version_of(
                #[trigger] versions[j],
                key,
                height,
            ),
    decreases versions.len(),
{
    if versions.len() > 0 && !(versions.last().key@ == key && versions.last().height == height) {
        lemma_slot_of(versions.drop_last(), key, height);
        assert forall|j: int| slot_of(versions, key, height) < j < versions.len() implies !is_version_of(
            #[trigger] versions[j],
            key,
            height,
        ) by {
            if j < versions.len() - 1 {
                assert(versions[j] == versions.drop_last()[j]);
            }
        }
    }
}

/// The position found holds the hash looked for, and no later position
/// does.
proof fn lemma_hash_slot_of(hashes: Seq<HashEntry>, height: u32)
    ensures
        -1 <= hash_slot_of(hashes, height) < hashes.len(),
        hash_slot_of(hashes, height) >= 0 ==> hashes[hash_slot_of(hashes, height)].height == height,
        forall|j: int|
            hash_slot_of(hashes, height) < j < hashes.len() ==> (#[trigger] hashes[j]).height != height,
    decreases hashes.len(),
{
    if hashes.len() > 0 && hashes.last().height != height {
        lemma_hash_slot_of(hashes.drop_last(), height);
        assert forall|j: int| hash_slot_of(hashes, height) < j < hashes.len() implies (
        #[trigger] hashes[j]).height != height by {
            if j < hashes.len() - 1 {
                assert(hashes[j] == hashes.drop_last()[j]);
            }
        }
    }
}

/// A version is found exactly if some position holds one.
proof fn lemma_slot_found(versions: Seq<Version>, key: Seq<u8>, height: u32, j: int)
    requires
        0 <= j < versions.len(),
        is_version_of(versions[j], key, height),
    ensures
        slot_of(versions, key, height) >= j,
{
    lemma_slot_of(versions, key, height);
}

/// A version appended is found at the end; every other is found where it was.
proof fn lemma_slot_after_push(versions: Seq<Version>, v: Version, key: Seq<u8>, height: u32)
    ensures
        slot_of(versions.push(v), key, height) == (if is_version_of(v, key, height) {
            versions.len() as int
        } else {
            slot_of(versions, key, height)
        }),
{
    assert(versions.push(v).drop_last() =~= versions);
}

/// A hash appended is found at the end; every other is found where it was.
proof fn lemma_hash_slot_after_push(hashes: Seq<HashEntry>, e: HashEntry, height: u32)
    ensures
        hash_slot_of(hashes.push(e), height) == (if e.height == height {
            hashes.len() as int
        } else {
            hash_slot_of(hashes, height)
        }),
{
    assert(hashes.push(e).drop_last() =~= hashes);
}

/// After the versions above `bound` are dropped, a version at or below it is
/// found as before, and none above it is found.
proof fn lemma_slot_after_filter(
    versions: Seq<Version>,
    flags: Seq<bool>,
    bound: u32,
    key: Seq<u8>,
    height: u32,
)
    requires
        flags.len() >= versions.len(),
        forall|j: int| 0 <= j < versions.len() ==> #[trigger] flags[j] == (versions[j].height <= bound),
    ensures
        height > bound ==> slot_of(kept(versions, flags), key, height) == -1,
        height <= bound ==> (slot_of(kept(versions, flags), key, height) >= 0) == (slot_of(
            versions,
            key,
            height,
        ) >= 0),
        height <= bound && slot_of(versions, key, height) >= 0 ==> kept(versions, flags)[slot_of(
            kept(versions, flags),
            key,
            height,
        )] == versions[slot_of(versions, key, height)],
    decreases versions.len(),
{
    if versions.len() > 0 {
        let rest = versions.drop_last();
        assert forall|j: int| 0 <= j < rest.len() implies #[trigger] flags[j] == (rest[j].height
            <= bound) by {
            assert(rest[j] == versions[j]);
        }
        lemma_slot_after_filter(rest, flags, bound, key, height);
        lemma_slot_of(kept(rest, flags), key, height);
        lemma_slot_of(rest, key, height);
        if flags[versions.len() - 1] {
            lemma_slot_after_push(kept(rest, flags), versions.last(), key, height);
        }
    }
}

/// After the hashes of the heights `dropped` are dropped, the hash of any other
/// height is found as before, and none of a dropped height is found.
proof fn lemma_hash_slot_after_filter(
    hashes: Seq<HashEntry>,
    flags: Seq<bool>,
    dropped: Set<u32>,
    height: u32,
)
    requires
        flags.len() >= hashes.len(),
        forall|j: int| 0 <= j < hashes.len() ==> #[trigger] flags[j] == !dropped.contains(hashes[j].height),
    ensures
        dropped.contains(height) ==> hash_slot_of(kept(hashes, flags), height) == -1,
        !dropped.contains(height) ==> (hash_slot_of(kept(hashes, flags), height) >= 0) == (hash_slot_of(
            hashes,
            height,
        ) >= 0),
        !dropped.contains(height) && hash_slot_of(hashes, height) >= 0 ==> kept(
            hashes,
            flags,
        )[hash_slot_of(kept(hashes, flags), height)] == hashes[hash_slot_of(hashes, height)],
    decreases hashes.len(),
{
    if hashes.len() > 0 {
        let rest = hashes.drop_last();
        assert forall|j: int| 0 <= j < rest.len() implies #[trigger] flags[j] == !dropped.contains(
            rest[j].height,
        ) by {
            assert(rest[j] == hashes[j]);
        }
        lemma_hash_slot_after_filter(rest, flags, dropped, height);
        lemma_hash_slot_of(kept(rest, flags), height);
        lemma_hash_slot_of(rest, height);
        if flags[hashes.len() - 1] {
            lemma_hash_slot_after_push(kept(rest, flags), hashes.last(), height);
        }
    }
}

/// An in-memory versioned store.
pub struct Store {
    versions: Vec<Version>,
    hashes: Vec<HashEntry>,
    tip: Option<u32>,
}

impl View for Store {
    type V = StoreView;

    closed spec fn view(&self) -> StoreView {
        StoreView {
            state: Map::new(
                |p: (Seq<u8>, u32)| slot_of(self.versions@, p.0, p.1) >= 0,
                |p: (Seq<u8>, u32)| self.versions@[slot_of(self.versions@, p.0, p.1)].value@,
            ),
            hashes: Map::new(
                |g: u32| hash_slot_of(self.hashes@, g) >= 0,
                |g: u32| self.hashes@[hash_slot_of(self.hashes@, g)].hash@,
            ),
            tip: self.tip,
        }
    }
}

impl Store {
    /// A fresh store: nothing written, no block hash, no tip.
    pub fn new() -> (s: Store)
        ensures
            s@.state == Map::<(Seq<u8>, u32), Seq<u8>>::empty(),
            s@.hashes == Map::<u32, Seq<u8>>::empty(),
            s@.tip.is_none(),
    {
        let s = Store { versions: Vec::new(), hashes: Vec::new(), tip: None };
        assert(s@.state =~= Map::<(Seq<u8>, u32), Seq<u8>>::empty());
        assert(s@.hashes =~= Map::<u32, Seq<u8>>::empty());
        s
    }

    /// The last committed height, absent in a fresh store.
    pub fn height(&self) -> (tip: Option<u32>)
        ensures
            tip == self@.tip,
    {
        self.tip
    }

    /// The value of `key` as of `height`.
    pub fn get_at(&self, key: &Vec<u8>, height: u32) -> (value: Option<Vec<u8>>)
        ensures
            value.is_some() == read_at(self@.state, key@, height).is_some(),
            value matches Some(v) ==> read_at(self@.state, key@, height) == Some(v@),
    {
        let mut best: Option<usize> = None;
        let mut i: usize = 0;
        while i < self.versions.len()
            invariant
                i <= self.versions@.len(),
                best matches Some(b) ==> b < i && self.versions@[b as int].key@ == key@
                    && self.versions@[b as int].height <= height,
                forall|j: int|
                    0 <= j < i && (#[trigger] self.versions@[j]).key@ == key@ && self.versions@[j].height
                        <= height ==> (match best {
                        Some(b) => self.versions@[j].height < self.versions@[b as int].height || (
                        self.versions@[j].height == self.versions@[b as int].height && j <= b),
                        None => false,
                    }),
            decreases self.versions@.len() - i,
        {
            let v = &self.versions[i];
            if v.height <= height && same(&v.key, key) {
                let better = match best {
                    Some(b) => self.versions[b].height <= v.height,
                    None => true,
                };
                if better {
                    best = Some(i);
                }
            }
            i = i + 1;
        }
        match best {
            Some(b) => {
                proof {
                    let vs = self.versions@;
                    let g = vs[b as int].height;
                    lemma_slot_of(vs, key@, g);
                    assert(is_version_of(vs[b as int], key@, g));
                    assert(slot_of(vs, key@, g) == b);
                    assert forall|g2: u32| g < g2 <= height implies !self@.state.contains_key((key@, g2)) by {
                        lemma_slot_of(vs, key@, g2);
                    }
                    lemma_read_at_found(self@.state, key@, height, g);
                }
                Some(copy(&self.versions[b].value))
            },
            None => {
                proof {
                    let vs = self.versions@;
                    assert forall|g2: u32| g2 <= height implies !self@.state.contains_key((key@, g2)) by {
                        lemma_slot_of(vs, key@, g2);
                    }
                    lemma_read_at_absent(self@.state, key@, height);
                }
                None
            },
        }
    }

    /// The value of `key` as of the tip; absent while nothing is committed.
    pub fn get_latest(&self, key: &Vec<u8>) -> (value: Option<Vec<u8>>)
        ensures
            self@.tip matches Some(tip) ==> value.is_some() == read_at(self@.state, key@, tip).is_some(),
            self@.tip matches Some(tip) ==> (value matches Some(v) ==> read_at(self@.state, key@, tip)
                == Some(v@)),
            self@.tip.is_none() ==> value.is_none(),
    {
        match self.tip {
            Some(tip) => self.get_at(key, tip),
            None => None,
        }
    }

    /// Records `value` as the value of `key` at `height`.
    pub fn put(&mut self, key: Vec<u8>, value: Vec<u8>, height: u32)
        ensures
            final(self)@.state == old(self)@.state.insert((key@, height), value@),
            final(self)@.hashes == old(self)@.hashes,
            final(self)@.tip == old(self)@.tip,
    {
        let ghost before = self.versions@;
        let v = Version { key, height, value };
        self.versions.push(v);
        proof {
            assert forall|p: (Seq<u8>, u32)|
                (#[trigger] final(self)@.state.contains_key(p)) == old(self)@.state.insert(
                    (key@, height),
                    value@,
                ).contains_key(p) && (final(self)@.state.contains_key(p) ==> final(self)@.state[p]
                    == old(self)@.state.insert((key@, height), value@)[p]) by {
                lemma_slot_after_push(before, v, p.0, p.1);
                lemma_slot_of(before, p.0, p.1);
            }
            assert(final(self)@.state =~= old(self)@.state.insert((key@, height), value@));
        }
    }

    /// Makes `height` the tip.
    pub fn set_height(&mut self, height: u32)
        ensures
            final(self)@.tip == Some(height),
            final(self)@.state == old(self)@.state,
            final(self)@.hashes == old(self)@.hashes,
    {
        self.tip = Some(height);
    }

    /// Records `hash` as the block hash of `height`.
    pub fn record_hash(&mut self, height: u32, hash: Vec<u8>)
        ensures
            final(self)@.hashes == old(self)@.hashes.insert(height, hash@),
            final(self)@.state == old(self)@.state,
            final(self)@.tip == old(self)@.tip,
    {
        let ghost before = self.hashes@;
        let e = HashEntry { height, hash };
        self.hashes.push(e);
        proof {
            assert forall|g: u32|
                (#[trigger] final(self)@.hashes.contains_key(g)) == old(self)@.hashes.insert(
                    height,
                    hash@,
                ).contains_key(g) && (final(self)@.hashes.contains_key(g) ==> final(self)@.hashes[g]
                    == old(self)@.hashes.insert(height, hash@)[g]) by {
                lemma_hash_slot_after_push(before, e, g);
                lemma_hash_slot_of(before, g);
            }
            assert(final(self)@.hashes =~= old(self)@.hashes.insert(height, hash@));
        }
    }

    /// The block hash recorded for `height`.
    pub fn block_hash(&self, height: u32) -> (hash: Option<Vec<u8>>)
        ensures
            hash.is_some() == self@.hashes.contains_key(height),
            hash matches Some(h) ==> h@ == self@.hashes[height],
    {
        proof {
            lemma_hash_slot_of(self.hashes@, height);
        }
        let mut found: Option<usize> = None;
        let mut i: usize = 0;
        while i < self.hashes.len()
            invariant
                i <= self.hashes@.len(),
                found matches Some(f) ==> f < i && self.hashes@[f as int].height == height,
                forall|j: int|
                    (match found {
                        Some(f) => f as int,
                        None => -1,
                    }) < j < i ==> (#[trigger] self.hashes@[j]).height != height,
            decreases self.hashes@.len() - i,
        {
            if self.hashes[i].height == height {
                found = Some(i);
            }
            i = i + 1;
        }
        match found {
            Some(f) => Some(copy(&self.hashes[f].hash)),
            None => None,
        }
    }

    /// Whether some key was written at `height`.
    pub fn has_writes_at(&self, height: u32) -> (yes: bool)
        ensures
            yes == written_at(self@.state, height),
    {
        let mut i: usize = 0;
        while i < self.versions.len()
            invariant
                i <= self.versions@.len(),
                forall|j: int| 0 <= j < i ==> (#[trigger] self.versions@[j]).height != height,
            decreases self.versions@.len() - i,
        {
            if self.versions[i].height == height {
                proof {
                    let k = self.versions@[i as int].key@;
                    assert(is_version_of(self.versions@[i as int], k, height));
                    lemma_slot_found(self.versions@, k, height, i as int);
                    assert(self@.state.contains_key((k, height)));
                }
                return true;
            }
            i = i + 1;
        }
        proof {
            assert forall|k: Seq<u8>| !self@.state.contains_key((k, height)) by {
                lemma_slot_of(self.versions@, k, height);
            }
        }
        false
    }

    /// Commits a block: its writes become the values of their keys at
    /// `height`, `hash` becomes the block hash of `height`, and `height`
    /// becomes the tip.
    pub fn commit_block(&mut self, height: u32, hash: Vec<u8>, writes: Vec<Write>)
        ensures
            final(self)@ == committed(old(self)@, height, hash@, writes@),
    {
        let mut i: usize = 0;
        while i < writes.len()
            invariant
                i <= writes@.len(),
                self@.state == state_after_writes(old(self)@.state, height, writes@, i as nat),
                self@.hashes == old(self)@.hashes,
            decreases writes@.len() - i,
        {
            let key = copy(&writes[i].key);
            let value = copy(&writes[i].value);
            self.put(key, value, height);
            i = i + 1;
        }
        self.record_hash(height, hash);
        self.set_height(height);
    }

    /// Starts the store anew: forgets every version, every block hash and
    /// the tip. This is what is left to do when the stored chain shares no
    /// block with the upstream chain.
    pub fn restart(&mut self)
        ensures
            final(self)@ == restarted(),
    {
        self.versions = Vec::new();
        self.hashes = Vec::new();
        self.tip = None;
        assert(self@.state =~= restarted().state);
        assert(self@.hashes =~= restarted().hashes);
    }

    /// Rolls the store back to `height`: forgets every version written above
    /// it and the block hash of every height above it at which something was
    /// written, and makes `height` the tip.
    pub fn rollback_to(&mut self, height: u32)
        ensures
            final(self)@ == rolled_back(old(self)@, height),
    {
        let ghost dropped = Set::new(|g: u32| g > height && written_at(old(self)@.state, g));
        let mut hash_flags: Vec<bool> = Vec::new();
        let mut i: usize = 0;
        while i < self.hashes.len()
            invariant
                *self == *old(self),
                dropped == Set::new(|g: u32| g > height && written_at(old(self)@.state, g)),
                i <= self.hashes@.len(),
                hash_flags@.len() == i,
                forall|j: int|
                    0 <= j < i ==> #[trigger] hash_flags@[j] == !dropped.contains(self.hashes@[j].height),
            decreases self.hashes@.len() - i,
        {
            let g = self.hashes[i].height;
            let keep = g <= height || !self.has_writes_at(g);
            hash_flags.push(keep);
            i = i + 1;
        }
        let mut flags: Vec<bool> = Vec::new();
        let mut i: usize = 0;
        while i < self.versions.len()
            invariant
                *self == *old(self),
                i <= self.versions@.len(),
                flags@.len() == i,
                forall|j: int| 0 <= j < i ==> #[trigger] flags@[j] == (self.versions@[j].height <= height),
            decreases self.versions@.len() - i,
        {
            flags.push(self.versions[i].height <= height);
            i = i + 1;
        }
        retain_flagged(&mut self.hashes, &hash_flags);
        retain_flagged(&mut self.versions, &flags);
        self.tip = Some(height);
        proof {
            let before = old(self)@;
            let after = final(self)@;
            let target = rolled_back(before, height);
            assert forall|p: (Seq<u8>, u32)|
                (#[trigger] after.state.contains_key(p)) == target.state.contains_key(p) && (
                after.state.contains_key(p) ==> after.state[p] == target.state[p]) by {
                lemma_slot_after_filter(old(self).versions@, flags@, height, p.0, p.1);
            }
            assert(after.state =~= target.state);
            assert forall|g: u32|
                (#[trigger] after.hashes.contains_key(g)) == target.hashes.contains_key(g) && (
                after.hashes.contains_key(g) ==> after.hashes[g] == target.hashes[g]) by {
                lemma_hash_slot_after_filter(old(self).hashes@, hash_flags@, dropped, g);
            }
            assert(after.hashes =~= target.hashes);
        }
    }
}

/// A read finds the version written at `found` when nothing was written to
/// the key between `found` and the height asked for.
pub proof fn lemma_read_at_found(
    state: Map<(Seq<u8>, u32), Seq<u8>>,
    key: Seq<u8>,
    height: u32,
    found: u32,
)
    requires
        found <= height,
        state.contains_key((key, found)),
        forall|g: u32| found < g <= height ==> !state.contains_key((key, g)),
    ensures
        read_at(state, key, height) == Some(state[(key, found)]),
    decreases height,
{
    if height > found {
        lemma_read_at_found(state, key, (height - 1) as u32, found);
    }
}

/// A read finds nothing when nothing was written to the key at or below the
/// height asked for.
pub proof fn lemma_read_at_absent(state: Map<(Seq<u8>, u32), Seq<u8>>, key: Seq<u8>, height: u32)
    requires
        forall|g: u32| g <= height ==> !state.contains_key((key, g)),
    ensures
        read_at(state, key, height).is_none(),
    decreases height,
{
    if height > 0 {
        lemma_read_at_absent(state, key, (height - 1) as u32);
    }
}

} // verus!
