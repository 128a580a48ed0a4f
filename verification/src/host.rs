//! The context that the host keeps for the program between its calls: the
//! input it hands to the program, the writes the program stages, and what
//! becomes of them when the program indexes a block, answers a view, or
//! previews a block that is not committed.

use vstd::prelude::*;
use crate::bytes::{copy, extend, le_bytes, same, u32_le};
use crate::store::Write;

verus! {

/// What the program is run for.
#[derive(Clone, Copy, Debug, PartialEq, Eq, Structural)]
pub enum Mode {
    /// To index a block: its writes are committed.
    Index,
    /// To answer a view: its writes are dropped.
    View,
    /// To preview a block: its writes are kept beside the store, read before
    /// the store, and never committed.
    Preview,
}

/// What the length of an absent value reads as.
pub const ABSENT: i32 = -1;

/// Why a call of the program cannot be served.
#[derive(Clone, Copy, Debug, PartialEq, Eq, Structural)]
pub enum HostError {
    /// The bytes are more than a length of the program can say.
    TooLarge,
    /// The block of a preview cannot be laid over the store: no height
    /// follows the one given.
    BadOverlay,
}

/// The context of the host.
#[derive(Clone, Debug, PartialEq, Eq)]
pub struct Context {
    /// The bytes handed to the program: a block, or the input of a view.
    pub block: Vec<u8>,
    /// The height the program runs at.
    pub height: u32,
    /// The writes the program has staged, in their order.
    pub batch: Vec<Write>,
    /// What the program is run for.
    pub mode: Mode,
}

/// The context, as mathematics.
pub struct ContextView {
    pub block: Seq<u8>,
    pub height: u32,
    pub batch: Seq<Write>,
    pub mode: Mode,
}

impl View for Context {
    type V = ContextView;

    open spec fn view(&self) -> ContextView {
        ContextView { block: self.block@, height: self.height, batch: self.batch@, mode: self.mode }
    }
}

/// What is to be committed: the writes staged for a height.
#[derive(Clone, Debug, PartialEq, Eq)]
pub struct Commit {
    pub height: u32,
    pub writes: Vec<Write>,
}

/// The input of the program: the bytes, then the height as four
/// little-endian bytes.
pub open spec fn input_bytes(c: ContextView) -> Seq<u8> {
    c.block + le_bytes(c.height)
}

/// The value that the first `n` of `writes` give to `key`: that of the last
/// write to it among them, if there is one.
pub open spec fn staged(writes: Seq<Write>, n: nat, key: Seq<u8>) -> Option<Seq<u8>>
    decreases n,
{
    if n == 0 {
        None
    } else if writes[n - 1].key@ == key {
        Some(writes[n - 1].value@)
    } else {
        staged(writes, (n - 1) as nat, key)
    }
}

/// The value of `key` that the program sees when the store holds `stored`
/// for it at the context's height: in a preview what was staged for the key,
/// if anything, and the store's value otherwise.
pub open spec fn visible(c: ContextView, key: Seq<u8>, stored: Option<Seq<u8>>) -> Option<Seq<u8>> {
    if c.mode == Mode::Preview && staged(c.batch, c.batch.len(), key).is_some() {
        staged(c.batch, c.batch.len(), key)
    } else {
        stored
    }
}

/// The writes after the program set `key` to `value`: staged, unless the
/// program answers a view.
pub open spec fn batch_after_set(c: ContextView, key: Vec<u8>, value: Vec<u8>) -> Seq<Write> {
    if c.mode == Mode::View {
        c.batch
    } else {
        c.batch.push(Write { key, value })
    }
}

impl Context {
    /// The context for indexing `block` at `height`.
    pub fn index(block: Vec<u8>, height: u32) -> (c: Context)
        ensures
            c.block == block,
            c.height == height,
            c.batch@.len() == 0,
            c.mode == Mode::Index,
    {
        Context { block, height, batch: Vec::new(), mode: Mode::Index }
    }

    /// The context for answering a view on `input` at `height`.
    pub fn view(input: Vec<u8>, height: u32) -> (c: Context)
        ensures
            c.block == input,
            c.height == height,
            c.batch@.len() == 0,
            c.mode == Mode::View,
    {
        Context { block: input, height, batch: Vec::new(), mode: Mode::View }
    }

    /// The context for running the program over `block`, laid over the
    /// store as the block that follows `height`.
    pub fn preview(block: Vec<u8>, height: u32) -> (out: Result<Context, HostError>)
        ensures
            out.is_ok() == (height < u32::MAX),
            out matches Ok(c) ==> c.block == block && c.height == height + 1 && c.batch@.len() == 0
                && c.mode == Mode::Preview,
            out matches Err(e) ==> e == HostError::BadOverlay,
    {
        if height == u32::MAX {
            return Err(HostError::BadOverlay);
        }
        Ok(Context { block, height: height + 1, batch: Vec::new(), mode: Mode::Preview })
    }

    /// Turns the context of a preview from the block to the view that is
    /// answered over it: the view's input and height replace the block's,
    /// what the block wrote stays.
    pub fn then_view(self, input: Vec<u8>, height: u32) -> (c: Context)
        ensures
            c.block == input,
            c.height == height,
            c.batch == self.batch,
            c.mode == self.mode,
    {
        Context { block: input, height, batch: self.batch, mode: self.mode }
    }

    /// The input of the program.
    pub fn input(&self) -> (bytes: Vec<u8>)
        ensures
            bytes@ == input_bytes(self@),
    {
        let mut bytes = copy(&self.block);
        let suffix = u32_le(self.height);
        extend(&mut bytes, &suffix);
        bytes
    }

    /// The length of the input of the program.
    pub fn host_len(&self) -> (len: Result<i32, HostError>)
        ensures
            len.is_ok() == (input_bytes(self@).len() <= i32::MAX),
            len matches Ok(n) ==> n == input_bytes(self@).len(),
            len matches Err(e) ==> e == HostError::TooLarge,
    {
        if self.block.len() > (i32::MAX as usize) - 4 {
            Err(HostError::TooLarge)
        } else {
            Ok((self.block.len() + 4) as i32)
        }
    }

    /// The value of `key` that the program sees when the store holds
    /// `stored` for it at the context's height.
    pub fn get(&self, key: &Vec<u8>, stored: Option<Vec<u8>>) -> (value: Option<Vec<u8>>)
        ensures
            value.is_some() == visible(self@, key@, option_view(stored)).is_some(),
            value matches Some(v) ==> visible(self@, key@, option_view(stored)) == Some(v@),
    {
        if self.mode == Mode::Preview {
            let mut i: usize = self.batch.len();
            while i > 0
                invariant
                    self.mode == Mode::Preview,
                    i <= self.batch@.len(),
                    staged(self.batch@, self.batch@.len(), key@) == staged(self.batch@, i as nat, key@),
                decreases i,
            {
                i = i - 1;
                if same(&self.batch[i].key, key) {
                    return Some(copy(&self.batch[i].value));
                }
            }
        }
        stored
    }

    /// Stages the write of `value` to `key`, unless the program answers a
    /// view.
    pub fn set(&mut self, key: Vec<u8>, value: Vec<u8>)
        ensures
            final(self).batch@ == batch_after_set(old(self)@, key, value),
            final(self).block == old(self).block,
            final(self).height == old(self).height,
            final(self).mode == old(self).mode,
    {
        if self.mode != Mode::View {
            self.batch.push(Write { key, value });
        }
    }

    /// Ends the staging: when a block is indexed, what was staged is handed
    /// over to be committed at the context's height and the staging starts
    /// anew; for a view or a preview nothing is handed over and nothing
    /// changes.
    pub fn flush(&mut self) -> (commit: Option<Commit>)
        ensures
            commit.is_some() == (old(self).mode == Mode::Index),
            commit matches Some(c) ==> c.height == old(self).height && c.writes == old(self).batch,
            final(self).batch@ == (if old(self).mode == Mode::Index {
                Seq::<Write>::empty()
            } else {
                old(self).batch@
            }),
            final(self).block == old(self).block,
            final(self).height == old(self).height,
            final(self).mode == old(self).mode,
    {
        if self.mode == Mode::Index {
            let mut writes: Vec<Write> = Vec::new();
            std::mem::swap(&mut writes, &mut self.batch);
            Some(Commit { height: self.height, writes })
        } else {
            None
        }
    }
}

/// The value, as mathematics.
pub open spec fn option_view(value: Option<Vec<u8>>) -> Option<Seq<u8>> {
    match value {
        Some(v) => Some(v@),
        None => None,
    }
}

/// The length of a value as the program is told it: the number of its bytes,
/// or [`ABSENT`] for no value.
pub fn get_len(value: &Option<Vec<u8>>) -> (len: Result<i32, HostError>)
    ensures
        len.is_ok() == (value matches Some(v) ==> v@.len() <= i32::MAX),
        len matches Ok(n) ==> n == (match *value {
            Some(v) => v@.len() as int,
            None => ABSENT as int,
        }),
        len matches Err(e) ==> e == HostError::TooLarge,
{
    match value {
        Some(v) => {
            if v.len() > i32::MAX as usize {
                Err(HostError::TooLarge)
            } else {
                Ok(v.len() as i32)
            }
        },
        None => Ok(ABSENT),
    }
}

/// A call of the program into the host that can change what the host holds.
pub enum Call {
    /// The program sets a key.
    Stage { key: Vec<u8>, value: Vec<u8> },
    /// The program ends the staging.
    Flush,
}

/// The context after a call of the program.
pub open spec fn context_after(c: ContextView, call: Call) -> ContextView {
    match call {
        Call::Stage { key, value } => ContextView {
            block: c.block,
            height: c.height,
            batch: batch_after_set(c, key, value),
            mode: c.mode,
        },
        Call::Flush => ContextView {
            block: c.block,
            height: c.height,
            batch: if c.mode == Mode::Index {
                Seq::empty()
            } else {
                c.batch
            },
            mode: c.mode,
        },
    }
}

/// The context after the first `n` of `calls`, made one after the other from
/// the context `c`.
pub open spec fn context_during(c: ContextView, calls: Seq<Call>, n: nat) -> ContextView
    decreases n,
{
    if n == 0 {
        c
    } else {
        context_after(context_during(c, calls, (n - 1) as nat), calls[n - 1])
    }
}

/// How many commits the first `n` of `calls` hand over, made one after the
/// other from the context `c`.
pub open spec fn commits_of(c: ContextView, calls: Seq<Call>, n: nat) -> nat
    decreases n,
{
    if n == 0 {
        0
    } else {
        commits_of(c, calls, (n - 1) as nat) + (if calls[n - 1] is Flush && context_during(
            c,
            calls,
            (n - 1) as nat,
        ).mode == Mode::Index {
            1nat
        } else {
            0nat
        })
    }
}

/// Whatever the program calls while it answers a view or previews a block,
/// nothing is handed over to be committed: the store stays as it is.
pub proof fn law_views_and_previews_commit_nothing(c: ContextView, calls: Seq<Call>, n: nat)
    requires
        c.mode != Mode::Index,
        n <= calls.len(),
    ensures
        commits_of(c, calls, n) == 0,
        context_during(c, calls, n).mode == c.mode,
    decreases n,
{
    if n > 0 {
        law_views_and_previews_commit_nothing(c, calls, (n - 1) as nat);
    }
}

/// Whatever the program calls while it answers a view, it stages nothing,
/// and every key reads as the store holds it: a view is answered from the
/// store and its input alone.
pub proof fn law_view_reads_only_the_store(
    c: ContextView,
    calls: Seq<Call>,
    n: nat,
    key: Seq<u8>,
    stored: Option<Seq<u8>>,
)
    requires
        c.mode == Mode::View,
        n <= calls.len(),
    ensures
        context_during(c, calls, n) == c,
        visible(context_during(c, calls, n), key, stored) == stored,
    decreases n,
{
    if n > 0 {
        law_view_reads_only_the_store(c, calls, (n - 1) as nat, key, stored);
    }
}

} // verus!
