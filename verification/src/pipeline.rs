//! The ingestion pipeline as state machines: the scan for a reorganisation,
//! the fetcher that produces blocks, the processor that applies them in
//! order, and the supervisor that follows the results.

use vstd::prelude::*;
use crate::bytes::same;
use crate::db::Mode;
use crate::schema::parse_height;
use crate::bytes::le_bytes;

verus! {

/// Blocks this far below the upstream tip, or further, are taken as final.
pub const REORG_DEPTH: u32 = 6;

/// The pause of the fetcher after a failed fetch, in milliseconds.
pub const FETCH_RETRY_MS: u64 = 1000;

/// The pause of the supervisor after a failure of the block source, in
/// milliseconds.
pub const FAILURE_PAUSE_MS: u64 = 5000;

/// What the store is to forget before the next block is applied.
#[derive(Clone, Copy, Debug, PartialEq, Eq, Structural)]
pub enum Rewind {
    /// Nothing: the stored chain is the upstream chain.
    Nothing,
    /// What lies above this height, the last one that the stored chain and
    /// the upstream chain share.
    To(u32),
    /// Everything: the stored chain shares no block with the upstream chain,
    /// and is started again from the first height.
    Genesis,
}

/// Where the scan for a reorganisation stands.
#[derive(Clone, Copy, Debug, PartialEq, Eq, Structural)]
pub enum ScanStep {
    /// Compare the stored hash of `candidate` with the upstream one.
    Probe { candidate: u32 },
    /// The scan is over: fetch the block of `next`, after the store has
    /// forgotten what `rewind` says.
    Fetch { next: u32, rewind: Rewind },
    /// The scan is over: the last height there is is shared, nothing follows
    /// it.
    Exhausted,
}

/// How the scan for the height `next` begins while the upstream tip is
/// `tip`: a height deep below the tip is fetched as it is, any other is
/// probed.
pub open spec fn scan_first(next: u32, tip: u32) -> ScanStep {
    if next < tip - (if tip < REORG_DEPTH {
        tip
    } else {
        REORG_DEPTH
    }) {
        ScanStep::Fetch { next, rewind: Rewind::Nothing }
    } else {
        ScanStep::Probe { candidate: next }
    }
}

/// How the scan that started at `started` goes on after `candidate` was
/// probed and the two hashes agreed or not. A shared height is the common
/// ancestor: the height after it is fetched, and what lies above the
/// ancestor is forgotten if the scan had to go below where it started. A
/// height that is not shared sends the scan one height down, or, at the
/// first height, back to the start of the chain.
pub open spec fn scan_next(started: u32, candidate: u32, agree: bool) -> ScanStep {
    if agree {
        if candidate == u32::MAX {
            ScanStep::Exhausted
        } else {
            ScanStep::Fetch {
                next: (candidate + 1) as u32,
                rewind: if candidate + 1 < started {
                    Rewind::To(candidate)
                } else {
                    Rewind::Nothing
                },
            }
        }
    } else if candidate == 0 {
        ScanStep::Fetch { next: 0, rewind: Rewind::Genesis }
    } else {
        ScanStep::Probe { candidate: (candidate - 1) as u32 }
    }
}

/// Whether the stored hash `local` of a height is the upstream hash
/// `remote`. A height without a stored hash is not shared.
pub open spec fn hashes_agree(local: Option<Vec<u8>>, remote: Vec<u8>) -> bool {
    local matches Some(l) && l@ == remote@
}

/// Begins the scan for the height `next` while the upstream tip is `tip`.
pub fn scan_start(next: u32, tip: u32) -> (step: ScanStep)
    ensures
        step == scan_first(next, tip),
{
    let depth = if tip < REORG_DEPTH {
        tip
    } else {
        REORG_DEPTH
    };
    if next < tip - depth {
        ScanStep::Fetch { next, rewind: Rewind::Nothing }
    } else {
        ScanStep::Probe { candidate: next }
    }
}

/// Takes the scan that started at `started` one step further: `candidate`
/// was probed, `local` is its stored hash and `remote` its upstream hash.
pub fn scan_step(started: u32, candidate: u32, local: &Option<Vec<u8>>, remote: &Vec<u8>) -> (step:
    ScanStep)
    ensures
        step == scan_next(started, candidate, hashes_agree(*local, *remote)),
{
    let agree = match local {
        Some(l) => same(l, remote),
        None => false,
    };
    if agree {
        if candidate == u32::MAX {
            ScanStep::Exhausted
        } else if candidate + 1 < started {
            ScanStep::Fetch { next: candidate + 1, rewind: Rewind::To(candidate) }
        } else {
            ScanStep::Fetch { next: candidate + 1, rewind: Rewind::Nothing }
        }
    } else if candidate == 0 {
        ScanStep::Fetch { next: 0, rewind: Rewind::Genesis }
    } else {
        ScanStep::Probe { candidate: candidate - 1 }
    }
}

/// Where a scan ends that started at `started` and has come down to
/// `candidate`, when `shared` holds the heights whose stored hash is the
/// upstream one.
pub open spec fn scan_end(shared: Set<u32>, started: u32, candidate: u32) -> ScanStep
    decreases candidate,
{
    match scan_next(started, candidate, shared.contains(candidate)) {
        ScanStep::Probe { candidate: lower } => if lower < candidate {
            scan_end(shared, started, lower)
        } else {
            ScanStep::Exhausted
        },
        end => end,
    }
}

/// A scan ends at the greatest shared height not above the one it was at:
/// the height after it is fetched. Without a shared height the chain is
/// started again.
pub proof fn law_scan_finds_common_ancestor(shared: Set<u32>, started: u32, candidate: u32)
    requires
        candidate <= started,
    ensures
        match scan_end(shared, started, candidate) {
            ScanStep::Fetch { next, rewind: Rewind::Genesis } => next == 0 && forall|h: u32|
                h <= candidate ==> !shared.contains(h),
            ScanStep::Fetch { next, rewind } => 1 <= next <= candidate + 1 && shared.contains((next - 1) as u32)
                && (forall|h: u32| next <= h <= candidate ==> !shared.contains(h)) && rewind == (if next
                < started {
                Rewind::To((next - 1) as u32)
            } else {
                Rewind::Nothing
            }),
            ScanStep::Exhausted => candidate == u32::MAX && shared.contains(candidate),
            ScanStep::Probe { .. } => false,
        },
    decreases candidate,
{
    if !shared.contains(candidate) && candidate > 0 {
        law_scan_finds_common_ancestor(shared, started, (candidate - 1) as u32);
    }
}

/// What the height record of a store says of its tip.
#[derive(Clone, Copy, Debug, PartialEq, Eq, Structural)]
pub enum StoredTip {
    /// There is no record: nothing was committed.
    Fresh,
    /// The block of this height was committed last.
    At(u32),
    /// The record is not four bytes long: the store cannot be read.
    Unreadable,
}

/// What the height record says: no record is a fresh store, four bytes are
/// the tip, little-endian, and anything else cannot be read.
pub open spec fn tip_stored(record: Option<Vec<u8>>) -> StoredTip {
    match record {
        None => StoredTip::Fresh,
        Some(raw) => if raw@.len() == 4 {
            StoredTip::At(crate::bytes::le_value(raw@, 0) as u32)
        } else {
            StoredTip::Unreadable
        },
    }
}

/// Reads the tip off the height record of a store. A store whose tip is
/// the block it started from is no fresh store: only a store without a
/// record is.
pub fn stored_tip(record: &Option<Vec<u8>>) -> (tip: StoredTip)
    ensures
        tip == tip_stored(*record),
        tip matches StoredTip::At(height) ==> record.unwrap()@ == le_bytes(height),
{
    match record {
        None => StoredTip::Fresh,
        Some(raw) => match parse_height(raw) {
            Some(height) => {
                proof {
                    crate::bytes::lemma_le_round_trip(height);
                }
                StoredTip::At(height)
            },
            None => StoredTip::Unreadable,
        },
    }
}

/// What the fetcher does next.
#[derive(Clone, Copy, Debug, PartialEq, Eq, Structural)]
pub enum FetchPlan {
    /// Nothing more: the last height wanted was fetched.
    Stop,
    /// Scan for a reorganisation from this height, then fetch.
    Scan { from: u32 },
}

/// The fetcher: the height it fetches next and the last height wanted.
#[derive(Clone, Copy, Debug, PartialEq, Eq, Structural)]
pub struct Fetcher {
    /// The height to fetch next; none after the last height there is.
    pub next: Option<u32>,
    /// The height after which the pipeline shuts down, if any.
    pub exit_at: Option<u32>,
}

/// The fetcher of a store whose tip is `tip`: it begins behind the tip, or
/// at `start_block` in a fresh store.
pub open spec fn fetcher_at(tip: Option<u32>, start_block: u32, exit_at: Option<u32>) -> Fetcher {
    Fetcher {
        next: match tip {
            Some(h) => height_after(h),
            None => Some(start_block),
        },
        exit_at,
    }
}

/// What the fetcher does next: it stops behind the last height wanted.
pub open spec fn fetch_plan(f: Fetcher) -> FetchPlan {
    match f.next {
        Some(next) => if f.exit_at matches Some(last) && next > last {
            FetchPlan::Stop
        } else {
            FetchPlan::Scan { from: next }
        },
        None => FetchPlan::Stop,
    }
}

/// The fetcher after the block of `height` was fetched and handed on.
pub open spec fn after_fetch(f: Fetcher, height: u32) -> Fetcher {
    Fetcher { next: height_after(height), exit_at: f.exit_at }
}

impl Fetcher {
    /// The fetcher of a store whose tip is `tip`.
    pub fn new(tip: Option<u32>, start_block: u32, exit_at: Option<u32>) -> (f: Fetcher)
        ensures
            f == fetcher_at(tip, start_block, exit_at),
    {
        let next = match tip {
            Some(h) => next_height(h),
            None => Some(start_block),
        };
        Fetcher { next, exit_at }
    }

    /// What the fetcher does next.
    pub fn plan(&self) -> (plan: FetchPlan)
        ensures
            plan == fetch_plan(*self),
    {
        match self.next {
            Some(next) => {
                let past = match self.exit_at {
                    Some(last) => next > last,
                    None => false,
                };
                if past {
                    FetchPlan::Stop
                } else {
                    FetchPlan::Scan { from: next }
                }
            },
            None => FetchPlan::Stop,
        }
    }

    /// Takes note that the block of `height` was fetched and handed on: the
    /// height after it is next. After a failed fetch nothing is noted, and
    /// the same height is tried again after [`FETCH_RETRY_MS`].
    pub fn fetched(&mut self, height: u32)
        ensures
            *final(self) == after_fetch(*old(self), height),
    {
        self.next = next_height(height);
    }
}

/// What the fetcher sends to the processor.
#[derive(Clone, Debug, PartialEq, Eq)]
pub enum Message {
    /// The block of `height`.
    Block { height: u32, block: Vec<u8> },
    /// Forget what the store holds, as `rewind` says, before the next block.
    Rollback { rewind: Rewind },
}

/// What kind of failure a block met.
#[derive(Clone, Copy, Debug, PartialEq, Eq, Structural)]
pub enum Failure {
    /// The block source did not deliver.
    Upstream,
    /// The store could not be written.
    Store,
    /// The program failed twice on the block.
    Runtime,
    /// A block arrived that is not the one expected.
    OutOfOrder,
}

/// What became of a block.
#[derive(Clone, Copy, Debug, PartialEq, Eq, Structural)]
pub enum BlockResult {
    /// The block of this height is committed.
    Success(u32),
    /// The block of this height failed.
    Error(u32, Failure),
}

/// What the processor is busy with.
#[derive(Clone, Copy, Debug, PartialEq, Eq, Structural)]
pub enum Phase {
    /// Waiting for a message.
    Idle,
    /// The program runs on the block of `height`, for the second time if
    /// `retried`.
    Running { height: u32, retried: bool },
    /// The block of `height` is being committed.
    Committing { height: u32 },
    /// Stopped for good by a failure.
    Halted,
}

/// The processor: the height it expects next, what it is busy with, and how
/// the store it works on was opened.
#[derive(Clone, Copy, Debug, PartialEq, Eq, Structural)]
pub struct Processor {
    /// The height expected next; none after the last height there is.
    pub expected_next: Option<u32>,
    pub phase: Phase,
    /// How the store was opened. Over a read-only follower the processor
    /// asks for nothing that writes.
    pub mode: Mode,
}

/// What the processor has done for it.
#[derive(Clone, Copy, Debug, PartialEq, Eq, Structural)]
pub enum Task {
    /// Nothing.
    Nothing,
    /// Put the block of `height` and the height into the host's context and
    /// run the program.
    Run { height: u32 },
    /// Set the program's memory up anew, then run it again on the block of
    /// `height`.
    RefreshAndRun { height: u32 },
    /// Commit what the program wrote for `height`.
    Commit { height: u32 },
    /// Roll the store back to `height`.
    RollbackTo { height: u32 },
    /// Start the store anew: forget everything it holds.
    Restart,
    /// Catch up with the primary's files: the store is a read-only follower
    /// and takes what the primary wrote.
    CatchUp,
    /// Send this result to the supervisor.
    Report(BlockResult),
}

/// What the processor may learn.
#[derive(Clone, Copy, Debug, PartialEq, Eq, Structural)]
pub enum Event {
    /// The block of `height` arrived.
    Block { height: u32 },
    /// A rollback was asked for.
    Rollback { rewind: Rewind },
    /// The program ran through.
    RunSucceeded,
    /// The program failed, or its memory could not be set up anew.
    RunFailed,
    /// The commit is durable.
    CommitSucceeded,
    /// The store could not be written.
    StoreFailed,
}

/// The height that follows `height`, if there is one.
pub open spec fn height_after(height: u32) -> Option<u32> {
    if height < u32::MAX {
        Some((height + 1) as u32)
    } else {
        None
    }
}

/// The processor of a store whose tip is `tip`, opened in `mode`: it expects
/// the height after the tip, or `start_block` in a fresh store.
pub open spec fn processor_at(tip: Option<u32>, start_block: u32, mode: Mode) -> Processor {
    Processor {
        expected_next: match tip {
            Some(h) => height_after(h),
            None => Some(start_block),
        },
        phase: Phase::Idle,
        mode,
    }
}

/// The height expected after a rollback.
pub open spec fn expected_after(rewind: Rewind, expected: Option<u32>) -> Option<u32> {
    match rewind {
        Rewind::Nothing => expected,
        Rewind::To(height) => height_after(height),
        Rewind::Genesis => Some(0u32),
    }
}

/// What is done to the store for a rewind.
pub open spec fn rollback_task(rewind: Rewind) -> Task {
    match rewind {
        Rewind::Nothing => Task::Nothing,
        Rewind::To(height) => Task::RollbackTo { height },
        Rewind::Genesis => Task::Restart,
    }
}

/// The processor as it is but busy with `phase`, expecting `expected_next`.
pub open spec fn turned(p: Processor, expected_next: Option<u32>, phase: Phase) -> Processor {
    Processor { expected_next, phase, mode: p.mode }
}

/// The step of a processor over a read-only follower: whatever the fetcher
/// sends, the follower catches up with the primary's files; it runs nothing,
/// commits nothing and rolls nothing back.
pub open spec fn follow(p: Processor, event: Event) -> (Processor, Task) {
    match event {
        Event::Block { height } => (p, Task::CatchUp),
        Event::Rollback { rewind } => (p, Task::CatchUp),
        _ => (p, Task::Nothing),
    }
}

/// The step of the processor: what it becomes and what it has done when
/// `event` happens. A block other than the expected one halts it. The
/// program is run a second time, on fresh memory, after it failed once, and
/// a second failure halts the processor on that block. A block counts, and
/// the next is expected, when its commit is durable. An event that does not
/// fit what the processor is busy with changes nothing. Over a read-only
/// follower nothing is asked for that writes.
pub open spec fn process(p: Processor, event: Event) -> (Processor, Task) {
    if p.mode == Mode::Secondary {
        follow(p, event)
    } else {
        match (p.phase, event) {
            (Phase::Idle, Event::Block { height }) => if p.expected_next == Some(height) {
                (
                    turned(p, p.expected_next, Phase::Running { height, retried: false }),
                    Task::Run { height },
                )
            } else {
                (
                    turned(p, p.expected_next, Phase::Halted),
                    Task::Report(BlockResult::Error(height, Failure::OutOfOrder)),
                )
            },
            (Phase::Idle, Event::Rollback { rewind }) => (
                turned(p, expected_after(rewind, p.expected_next), Phase::Idle),
                rollback_task(rewind),
            ),
            (Phase::Running { height, retried }, Event::RunSucceeded) => (
                turned(p, p.expected_next, Phase::Committing { height }),
                Task::Commit { height },
            ),
            (Phase::Running { height, retried }, Event::RunFailed) => if retried {
                (
                    turned(p, p.expected_next, Phase::Halted),
                    Task::Report(BlockResult::Error(height, Failure::Runtime)),
                )
            } else {
                (
                    turned(p, p.expected_next, Phase::Running { height, retried: true }),
                    Task::RefreshAndRun { height },
                )
            },
            (Phase::Committing { height }, Event::CommitSucceeded) => (
                turned(p, height_after(height), Phase::Idle),
                Task::Report(BlockResult::Success(height)),
            ),
            (Phase::Committing { height }, Event::StoreFailed) => (
                turned(p, p.expected_next, Phase::Halted),
                Task::Report(BlockResult::Error(height, Failure::Store)),
            ),
            _ => (p, Task::Nothing),
        }
    }
}

/// The height that follows `height`, if there is one.
pub fn next_height(height: u32) -> (next: Option<u32>)
    ensures
        next == height_after(height),
{
    if height < u32::MAX {
        Some(height + 1)
    } else {
        None
    }
}

impl Processor {
    /// The processor of a store whose tip is `tip`, opened in `mode`.
    pub fn new(tip: Option<u32>, start_block: u32, mode: Mode) -> (p: Processor)
        ensures
            p == processor_at(tip, start_block, mode),
    {
        let expected_next = match tip {
            Some(h) => next_height(h),
            None => Some(start_block),
        };
        Processor { expected_next, phase: Phase::Idle, mode }
    }

    /// Takes the step for `event` and says what is to be done.
    pub fn step(&mut self, event: Event) -> (task: Task)
        ensures
            (*final(self), task) == process(*old(self), event),
    {
        if self.mode == Mode::Secondary {
            return match event {
                Event::Block { height } => Task::CatchUp,
                Event::Rollback { rewind } => Task::CatchUp,
                _ => Task::Nothing,
            };
        }
        match (self.phase, event) {
            (Phase::Idle, Event::Block { height }) => {
                let expected = match self.expected_next {
                    Some(next) => next == height,
                    None => false,
                };
                if expected {
                    self.phase = Phase::Running { height, retried: false };
                    Task::Run { height }
                } else {
                    self.phase = Phase::Halted;
                    Task::Report(BlockResult::Error(height, Failure::OutOfOrder))
                }
            },
            (Phase::Idle, Event::Rollback { rewind }) => {
                match rewind {
                    Rewind::Nothing => Task::Nothing,
                    Rewind::To(height) => {
                        self.expected_next = next_height(height);
                        Task::RollbackTo { height }
                    },
                    Rewind::Genesis => {
                        self.expected_next = Some(0);
                        Task::Restart
                    },
                }
            },
            (Phase::Running { height, retried }, Event::RunSucceeded) => {
                self.phase = Phase::Committing { height };
                Task::Commit { height }
            },
            (Phase::Running { height, retried }, Event::RunFailed) => {
                if retried {
                    self.phase = Phase::Halted;
                    Task::Report(BlockResult::Error(height, Failure::Runtime))
                } else {
                    self.phase = Phase::Running { height, retried: true };
                    Task::RefreshAndRun { height }
                }
            },
            (Phase::Committing { height }, Event::CommitSucceeded) => {
                self.expected_next = next_height(height);
                self.phase = Phase::Idle;
                Task::Report(BlockResult::Success(height))
            },
            (Phase::Committing { height }, Event::StoreFailed) => {
                self.phase = Phase::Halted;
                Task::Report(BlockResult::Error(height, Failure::Store))
            },
            _ => Task::Nothing,
        }
    }
}

/// The event that a message of the fetcher is to the processor.
pub fn event_of(message: &Message) -> (event: Event)
    ensures
        event == (match *message {
            Message::Block { height, block } => Event::Block { height },
            Message::Rollback { rewind } => Event::Rollback { rewind },
        }),
{
    match message {
        Message::Block { height, block } => Event::Block { height: *height },
        Message::Rollback { rewind } => Event::Rollback { rewind: *rewind },
    }
}

/// What the supervisor decides on a result.
#[derive(Clone, Copy, Debug, PartialEq, Eq, Structural)]
pub enum Verdict {
    /// Go on.
    Continue,
    /// Go on after this many milliseconds.
    Pause(u64),
    /// The last height wanted is committed: shut both stages down.
    Shutdown,
    /// A failure that cannot be waited out: end the process.
    Abort,
}

/// The supervisor: the latest height known to be committed, and the last
/// height wanted.
#[derive(Clone, Copy, Debug, PartialEq, Eq, Structural)]
pub struct Supervisor {
    /// The latest height whose commit is durable; views at `latest` read it.
    pub watermark: u32,
    /// The height after which the pipeline shuts down, if any.
    pub exit_at: Option<u32>,
}

/// The step of the supervisor: what it becomes and what it decides on
/// `result`. A committed height becomes the watermark, and the last height
/// wanted ends the run. A failure of the block source is waited out; any
/// other failure ends the process.
pub open spec fn supervise(s: Supervisor, result: BlockResult) -> (Supervisor, Verdict) {
    match result {
        BlockResult::Success(height) => (
            Supervisor { watermark: height, exit_at: s.exit_at },
            if s.exit_at matches Some(last) && height >= last {
                Verdict::Shutdown
            } else {
                Verdict::Continue
            },
        ),
        BlockResult::Error(height, Failure::Upstream) => (s, Verdict::Pause(FAILURE_PAUSE_MS)),
        BlockResult::Error(height, _) => (s, Verdict::Abort),
    }
}

impl Supervisor {
    /// The supervisor of a store whose tip is `tip`; the watermark of a fresh
    /// store is 0.
    pub fn new(tip: Option<u32>, exit_at: Option<u32>) -> (s: Supervisor)
        ensures
            s == (Supervisor {
                watermark: match tip {
                    Some(h) => h,
                    None => 0,
                },
                exit_at,
            }),
    {
        let watermark = match tip {
            Some(h) => h,
            None => 0,
        };
        Supervisor { watermark, exit_at }
    }

    /// Takes note of `result` and decides how to go on.
    pub fn on_result(&mut self, result: BlockResult) -> (verdict: Verdict)
        ensures
            (*final(self), verdict) == supervise(*old(self), result),
    {
        match result {
            BlockResult::Success(height) => {
                self.watermark = height;
                let last_wanted = match self.exit_at {
                    Some(last) => height >= last,
                    None => false,
                };
                if last_wanted {
                    Verdict::Shutdown
                } else {
                    Verdict::Continue
                }
            },
            BlockResult::Error(height, Failure::Upstream) => Verdict::Pause(FAILURE_PAUSE_MS),
            BlockResult::Error(height, _) => Verdict::Abort,
        }
    }
}

} // verus!
