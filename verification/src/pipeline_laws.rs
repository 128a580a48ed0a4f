//! What holds of a whole run of the pipeline over a block source that never
//! fails and never changes its chain.

use vstd::prelude::*;
use crate::db::Mode;
use crate::pipeline::{
    after_fetch, fetch_plan, fetcher_at, height_after, process, processor_at, scan_end, supervise,
    BlockResult, Event, FetchPlan, Fetcher, Phase, Processor, Rewind, ScanStep, Supervisor, Task,
    Verdict,
};

verus! {

/// The pipeline between two blocks.
pub struct Run {
    pub fetcher: Fetcher,
    pub processor: Processor,
    pub supervisor: Supervisor,
    /// The heights committed so far, in the order of their commits.
    pub committed: Seq<u32>,
    /// The heights whose stored block hash is the upstream one.
    pub shared: Set<u32>,
    /// What the supervisor decided last.
    pub verdict: Verdict,
}

/// The pipeline on a fresh store that is to index from the first height to
/// `exit_at`.
pub open spec fn run_start(exit_at: u32) -> Run {
    Run {
        fetcher: fetcher_at(None, 0, Some(exit_at)),
        processor: processor_at(None, 0, Mode::Primary),
        supervisor: Supervisor { watermark: 0, exit_at: Some(exit_at) },
        committed: Seq::empty(),
        shared: Set::empty(),
        verdict: Verdict::Continue,
    }
}

/// The pipeline after one more block went through it: the fetcher scans
/// from its next height, the block source delivers the block that the scan
/// asks for and its hash is recorded, the processor rolls back as the scan
/// says, runs the program on the block and commits, and the supervisor takes
/// the result. A fetcher that has stopped leaves the pipeline as it is.
pub open spec fn round(r: Run) -> Run {
    match fetch_plan(r.fetcher) {
        FetchPlan::Stop => r,
        FetchPlan::Scan { from } => match scan_end(r.shared, from, from) {
            ScanStep::Fetch { next, rewind } => {
                let rolled = process(r.processor, Event::Rollback { rewind });
                let started = process(rolled.0, Event::Block { height: next });
                let ran = process(started.0, Event::RunSucceeded);
                let done = process(ran.0, Event::CommitSucceeded);
                let judged = match done.1 {
                    Task::Report(result) => supervise(r.supervisor, result),
                    _ => (r.supervisor, r.verdict),
                };
                Run {
                    fetcher: after_fetch(r.fetcher, next),
                    processor: done.0,
                    supervisor: judged.0,
                    committed: match ran.1 {
                        Task::Commit { height } => r.committed.push(height),
                        _ => r.committed,
                    },
                    shared: r.shared.insert(next),
                    verdict: judged.1,
                }
            },
            _ => r,
        },
    }
}

/// The pipeline after `n` rounds.
pub open spec fn rounds(r: Run, n: nat) -> Run
    decreases n,
{
    if n == 0 {
        r
    } else {
        round(rounds(r, (n - 1) as nat))
    }
}

/// The heights from the first one up to, not including, `n`.
pub open spec fn heights_below(n: nat) -> Seq<u32> {
    Seq::new(n, |i: int| i as u32)
}

/// After `n` rounds, none of them beyond the last height wanted, the
/// heights below `n` are committed, each once and in order.
pub proof fn lemma_rounds(exit_at: u32, n: nat)
    requires
        n <= exit_at + 1,
    ensures
        ({
            let r = rounds(run_start(exit_at), n);
            &&& r.committed == heights_below(n)
            &&& r.shared == Set::new(|h: u32| h < n)
            &&& r.fetcher == (Fetcher {
                next: if n <= u32::MAX {
                    Some(n as u32)
                } else {
                    None
                },
                exit_at: Some(exit_at),
            })
            &&& r.processor == (Processor {
                expected_next: if n <= u32::MAX {
                    Some(n as u32)
                } else {
                    None
                },
                phase: Phase::Idle,
                mode: Mode::Primary,
            })
            &&& r.supervisor.exit_at == Some(exit_at)
            &&& n > 0 ==> r.supervisor.watermark == n - 1
            &&& r.verdict == (if n == exit_at + 1 {
                Verdict::Shutdown
            } else {
                Verdict::Continue
            })
        }),
    decreases n,
{
    if n == 0 {
        assert(run_start(exit_at).shared =~= Set::new(|h: u32| h < 0));
        assert(run_start(exit_at).committed =~= heights_below(0));
    } else {
        lemma_rounds(exit_at, (n - 1) as nat);
        let before = rounds(run_start(exit_at), (n - 1) as nat);
        let from = (n - 1) as u32;
        assert(fetch_plan(before.fetcher) == FetchPlan::Scan { from });
        if from == 0 {
            assert(scan_end(before.shared, from, from) == ScanStep::Fetch {
                next: 0,
                rewind: Rewind::Genesis,
            });
        } else {
            let below = (from - 1) as u32;
            assert(before.shared.contains(below));
            assert(!before.shared.contains(from));
            assert(scan_end(before.shared, from, below) == ScanStep::Fetch {
                next: from,
                rewind: Rewind::Nothing,
            });
            assert(scan_end(before.shared, from, from) == ScanStep::Fetch {
                next: from,
                rewind: Rewind::Nothing,
            });
        }
        let after = round(before);
        assert(after.shared =~= Set::new(|h: u32| h < n));
        assert(after.committed =~= heights_below(n));
    }
}

/// Over a block source that never fails and never changes its chain, a
/// pipeline started on a fresh store with a last height wanted commits every
/// height from the first to that one exactly once and in order, reports that
/// height as its tip, shuts down on it, and fetches nothing after it.
pub proof fn law_run_commits_each_height_once(exit_at: u32, more: nat)
    ensures
        ({
            let end = rounds(run_start(exit_at), (exit_at + 1 + more) as nat);
            &&& end.committed == heights_below((exit_at + 1) as nat)
            &&& end.supervisor.watermark == exit_at
            &&& end.verdict == Verdict::Shutdown
            &&& fetch_plan(end.fetcher) == FetchPlan::Stop
        }),
    decreases more,
{
    if more == 0 {
        lemma_rounds(exit_at, (exit_at + 1) as nat);
    } else {
        law_run_commits_each_height_once(exit_at, (more - 1) as nat);
    }
}

/// Before the last height wanted is committed the pipeline neither shuts
/// down nor stops fetching.
pub proof fn law_run_goes_on_until_the_last_height(exit_at: u32, n: nat)
    requires
        n <= exit_at,
    ensures
        rounds(run_start(exit_at), n).verdict == Verdict::Continue,
        fetch_plan(rounds(run_start(exit_at), n).fetcher) == (FetchPlan::Scan { from: n as u32 }),
{
    lemma_rounds(exit_at, n);
}

/// The processor after the first `n` of `events`.
pub open spec fn after_events(p: Processor, events: Seq<Event>, n: nat) -> Processor
    decreases n,
{
    if n == 0 {
        p
    } else {
        process(after_events(p, events, (n - 1) as nat), events[n - 1]).0
    }
}

/// The heights that the processor reports as committed during the first `n`
/// of `events`, in the order of the reports.
pub open spec fn successes(p: Processor, events: Seq<Event>, n: nat) -> Seq<u32>
    decreases n,
{
    if n == 0 {
        Seq::empty()
    } else {
        let before = successes(p, events, (n - 1) as nat);
        match process(after_events(p, events, (n - 1) as nat), events[n - 1]).1 {
            Task::Report(BlockResult::Success(height)) => before.push(height),
            _ => before,
        }
    }
}

/// Whether the processor, if it is busy with a block, is busy with the one
/// it expects.
pub open spec fn in_step(p: Processor) -> bool {
    match p.phase {
        Phase::Running { height, retried } => p.expected_next == Some(height),
        Phase::Committing { height } => p.expected_next == Some(height),
        _ => true,
    }
}

/// Blocks are committed in ascending order of height and without a gap.
/// Whatever happens to a processor, as long as no rollback is asked for:
/// the heights it reports as committed are the one it expected first and
/// those that follow it, each once; and it then expects the height after the
/// last one committed.
pub proof fn law_commits_ascend_without_gaps(p: Processor, events: Seq<Event>, n: nat)
    requires
        in_step(p),
        n <= events.len(),
        forall|i: int| 0 <= i < n ==> !((#[trigger] events[i]) is Rollback),
    ensures
        ({
            let committed = successes(p, events, n);
            let after = after_events(p, events, n);
            &&& in_step(after)
            &&& forall|i: int|
                0 <= i < committed.len() ==> p.expected_next.is_some() && #[trigger] committed[i]
                    == p.expected_next.unwrap() + i
            &&& after.expected_next == (if committed.len() == 0 {
                p.expected_next
            } else {
                height_after(committed.last())
            })
        }),
    decreases n,
{
    if n > 0 {
        law_commits_ascend_without_gaps(p, events, (n - 1) as nat);
        let before = successes(p, events, (n - 1) as nat);
        let committed = successes(p, events, n);
        assert forall|i: int| 0 <= i < committed.len() implies p.expected_next.is_some()
            && #[trigger] committed[i] == p.expected_next.unwrap() + i by {
            if i < before.len() {
                assert(committed[i] == before[i]);
            }
        }
    }
}

/// A rollback sets what is expected: after the store was rolled back to a
/// common ancestor, the block that follows the ancestor is the only one
/// that the processor takes.
pub proof fn law_rollback_expects_the_block_after_the_ancestor(
    p: Processor,
    ancestor: u32,
    height: u32,
)
    requires
        p.phase == Phase::Idle,
        p.mode == Mode::Primary,
    ensures
        ({
            let rolled = process(p, Event::Rollback { rewind: Rewind::To(ancestor) });
            &&& rolled.1 == Task::RollbackTo { height: ancestor }
            &&& (process(rolled.0, Event::Block { height }).1 == Task::Run { height }) == (ancestor
                < u32::MAX && height == ancestor + 1)
        }),
{
}

/// Whether a task writes to the store.
pub open spec fn writes_to_the_store(task: Task) -> bool {
    task is Run || task is RefreshAndRun || task is Commit || task is RollbackTo || task is Restart
}

/// A read-only follower never writes. Whatever happens to a processor over
/// a store that was opened as a follower, it asks for no run, no commit, no
/// rollback and no restart, and it stays as it is: the follower catches up
/// with what the primary wrote.
pub proof fn law_follower_never_writes(p: Processor, events: Seq<Event>, n: nat)
    requires
        p.mode == Mode::Secondary,
        n <= events.len(),
    ensures
        after_events(p, events, n) == p,
        forall|i: int|
            0 <= i < n ==> !writes_to_the_store(
                process(after_events(p, events, i as nat), #[trigger] events[i]).1,
            ),
    decreases n,
{
    if n > 0 {
        law_follower_never_writes(p, events, (n - 1) as nat);
        assert forall|i: int| 0 <= i < n implies !writes_to_the_store(
            process(after_events(p, events, i as nat), #[trigger] events[i]).1,
        ) by {
            law_follower_never_writes(p, events, i as nat);
        }
    }
}

/// When the stored chain shares no block with the upstream chain, the store
/// is started anew and the first height is the one expected.
pub proof fn law_no_common_block_restarts(p: Processor)
    requires
        p.phase == Phase::Idle,
        p.mode == Mode::Primary,
    ensures
        process(p, Event::Rollback { rewind: Rewind::Genesis }).1 == Task::Restart,
        process(p, Event::Rollback { rewind: Rewind::Genesis }).0.expected_next == Some(0u32),
{
}

} // verus!
