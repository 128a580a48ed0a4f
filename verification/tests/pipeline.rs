use rockshrew::db::Mode;
use rockshrew::pipeline::{
    event_of, scan_start, scan_step, stored_tip, BlockResult, Event, Failure, FetchPlan, Fetcher,
    Message, Phase, Processor, Rewind, ScanStep, StoredTip, Supervisor, Task, Verdict,
    FAILURE_PAUSE_MS, FETCH_RETRY_MS, REORG_DEPTH,
};
use rockshrew::store::{Store, Write};

#[test]
fn the_pipeline_has_its_numbers() {
    assert_eq!(REORG_DEPTH, 6);
    assert_eq!(FETCH_RETRY_MS, 1000);
    assert_eq!(FAILURE_PAUSE_MS, 5000);
}

#[test]
fn deep_history_is_fetched_without_a_scan() {
    assert_eq!(scan_start(93, 100), ScanStep::Fetch { next: 93, rewind: Rewind::Nothing });
    assert_eq!(scan_start(0, 7), ScanStep::Fetch { next: 0, rewind: Rewind::Nothing });
    assert_eq!(scan_start(94, 100), ScanStep::Probe { candidate: 94 });
    assert_eq!(scan_start(100, 100), ScanStep::Probe { candidate: 100 });
    assert_eq!(scan_start(101, 100), ScanStep::Probe { candidate: 101 });
}

#[test]
fn near_a_low_tip_every_height_is_probed() {
    for tip in 0..=6 {
        for next in 0..=8 {
            assert_eq!(scan_start(next, tip), ScanStep::Probe { candidate: next });
        }
    }
}

#[test]
fn a_shared_height_is_the_common_ancestor() {
    let hash = vec![7u8; 32];
    assert_eq!(
        scan_step(10, 9, &Some(hash.clone()), &hash),
        ScanStep::Fetch { next: 10, rewind: Rewind::Nothing }
    );
    assert_eq!(
        scan_step(10, 7, &Some(hash.clone()), &hash),
        ScanStep::Fetch { next: 8, rewind: Rewind::To(7) }
    );
    assert_eq!(
        scan_step(10, 10, &Some(hash.clone()), &hash),
        ScanStep::Fetch { next: 11, rewind: Rewind::Nothing }
    );
    assert_eq!(
        scan_step(5, 0, &Some(hash.clone()), &hash),
        ScanStep::Fetch { next: 1, rewind: Rewind::To(0) }
    );
    assert_eq!(scan_step(u32::MAX, u32::MAX, &Some(hash.clone()), &hash), ScanStep::Exhausted);
}

#[test]
fn a_height_that_is_not_shared_sends_the_scan_down() {
    let local = vec![7u8; 32];
    let remote = vec![8u8; 32];
    assert_eq!(scan_step(10, 9, &Some(local.clone()), &remote), ScanStep::Probe { candidate: 8 });
    assert_eq!(scan_step(10, 10, &None, &remote), ScanStep::Probe { candidate: 9 });
    assert_eq!(
        scan_step(10, 0, &Some(local), &remote),
        ScanStep::Fetch { next: 0, rewind: Rewind::Genesis }
    );
    assert_eq!(scan_step(0, 0, &None, &remote), ScanStep::Fetch { next: 0, rewind: Rewind::Genesis });
    assert_eq!(scan_step(3, 3, &Some(vec![8u8; 31]), &remote), ScanStep::Probe { candidate: 2 });
}

/// Walks the scan over the stored and the upstream hashes.
fn scan(local: &Store, upstream: &[Vec<u8>], next: u32) -> ScanStep {
    let mut step = scan_start(next, upstream.len() as u32 - 1);
    while let ScanStep::Probe { candidate } = step {
        let remote = upstream.get(candidate as usize).cloned().unwrap_or_default();
        step = scan_step(next, candidate, &local.block_hash(candidate), &remote);
    }
    step
}

#[test]
fn a_scan_finds_where_the_chains_part() {
    let upstream: Vec<Vec<u8>> = (0..8u8).map(|h| vec![h; 32]).collect();
    let mut store = Store::new();
    for height in 0..=4u32 {
        store.record_hash(height, vec![height as u8; 32]);
    }
    assert_eq!(scan(&store, &upstream, 5), ScanStep::Fetch { next: 5, rewind: Rewind::Nothing });
    store.record_hash(3, vec![0xee; 32]);
    store.record_hash(4, vec![0xee; 32]);
    assert_eq!(scan(&store, &upstream, 5), ScanStep::Fetch { next: 3, rewind: Rewind::To(2) });
    for height in 0..=2u32 {
        store.record_hash(height, vec![0xee; 32]);
    }
    assert_eq!(scan(&store, &upstream, 5), ScanStep::Fetch { next: 0, rewind: Rewind::Genesis });
}

#[test]
fn the_fetcher_begins_behind_the_tip() {
    assert_eq!(Fetcher::new(Some(4), 0, None).plan(), FetchPlan::Scan { from: 5 });
    assert_eq!(Fetcher::new(None, 0, None).plan(), FetchPlan::Scan { from: 0 });
    assert_eq!(Fetcher::new(None, 800000, None).plan(), FetchPlan::Scan { from: 800000 });
    assert_eq!(Fetcher::new(Some(4), 800000, None).plan(), FetchPlan::Scan { from: 5 });
    assert_eq!(Fetcher::new(Some(u32::MAX), 0, None).plan(), FetchPlan::Stop);
}

#[test]
fn the_fetcher_stops_behind_the_last_height_wanted() {
    let mut fetcher = Fetcher::new(None, 0, Some(2));
    let mut fetched = Vec::new();
    while let FetchPlan::Scan { from } = fetcher.plan() {
        fetched.push(from);
        fetcher.fetched(from);
    }
    assert_eq!(fetched, vec![0, 1, 2]);
    assert_eq!(Fetcher::new(Some(2), 0, Some(2)).plan(), FetchPlan::Stop);
    assert_eq!(Fetcher::new(Some(7), 0, Some(2)).plan(), FetchPlan::Stop);
    assert_eq!(Fetcher::new(Some(1), 0, Some(2)).plan(), FetchPlan::Scan { from: 2 });
}

#[test]
fn the_fetcher_goes_on_behind_what_it_fetched() {
    let mut fetcher = Fetcher::new(Some(9), 0, None);
    fetcher.fetched(6);
    assert_eq!(fetcher.plan(), FetchPlan::Scan { from: 7 });
    fetcher.fetched(u32::MAX);
    assert_eq!(fetcher.plan(), FetchPlan::Stop);
}

#[test]
fn a_message_is_an_event() {
    assert_eq!(
        event_of(&Message::Block { height: 3, block: vec![1, 2, 3] }),
        Event::Block { height: 3 }
    );
    assert_eq!(
        event_of(&Message::Rollback { rewind: Rewind::To(2) }),
        Event::Rollback { rewind: Rewind::To(2) }
    );
}

#[test]
fn the_processor_runs_commits_and_reports() {
    let mut processor = Processor::new(Some(4), 0, Mode::Primary);
    assert_eq!(processor, Processor { expected_next: Some(5), phase: Phase::Idle, mode: Mode::Primary });
    assert_eq!(processor.step(Event::Block { height: 5 }), Task::Run { height: 5 });
    assert_eq!(processor.phase, Phase::Running { height: 5, retried: false });
    assert_eq!(processor.step(Event::RunSucceeded), Task::Commit { height: 5 });
    assert_eq!(processor.expected_next, Some(5));
    assert_eq!(processor.step(Event::CommitSucceeded), Task::Report(BlockResult::Success(5)));
    assert_eq!(processor, Processor { expected_next: Some(6), phase: Phase::Idle, mode: Mode::Primary });
}

#[test]
fn the_processor_of_a_fresh_store_expects_the_start_block() {
    assert_eq!(Processor::new(None, 0, Mode::Primary).expected_next, Some(0));
    assert_eq!(Processor::new(None, 800000, Mode::Primary).expected_next, Some(800000));
    assert_eq!(Processor::new(Some(u32::MAX), 0, Mode::Primary).expected_next, None);
}

#[test]
fn a_failed_run_is_retried_once_on_fresh_memory() {
    let mut processor = Processor::new(Some(4), 0, Mode::Primary);
    processor.step(Event::Block { height: 5 });
    assert_eq!(processor.step(Event::RunFailed), Task::RefreshAndRun { height: 5 });
    assert_eq!(processor.phase, Phase::Running { height: 5, retried: true });
    assert_eq!(processor.step(Event::RunSucceeded), Task::Commit { height: 5 });
    assert_eq!(processor.step(Event::CommitSucceeded), Task::Report(BlockResult::Success(5)));
    assert_eq!(processor.expected_next, Some(6));
}

#[test]
fn a_second_failure_halts_the_processor_on_the_block() {
    let mut processor = Processor::new(Some(4), 0, Mode::Primary);
    processor.step(Event::Block { height: 5 });
    processor.step(Event::RunFailed);
    assert_eq!(
        processor.step(Event::RunFailed),
        Task::Report(BlockResult::Error(5, Failure::Runtime))
    );
    assert_eq!(processor, Processor { expected_next: Some(5), phase: Phase::Halted, mode: Mode::Primary });
    assert_eq!(processor.step(Event::Block { height: 5 }), Task::Nothing);
    assert_eq!(processor.step(Event::Block { height: 6 }), Task::Nothing);
    assert_eq!(processor.step(Event::RunSucceeded), Task::Nothing);
    assert_eq!(processor, Processor { expected_next: Some(5), phase: Phase::Halted, mode: Mode::Primary });
}

#[test]
fn a_block_out_of_order_halts_the_processor() {
    for height in [0u32, 4, 6, 7] {
        let mut processor = Processor::new(Some(4), 0, Mode::Primary);
        assert_eq!(
            processor.step(Event::Block { height }),
            Task::Report(BlockResult::Error(height, Failure::OutOfOrder))
        );
        assert_eq!(processor, Processor { expected_next: Some(5), phase: Phase::Halted, mode: Mode::Primary });
    }
}

#[test]
fn nothing_follows_the_last_height_there_is() {
    let mut processor = Processor::new(Some(u32::MAX - 1), 0, Mode::Primary);
    assert_eq!(processor.step(Event::Block { height: u32::MAX }), Task::Run { height: u32::MAX });
    processor.step(Event::RunSucceeded);
    assert_eq!(
        processor.step(Event::CommitSucceeded),
        Task::Report(BlockResult::Success(u32::MAX))
    );
    assert_eq!(processor, Processor { expected_next: None, phase: Phase::Idle, mode: Mode::Primary });
    assert_eq!(
        processor.step(Event::Block { height: u32::MAX }),
        Task::Report(BlockResult::Error(u32::MAX, Failure::OutOfOrder))
    );
}

#[test]
fn committed_heights_ascend_without_gaps() {
    let mut processor = Processor::new(Some(2), 0, Mode::Primary);
    let mut committed = Vec::new();
    let events = [
        Event::RunSucceeded,
        Event::Block { height: 3 },
        Event::Block { height: 9 },
        Event::RunFailed,
        Event::CommitSucceeded,
        Event::RunSucceeded,
        Event::RunSucceeded,
        Event::CommitSucceeded,
        Event::CommitSucceeded,
        Event::Block { height: 4 },
        Event::RunSucceeded,
        Event::CommitSucceeded,
        Event::Block { height: 5 },
        Event::RunFailed,
        Event::RunSucceeded,
        Event::CommitSucceeded,
        Event::Block { height: 5 },
        Event::Block { height: 6 },
    ];
    for event in events {
        if let Task::Report(BlockResult::Success(height)) = processor.step(event) {
            committed.push(height);
        }
    }
    assert_eq!(committed, vec![3, 4, 5]);
    assert_eq!(processor.phase, Phase::Halted);
}

#[test]
fn a_failed_commit_halts_the_processor() {
    let mut processor = Processor::new(Some(4), 0, Mode::Primary);
    processor.step(Event::Block { height: 5 });
    processor.step(Event::RunSucceeded);
    assert_eq!(
        processor.step(Event::StoreFailed),
        Task::Report(BlockResult::Error(5, Failure::Store))
    );
    assert_eq!(processor, Processor { expected_next: Some(5), phase: Phase::Halted, mode: Mode::Primary });
}

#[test]
fn a_rollback_moves_what_is_expected() {
    let mut processor = Processor::new(Some(9), 0, Mode::Primary);
    assert_eq!(
        processor.step(Event::Rollback { rewind: Rewind::To(6) }),
        Task::RollbackTo { height: 6 }
    );
    assert_eq!(processor, Processor { expected_next: Some(7), phase: Phase::Idle, mode: Mode::Primary });
    assert_eq!(processor.step(Event::Rollback { rewind: Rewind::Nothing }), Task::Nothing);
    assert_eq!(processor.expected_next, Some(7));
    assert_eq!(processor.step(Event::Rollback { rewind: Rewind::Genesis }), Task::Restart);
    assert_eq!(processor.expected_next, Some(0));
}

#[test]
fn events_that_do_not_fit_the_phase_change_nothing() {
    let mut processor = Processor::new(Some(4), 0, Mode::Primary);
    assert_eq!(processor.step(Event::RunSucceeded), Task::Nothing);
    assert_eq!(processor.step(Event::CommitSucceeded), Task::Nothing);
    processor.step(Event::Block { height: 5 });
    let running = processor;
    assert_eq!(processor.step(Event::Block { height: 6 }), Task::Nothing);
    assert_eq!(processor.step(Event::Rollback { rewind: Rewind::To(1) }), Task::Nothing);
    assert_eq!(processor.step(Event::CommitSucceeded), Task::Nothing);
    assert_eq!(processor, running);
}

#[test]
fn the_supervisor_follows_commits_and_shuts_down_at_the_last_height_wanted() {
    let mut supervisor = Supervisor::new(None, Some(2));
    assert_eq!(supervisor.watermark, 0);
    assert_eq!(supervisor.on_result(BlockResult::Success(0)), Verdict::Continue);
    assert_eq!(supervisor.on_result(BlockResult::Success(1)), Verdict::Continue);
    assert_eq!(supervisor.watermark, 1);
    assert_eq!(supervisor.on_result(BlockResult::Success(2)), Verdict::Shutdown);
    assert_eq!(supervisor.watermark, 2);
}

#[test]
fn without_a_last_height_the_supervisor_goes_on() {
    let mut supervisor = Supervisor::new(Some(100), None);
    assert_eq!(supervisor.watermark, 100);
    assert_eq!(supervisor.on_result(BlockResult::Success(101)), Verdict::Continue);
    assert_eq!(supervisor.watermark, 101);
}

#[test]
fn the_supervisor_waits_upstream_failures_out_and_aborts_on_others() {
    let mut supervisor = Supervisor::new(Some(4), None);
    assert_eq!(
        supervisor.on_result(BlockResult::Error(5, Failure::Upstream)),
        Verdict::Pause(5000)
    );
    assert_eq!(supervisor.on_result(BlockResult::Error(5, Failure::Store)), Verdict::Abort);
    assert_eq!(supervisor.on_result(BlockResult::Error(5, Failure::Runtime)), Verdict::Abort);
    assert_eq!(supervisor.on_result(BlockResult::Error(5, Failure::OutOfOrder)), Verdict::Abort);
    assert_eq!(supervisor.watermark, 4);
}

/// Runs fetcher, processor and supervisor over a chain that never changes, with a program that
/// writes the height to `k`.
fn run(store: &mut Store, upstream: &[Vec<u8>], exit_at: u32) -> Vec<u32> {
    let mut fetcher = Fetcher::new(store.height(), 0, Some(exit_at));
    let mut processor = Processor::new(store.height(), 0, Mode::Primary);
    let mut supervisor = Supervisor::new(store.height(), Some(exit_at));
    let mut committed = Vec::new();
    while let FetchPlan::Scan { from } = fetcher.plan() {
        let mut step = scan_start(from, upstream.len() as u32 - 1);
        while let ScanStep::Probe { candidate } = step {
            let remote = upstream.get(candidate as usize).cloned().unwrap_or_default();
            step = scan_step(from, candidate, &store.block_hash(candidate), &remote);
        }
        let (next, rewind) = match step {
            ScanStep::Fetch { next, rewind } => (next, rewind),
            _ => panic!("the scan ends with a height to fetch"),
        };
        match processor.step(event_of(&Message::Rollback { rewind })) {
            Task::RollbackTo { height } => store.rollback_to(height),
            Task::Restart => store.restart(),
            Task::Nothing => {}
            other => panic!("{:?}", other),
        }
        let message = Message::Block { height: next, block: upstream[next as usize].clone() };
        assert_eq!(processor.step(event_of(&message)), Task::Run { height: next });
        assert_eq!(processor.step(Event::RunSucceeded), Task::Commit { height: next });
        store.commit_block(
            next,
            upstream[next as usize].clone(),
            vec![Write { key: b"k".to_vec(), value: next.to_le_bytes().to_vec() }],
        );
        committed.push(next);
        let result = match processor.step(Event::CommitSucceeded) {
            Task::Report(result) => result,
            other => panic!("{:?}", other),
        };
        fetcher.fetched(next);
        match supervisor.on_result(result) {
            Verdict::Continue => {}
            Verdict::Shutdown => {
                assert_eq!(supervisor.watermark, exit_at);
                break;
            }
            other => panic!("{:?}", other),
        }
    }
    committed
}

#[test]
fn a_follower_is_never_asked_to_write() {
    let mut processor = Processor::new(Some(4), 0, Mode::Secondary);
    let follower = processor;
    let events = [
        Event::Rollback { rewind: Rewind::To(2) },
        Event::Rollback { rewind: Rewind::Genesis },
        Event::Rollback { rewind: Rewind::Nothing },
        Event::Block { height: 5 },
        Event::Block { height: 9 },
        Event::RunSucceeded,
        Event::RunFailed,
        Event::CommitSucceeded,
        Event::StoreFailed,
    ];
    for event in events {
        let task = processor.step(event);
        assert!(matches!(task, Task::CatchUp | Task::Nothing), "{:?}", task);
        assert_eq!(processor, follower);
    }
    assert_eq!(processor.step(Event::Rollback { rewind: Rewind::To(2) }), Task::CatchUp);
    assert_eq!(processor.step(Event::Block { height: 5 }), Task::CatchUp);
}

#[test]
fn a_restart_leaves_nothing_of_the_stored_chain() {
    let old: Vec<Vec<u8>> = (0..3u8).map(|h| vec![h; 32]).collect();
    let mut store = Store::new();
    run(&mut store, &old, 2);
    store.put(b"only-old".to_vec(), b"stale".to_vec(), 0);
    let new: Vec<Vec<u8>> = (0..4u8).map(|h| vec![0xf0 | h; 32]).collect();
    let committed = run(&mut store, &new, 3);
    assert_eq!(committed, vec![0, 1, 2, 3]);
    assert_eq!(store.height(), Some(3));
    assert_eq!(store.get_at(&b"only-old".to_vec(), u32::MAX), None);
    assert_eq!(store.get_at(&b"k".to_vec(), 2), Some(vec![2, 0, 0, 0]));
    assert_eq!(store.block_hash(0), Some(vec![0xf0; 32]));
    assert_eq!(store.block_hash(2), Some(vec![0xf2; 32]));
}

#[test]
fn the_tip_is_read_off_the_height_record() {
    assert_eq!(stored_tip(&None), StoredTip::Fresh);
    assert_eq!(stored_tip(&Some(vec![0, 0, 0, 0])), StoredTip::At(0));
    assert_eq!(stored_tip(&Some(vec![2, 1, 0, 0])), StoredTip::At(258));
    assert_eq!(stored_tip(&Some(vec![255, 255, 255, 255])), StoredTip::At(u32::MAX));
    assert_eq!(stored_tip(&Some(vec![])), StoredTip::Unreadable);
    assert_eq!(stored_tip(&Some(vec![1, 2, 3])), StoredTip::Unreadable);
    assert_eq!(stored_tip(&Some(vec![1, 2, 3, 4, 5])), StoredTip::Unreadable);
}

#[test]
fn a_store_at_its_start_block_is_not_fresh() {
    let tip = match stored_tip(&Some(800000u32.to_le_bytes().to_vec())) {
        StoredTip::At(height) => Some(height),
        _ => None,
    };
    assert_eq!(Fetcher::new(tip, 800000, None).plan(), FetchPlan::Scan { from: 800001 });
    assert_eq!(Processor::new(tip, 800000, Mode::Primary).expected_next, Some(800001));
    assert_eq!(Fetcher::new(None, 800000, None).plan(), FetchPlan::Scan { from: 800000 });
}

#[test]
fn a_run_commits_every_height_once_up_to_the_last_wanted() {
    let upstream: Vec<Vec<u8>> = (0..10u8).map(|h| vec![h; 32]).collect();
    for exit_at in 0..6u32 {
        let mut store = Store::new();
        let committed = run(&mut store, &upstream, exit_at);
        assert_eq!(committed, (0..=exit_at).collect::<Vec<u32>>());
        assert_eq!(store.height(), Some(exit_at));
        assert_eq!(store.get_latest(&b"k".to_vec()), Some(exit_at.to_le_bytes().to_vec()));
    }
}

#[test]
fn a_run_to_height_two_leaves_two_as_the_value_and_the_tip() {
    let upstream: Vec<Vec<u8>> = (0..3u8).map(|h| vec![h; 32]).collect();
    let mut store = Store::new();
    assert_eq!(run(&mut store, &upstream, 2), vec![0, 1, 2]);
    assert_eq!(store.get_latest(&b"k".to_vec()), Some(vec![0x02, 0, 0, 0]));
    assert_eq!(store.height(), Some(2));
}

#[test]
fn a_run_after_a_reorganisation_rolls_back_and_commits_the_new_block() {
    let mut upstream: Vec<Vec<u8>> = (0..3u8).map(|h| vec![h; 32]).collect();
    let mut store = Store::new();
    run(&mut store, &upstream, 2);
    upstream[2] = vec![0xb2; 32];
    upstream.push(vec![0xb3; 32]);
    // the run resumes behind the tip and finds that height 2 is no longer shared
    let committed = run(&mut store, &upstream, 3);
    assert_eq!(committed, vec![2, 3]);
    assert_eq!(store.block_hash(2), Some(vec![0xb2; 32]));
    assert_eq!(store.get_at(&b"k".to_vec(), 2), Some(vec![2, 0, 0, 0]));
    assert_eq!(store.get_at(&b"k".to_vec(), 1), Some(vec![1, 0, 0, 0]));
    assert_eq!(store.height(), Some(3));
}
