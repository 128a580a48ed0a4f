use rockshrew::client::{
    block_count_from, bytes_from, credentials, pull_block, pull_step, request, request_id,
    tip_reached, unavailable, ClientError, Credentials, Pull, PullAction, Reply, Retry, RetryStep,
    Upstream, INITIAL_DELAY_MS, MAX_ATTEMPTS, MAX_DELAY_MS, MAX_JITTER_MS, TIP_POLL_MS,
};
use rockshrew::plan::Op;
use rockshrew::rpc::{JsonRpcRequest, Param};
use rockshrew::schema::Keyspace;

#[test]
fn the_retry_policy_has_its_numbers() {
    assert_eq!(INITIAL_DELAY_MS, 100);
    assert_eq!(MAX_DELAY_MS, 30_000);
    assert_eq!(MAX_JITTER_MS, 100);
    assert_eq!(MAX_ATTEMPTS, 10);
    assert_eq!(TIP_POLL_MS, 3000);
}

#[test]
fn the_first_wait_is_the_initial_delay_and_its_jitter() {
    let mut retry = Retry::new();
    assert_eq!(retry, Retry { failed: 0, delay_ms: 100 });
    assert_eq!(retry.backoff(50), RetryStep::Wait(150));
    assert_eq!(retry, Retry { failed: 1, delay_ms: 200 });
    assert_eq!(retry.backoff(0), RetryStep::Wait(200));
    assert_eq!(retry.backoff(100), RetryStep::Wait(500));
    assert_eq!(retry, Retry { failed: 3, delay_ms: 800 });
}

#[test]
fn the_jitter_is_not_carried_on() {
    let mut with = Retry::new();
    let mut without = Retry::new();
    with.backoff(100);
    without.backoff(0);
    assert_eq!(with, without);
    assert_eq!(with.backoff(7), RetryStep::Wait(207));
}

#[test]
fn the_delay_stops_at_thirty_seconds() {
    let mut retry = Retry { failed: 0, delay_ms: 29_950 };
    assert_eq!(retry.backoff(49), RetryStep::Wait(29_999));
    assert_eq!(retry.delay_ms, 30_000);
    let mut retry = Retry { failed: 0, delay_ms: 29_950 };
    assert_eq!(retry.backoff(50), RetryStep::Wait(30_000));
    assert_eq!(retry.backoff(0), RetryStep::Wait(30_000));
    assert_eq!(retry.backoff(100), RetryStep::Wait(30_000));
    assert_eq!(retry.delay_ms, 30_000);
    let mut retry = Retry { failed: 0, delay_ms: 14_999 };
    assert_eq!(retry.backoff(0), RetryStep::Wait(14_999));
    assert_eq!(retry.delay_ms, 29_998);
}

#[test]
fn the_tenth_failure_gives_up() {
    let mut retry = Retry::new();
    let mut waits = Vec::new();
    loop {
        match retry.backoff(0) {
            RetryStep::Wait(ms) => waits.push(ms),
            RetryStep::GiveUp => break,
        }
    }
    assert_eq!(waits, vec![100, 200, 400, 800, 1600, 3200, 6400, 12800, 25600]);
    assert_eq!(retry.failed, 10);
    assert_eq!(retry.backoff(0), RetryStep::GiveUp);
    assert_eq!(retry.failed, 10);
}

#[test]
fn every_wait_is_the_doubled_delay_and_at_most_a_hundred_more() {
    let mut retry = Retry::new();
    let mut base = 100u64;
    for jitter in [100u64, 0, 37, 100, 1, 99, 100, 100, 0] {
        let expected = std::cmp::min(30_000, base + jitter);
        assert_eq!(retry.backoff(jitter), RetryStep::Wait(expected));
        base = std::cmp::min(30_000, base * 2);
        assert_eq!(retry.delay_ms, base);
    }
}

#[test]
fn the_jitter_drawn_is_at_most_a_hundred_milliseconds() {
    for _ in 0..200 {
        let mut retry = Retry::new();
        match retry.on_failure() {
            RetryStep::Wait(ms) => assert!((100..=200).contains(&ms), "{}", ms),
            RetryStep::GiveUp => panic!("the first failure is retried"),
        }
        assert_eq!(retry, Retry { failed: 1, delay_ms: 200 });
    }
    let mut retry = Retry { failed: 9, delay_ms: 400 };
    assert_eq!(retry.on_failure(), RetryStep::GiveUp);
}

#[test]
fn the_jitter_is_not_always_the_same() {
    let mut seen = std::collections::BTreeSet::new();
    for _ in 0..400 {
        let mut retry = Retry::new();
        if let RetryStep::Wait(ms) = retry.on_failure() {
            seen.insert(ms);
        }
    }
    assert!(seen.len() > 1);
}

#[test]
fn errors_have_their_texts() {
    assert_eq!(
        unavailable("connection refused".to_string()).message(),
        "Max retries exceeded: connection refused"
    );
    assert_eq!(ClientError::MissingResult.message(), "missing result from JSON-RPC response");
    assert_eq!(
        ClientError::InvalidHex("Odd number of digits".to_string()).message(),
        "Odd number of digits"
    );
    assert_eq!(
        ClientError::ClockOutOfRange.message(),
        "out of range integral type conversion attempted"
    );
    assert_eq!(ClientError::InvalidAuth.message(), "credentials must be of the form user:password");
}

#[test]
fn credentials_are_split_at_the_first_colon() {
    assert_eq!(credentials(None), Ok(None));
    assert_eq!(
        credentials(Some("user:pass")),
        Ok(Some(Credentials { user: "user".to_string(), password: "pass".to_string() }))
    );
    assert_eq!(
        credentials(Some(":")),
        Ok(Some(Credentials { user: "".to_string(), password: "".to_string() }))
    );
    assert_eq!(
        credentials(Some("user:")),
        Ok(Some(Credentials { user: "user".to_string(), password: "".to_string() }))
    );
    assert_eq!(
        credentials(Some("user:pa:ss")),
        Ok(Some(Credentials { user: "user".to_string(), password: "pa".to_string() }))
    );
    assert_eq!(
        credentials(Some("\u{fc}ser:p\u{e4}ss")),
        Ok(Some(Credentials { user: "\u{fc}ser".to_string(), password: "p\u{e4}ss".to_string() }))
    );
    assert_eq!(credentials(Some("userpass")), Err(ClientError::InvalidAuth));
    assert_eq!(credentials(Some("")), Err(ClientError::InvalidAuth));
}

#[test]
fn the_request_number_is_the_clock_in_seconds() {
    assert_eq!(request_id(0), Ok(0));
    assert_eq!(request_id(1_793_223_758), Ok(1_793_223_758));
    assert_eq!(request_id(u32::MAX as u64), Ok(u32::MAX));
    assert_eq!(request_id(u32::MAX as u64 + 1), Err(ClientError::ClockOutOfRange));
}

#[test]
fn requests_name_the_method_and_its_parameters() {
    assert_eq!(
        request(5, &Upstream::BlockCount),
        JsonRpcRequest {
            id: 5,
            method: "getblockcount".to_string(),
            params: vec![],
            jsonrpc: "2.0".to_string()
        }
    );
    assert_eq!(
        request(6, &Upstream::BlockHash { height: 840000 }),
        JsonRpcRequest {
            id: 6,
            method: "getblockhash".to_string(),
            params: vec![Param::Number(Some(840000))],
            jsonrpc: "2.0".to_string()
        }
    );
    assert_eq!(
        request(7, &Upstream::Block { hash: "00ab".to_string() }),
        JsonRpcRequest {
            id: 7,
            method: "getblock".to_string(),
            params: vec![Param::Text("00ab".to_string()), Param::Number(Some(0))],
            jsonrpc: "2.0".to_string()
        }
    );
}

#[test]
fn the_block_count_is_read_from_a_number() {
    assert_eq!(block_count_from(Some(0)), Ok(0));
    assert_eq!(block_count_from(Some(840000)), Ok(840000));
    assert_eq!(block_count_from(Some(4294967296 + 3)), Ok(3));
    assert_eq!(block_count_from(None), Err(ClientError::MissingResult));
}

#[test]
fn bytes_are_read_from_hexadecimal_text() {
    assert_eq!(bytes_from(Some("00ab")), Ok(vec![0, 0xab]));
    assert_eq!(bytes_from(Some("00AB")), Ok(vec![0, 0xab]));
    assert_eq!(bytes_from(Some("")), Ok(vec![]));
    assert_eq!(bytes_from(None), Err(ClientError::MissingResult));
    assert_eq!(
        bytes_from(Some("0x00")),
        Err(ClientError::InvalidHex("Invalid character 'x' at position 1".to_string()))
    );
    assert_eq!(
        bytes_from(Some("0")),
        Err(ClientError::InvalidHex("Odd number of digits".to_string()))
    );
}

#[test]
fn the_tip_is_reached_when_the_chain_is_as_high_as_the_block() {
    assert!(tip_reached(5, 5));
    assert!(tip_reached(5, 6));
    assert!(!tip_reached(5, 4));
    assert!(tip_reached(0, 0));
}

#[test]
fn a_block_is_pulled_by_count_hash_and_block() {
    let (state, ask) = pull_block(3);
    assert_eq!(state, Pull::AwaitCount { height: 3 });
    assert_eq!(ask, Upstream::BlockCount);

    let (state, action) = pull_step(state, Reply::Number(Some(2)));
    assert_eq!(state, Some(Pull::AwaitCount { height: 3 }));
    assert_eq!(action, PullAction::WaitThenAsk { millis: 3000, ask: Upstream::BlockCount });

    let (state, action) = pull_step(state.unwrap(), Reply::Number(Some(3)));
    assert_eq!(state, Some(Pull::AwaitHash { height: 3 }));
    assert_eq!(action, PullAction::Ask(Upstream::BlockHash { height: 3 }));

    let (state, action) = pull_step(state.unwrap(), Reply::Text(Some("00AB".to_string())));
    assert_eq!(state, Some(Pull::AwaitBlock { height: 3, hash: vec![0, 0xab] }));
    assert_eq!(action, PullAction::Ask(Upstream::Block { hash: "00ab".to_string() }));

    let (state, action) = pull_step(state.unwrap(), Reply::Text(Some("b10c".to_string())));
    assert_eq!(state, None);
    assert_eq!(
        action,
        PullAction::Done {
            block: vec![0xb1, 0x0c],
            record: Op::Put {
                space: Keyspace::HeightToHash,
                key: b"/__INTERNAL/height-to-hash/3".to_vec(),
                value: vec![0, 0xab],
            },
        }
    );
}

#[test]
fn the_hash_is_recorded_only_with_the_block() {
    let awaiting = Pull::AwaitBlock { height: 3, hash: vec![0, 0xab] };
    for reply in [
        Reply::Text(None),
        Reply::Number(Some(1)),
        Reply::Text(Some("xyz".to_string())),
        Reply::Text(Some("0x00".to_string())),
    ] {
        let (state, action) = pull_step(awaiting.clone(), reply);
        assert_eq!(state, None);
        assert!(matches!(action, PullAction::Fail(_)), "{:?}", action);
    }
    let (_, action) = pull_step(Pull::AwaitHash { height: 3 }, Reply::Text(Some("00ab".to_string())));
    assert!(matches!(action, PullAction::Ask(Upstream::Block { .. })), "{:?}", action);
}

#[test]
fn a_pull_ends_on_a_reply_without_the_result() {
    let fail = PullAction::Fail(ClientError::MissingResult);
    let block = Pull::AwaitBlock { height: 3, hash: vec![1] };
    assert_eq!(pull_step(Pull::AwaitCount { height: 3 }, Reply::Number(None)), (None, fail.clone()));
    assert_eq!(
        pull_step(Pull::AwaitCount { height: 3 }, Reply::Text(Some("3".to_string()))),
        (None, fail.clone())
    );
    assert_eq!(pull_step(Pull::AwaitHash { height: 3 }, Reply::Text(None)), (None, fail.clone()));
    assert_eq!(pull_step(Pull::AwaitHash { height: 3 }, Reply::Number(Some(1))), (None, fail.clone()));
    assert_eq!(pull_step(block.clone(), Reply::Text(None)), (None, fail.clone()));
    assert_eq!(pull_step(block, Reply::Number(Some(1))), (None, fail));
}

#[test]
fn a_pull_ends_on_text_that_is_no_hexadecimal_data() {
    assert_eq!(
        pull_step(Pull::AwaitHash { height: 3 }, Reply::Text(Some("0g".to_string()))),
        (
            None,
            PullAction::Fail(ClientError::InvalidHex(
                "Invalid character 'g' at position 1".to_string()
            ))
        )
    );
    assert_eq!(
        pull_step(
            Pull::AwaitBlock { height: 3, hash: vec![1] },
            Reply::Text(Some("abc".to_string()))
        ),
        (None, PullAction::Fail(ClientError::InvalidHex("Odd number of digits".to_string())))
    );
}

#[test]
fn the_count_is_reduced_before_it_is_compared() {
    let (state, action) = pull_step(Pull::AwaitCount { height: 3 }, Reply::Number(Some(4294967296)));
    assert_eq!(state, Some(Pull::AwaitCount { height: 3 }));
    assert_eq!(action, PullAction::WaitThenAsk { millis: 3000, ask: Upstream::BlockCount });
}
