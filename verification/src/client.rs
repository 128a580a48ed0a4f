//! The client of the block source: what is asked of the upstream daemon, how
//! its replies are read, when a failed request is tried again, and the steps
//! by which one block is pulled.

use vstd::prelude::*;
use vstd::string::StringExecFns;
use itertools::Itertools;
use rand::Rng;
use crate::hexcodec::{decode_error_text, from_hex, hex_bytes, hex_text, is_hex_text, to_hex};
use crate::plan::{Op, OpView};
use crate::rpc::{JsonRpcRequest, Param};
use crate::schema::{hash_key, hash_key_bytes, Keyspace};

verus! {

/// The delay before the first retry doubles from this many milliseconds.
pub const INITIAL_DELAY_MS: u64 = 100;

/// No delay between two attempts is longer than this many milliseconds.
pub const MAX_DELAY_MS: u64 = 30000;

/// The greatest number of milliseconds added to a delay by chance.
pub const MAX_JITTER_MS: u64 = 100;

/// A request is attempted at most this many times.
pub const MAX_ATTEMPTS: u32 = 10;

/// The pause between two looks at the upstream tip, in milliseconds.
pub const TIP_POLL_MS: u64 = 3000;

/// Why the client could not deliver.
#[derive(Clone, Debug, PartialEq, Eq)]
pub enum ClientError {
    /// Every attempt at a request failed; the text is that of the last
    /// failure.
    UpstreamUnavailable(String),
    /// A reply carried no result of the expected kind.
    MissingResult,
    /// A reply carried text that is no hexadecimal data; the text is what
    /// the decoder says of it.
    InvalidHex(String),
    /// The clock is past the last second that a request number can hold.
    ClockOutOfRange,
    /// The credentials are not of the form `user:password`.
    InvalidAuth,
}

/// The text of an error.
pub open spec fn client_error_text(e: ClientError) -> Seq<char> {
    match e {
        ClientError::UpstreamUnavailable(last) => "Max retries exceeded: "@ + last@,
        ClientError::MissingResult => "missing result from JSON-RPC response"@,
        ClientError::InvalidHex(detail) => detail@,
        ClientError::ClockOutOfRange => "out of range integral type conversion attempted"@,
        ClientError::InvalidAuth => "credentials must be of the form user:password"@,
    }
}

impl ClientError {
    /// The text of the error.
    pub fn message(&self) -> (text: String)
        ensures
            text@ == client_error_text(*self),
    {
        match self {
            ClientError::UpstreamUnavailable(last) => {
                let mut text = String::from_str("Max retries exceeded: ");
                text.append(last.as_str());
                text
            },
            ClientError::MissingResult => String::from_str("missing result from JSON-RPC response"),
            ClientError::InvalidHex(detail) => detail.clone(),
            ClientError::ClockOutOfRange => String::from_str(
                "out of range integral type conversion attempted",
            ),
            ClientError::InvalidAuth => String::from_str(
                "credentials must be of the form user:password",
            ),
        }
    }
}

/// The position of the first `:` in `s`, or the length of `s` if it has
/// none.
pub open spec fn first_colon(s: Seq<char>) -> int
    decreases s.len(),
{
    if s.len() == 0 {
        0
    } else if s[0] == ':' {
        0
    } else {
        1 + first_colon(s.drop_first())
    }
}

/// `s` up to its first `:`.
pub open spec fn before_colon(s: Seq<char>) -> Seq<char> {
    s.subrange(0, first_colon(s))
}

/// `s` from behind its first `:`.
pub open spec fn after_colon(s: Seq<char>) -> Seq<char> {
    s.subrange(first_colon(s) + 1, s.len() as int)
}

/// `Itertools::next_tuple` on the pieces of `auth` between its colons: the
/// first two pieces, if there are two, so if `auth` has a colon. The first
/// is what stands before the first colon, the second what stands between it
/// and the next colon or the end.
#[verifier::external_body]
fn first_two_pieces(auth: &str) -> (pair: Option<(String, String)>)
    ensures
        pair.is_some() == (first_colon(auth@) < auth@.len()),
        pair matches Some((user, password)) ==> user@ == before_colon(auth@) && password@
            == before_colon(after_colon(auth@)),
{
    auth.split(":").next_tuple().map(|(user, password): (&str, &str)| (user.to_string(), password.to_string()))
}

/// The user name and the password that a request carries in its address.
#[derive(Clone, Debug, PartialEq, Eq)]
pub struct Credentials {
    pub user: String,
    pub password: String,
}

/// The credentials that the setting `auth` gives: none without a setting;
/// of `user:password` the user name and the password. A setting without a
/// colon is refused. Of a password with a colon in it, what stands before
/// that colon is taken.
pub fn credentials(auth: Option<&str>) -> (out: Result<Option<Credentials>, ClientError>)
    ensures
        out.is_err() == (auth matches Some(text) && first_colon(text@) >= text@.len()),
        out matches Err(e) ==> e == ClientError::InvalidAuth,
        out matches Ok(found) ==> found.is_some() == auth.is_some(),
        out matches Ok(Some(c)) ==> c.user@ == before_colon(auth.unwrap()@) && c.password@
            == before_colon(after_colon(auth.unwrap()@)),
{
    match auth {
        Some(text) => match first_two_pieces(text) {
            Some((user, password)) => Ok(Some(Credentials { user, password })),
            None => Err(ClientError::InvalidAuth),
        },
        None => Ok(None),
    }
}

/// `Rng::gen_range` of the thread's generator on the range from 0 to `max`,
/// both included: some number of that range.
#[verifier::external_body]
fn random_up_to(max: u64) -> (drawn: u64)
    ensures
        drawn <= max,
{
    rand::thread_rng().gen_range(0..=max)
}

/// The wait before the next attempt when the delay is `delay` and chance
/// adds `jitter`: the delay and the jitter, but no more than the greatest
/// delay.
pub open spec fn wait_for(delay: u64, jitter: u64) -> int {
    if delay + jitter < MAX_DELAY_MS {
        delay + jitter
    } else {
        MAX_DELAY_MS as int
    }
}

/// The delay that follows `delay`: twice as long, but no longer than the
/// greatest delay.
pub open spec fn next_delay(delay: u64) -> int {
    if 2 * delay < MAX_DELAY_MS {
        2 * delay
    } else {
        MAX_DELAY_MS as int
    }
}

/// What to do after a failed attempt.
#[derive(Clone, Copy, Debug, PartialEq, Eq, Structural)]
pub enum RetryStep {
    /// Wait this many milliseconds, then make the next attempt.
    Wait(u64),
    /// Give the request up: the upstream is unavailable.
    GiveUp,
}

/// The course of the attempts at one request.
#[derive(Clone, Copy, Debug, PartialEq, Eq, Structural)]
pub struct Retry {
    /// How many attempts have failed.
    pub failed: u32,
    /// The delay before the next attempt, without its jitter, in
    /// milliseconds.
    pub delay_ms: u64,
}

impl Retry {
    /// Whether the course is one that attempts can have taken.
    pub open spec fn wf(&self) -> bool {
        self.failed <= MAX_ATTEMPTS && self.delay_ms <= MAX_DELAY_MS
    }

    /// Before the first attempt.
    pub fn new() -> (retry: Retry)
        ensures
            retry.wf(),
            retry.failed == 0,
            retry.delay_ms == INITIAL_DELAY_MS,
    {
        Retry { failed: 0, delay_ms: INITIAL_DELAY_MS }
    }

    /// Takes note of a failed attempt for which chance draws `jitter`.
    /// After the last attempt allowed the request is given up. Before that
    /// the delay and the jitter are waited, and the delay doubles for the
    /// attempt after the next; the jitter is not carried on.
    pub fn backoff(&mut self, jitter: u64) -> (step: RetryStep)
        requires
            old(self).wf(),
            jitter <= MAX_JITTER_MS,
        ensures
            final(self).wf(),
            old(self).failed + 1 >= MAX_ATTEMPTS ==> step == RetryStep::GiveUp && *final(self) == (Retry {
                failed: MAX_ATTEMPTS,
                delay_ms: old(self).delay_ms,
            }),
            old(self).failed + 1 < MAX_ATTEMPTS ==> step == RetryStep::Wait(
                wait_for(old(self).delay_ms, jitter) as u64,
            ) && *final(self) == (Retry {
                failed: (old(self).failed + 1) as u32,
                delay_ms: next_delay(old(self).delay_ms) as u64,
            }),
    {
        if self.failed + 1 >= MAX_ATTEMPTS {
            self.failed = MAX_ATTEMPTS;
            return RetryStep::GiveUp;
        }
        let with_jitter = self.delay_ms + jitter;
        let wait = if with_jitter < MAX_DELAY_MS {
            with_jitter
        } else {
            MAX_DELAY_MS
        };
        let doubled = 2 * self.delay_ms;
        self.failed = self.failed + 1;
        self.delay_ms = if doubled < MAX_DELAY_MS {
            doubled
        } else {
            MAX_DELAY_MS
        };
        RetryStep::Wait(wait)
    }

    /// Takes note of a failed attempt: draws the jitter and backs off.
    pub fn on_failure(&mut self) -> (step: RetryStep)
        requires
            old(self).wf(),
        ensures
            final(self).wf(),
            old(self).failed + 1 >= MAX_ATTEMPTS ==> step == RetryStep::GiveUp && *final(self) == (Retry {
                failed: MAX_ATTEMPTS,
                delay_ms: old(self).delay_ms,
            }),
            old(self).failed + 1 < MAX_ATTEMPTS ==> (exists|jitter: u64|
                jitter <= MAX_JITTER_MS && step == RetryStep::Wait(
                    #[trigger] wait_for(old(self).delay_ms, jitter) as u64,
                )) && *final(self) == (Retry {
                failed: (old(self).failed + 1) as u32,
                delay_ms: next_delay(old(self).delay_ms) as u64,
            }),
    {
        let jitter = random_up_to(MAX_JITTER_MS);
        self.backoff(jitter)
    }
}

/// The error of a request given up after its last attempt failed with
/// `last`.
pub fn unavailable(last: String) -> (e: ClientError)
    ensures
        e == ClientError::UpstreamUnavailable(last),
{
    ClientError::UpstreamUnavailable(last)
}

/// The number of a request made `seconds` after the epoch: the seconds, as
/// long as 32 bits hold them.
pub fn request_id(seconds: u64) -> (id: Result<u32, ClientError>)
    ensures
        id.is_ok() == (seconds <= u32::MAX),
        id matches Ok(n) ==> n == seconds,
        id matches Err(e) ==> e == ClientError::ClockOutOfRange,
{
    if seconds <= u32::MAX as u64 {
        Ok(seconds as u32)
    } else {
        Err(ClientError::ClockOutOfRange)
    }
}

/// What can be asked of the upstream daemon.
#[derive(Clone, Debug, PartialEq, Eq)]
pub enum Upstream {
    /// The height of its best block.
    BlockCount,
    /// The hash of its block at `height`.
    BlockHash { height: u32 },
    /// The serialised block with the hash whose hexadecimal text is `hash`.
    Block { hash: String },
}

/// Whether `req` is request `id` for `method` in version 2.0 of the
/// protocol.
pub open spec fn is_request(req: JsonRpcRequest, id: u32, method: Seq<char>) -> bool {
    req.id == id && req.method@ == method && req.jsonrpc@ == "2.0"@
}

/// Whether `req` is what asks `ask` of the daemon, as request `id`.
pub open spec fn asks(req: JsonRpcRequest, id: u32, ask: Upstream) -> bool {
    match ask {
        Upstream::BlockCount => is_request(req, id, "getblockcount"@) && req.params@.len() == 0,
        Upstream::BlockHash { height } => is_request(req, id, "getblockhash"@) && req.params@.len() == 1
            && req.params@[0] == Param::Number(Some(height as u64)),
        Upstream::Block { hash } => is_request(req, id, "getblock"@) && req.params@.len() == 2
            && (req.params@[0] matches Param::Text(t) && t@ == hash@) && req.params@[1]
            == Param::Number(Some(0u64)),
    }
}

/// The request that asks `ask` of the daemon, numbered `id`. A block is asked
/// for in its serialised form: verbosity 0.
pub fn request(id: u32, ask: &Upstream) -> (req: JsonRpcRequest)
    ensures
        asks(req, id, *ask),
{
    let jsonrpc = String::from_str("2.0");
    match ask {
        Upstream::BlockCount => JsonRpcRequest {
            id,
            method: String::from_str("getblockcount"),
            params: Vec::new(),
            jsonrpc,
        },
        Upstream::BlockHash { height } => {
            let mut params: Vec<Param> = Vec::new();
            params.push(Param::Number(Some(*height as u64)));
            JsonRpcRequest { id, method: String::from_str("getblockhash"), params, jsonrpc }
        },
        Upstream::Block { hash } => {
            let mut params: Vec<Param> = Vec::new();
            params.push(Param::Text(hash.clone()));
            params.push(Param::Number(Some(0)));
            JsonRpcRequest { id, method: String::from_str("getblock"), params, jsonrpc }
        },
    }
}

/// The block count in a reply whose result, read as a number, is `result`:
/// the number reduced to 32 bits.
pub fn block_count_from(result: Option<u64>) -> (count: Result<u32, ClientError>)
    ensures
        count.is_ok() == result.is_some(),
        count matches Ok(n) ==> n == result.unwrap() % 0x1_0000_0000,
        count matches Err(e) ==> e == ClientError::MissingResult,
{
    match result {
        Some(v) => Ok((v % 0x1_0000_0000) as u32),
        None => Err(ClientError::MissingResult),
    }
}

/// Whether `e` is the error of `text`, which is no hexadecimal data: it
/// carries what the decoder says of the text.
pub open spec fn is_invalid_hex(e: ClientError, text: Seq<char>) -> bool {
    e matches ClientError::InvalidHex(said) && said@ == decode_error_text(text)
}

/// The bytes in a reply whose result, read as text, is `result`.
pub fn bytes_from(result: Option<&str>) -> (bytes: Result<Vec<u8>, ClientError>)
    ensures
        bytes.is_ok() == (result matches Some(text) && is_hex_text(text@)),
        bytes matches Ok(b) ==> b@ == hex_bytes(result.unwrap()@),
        bytes matches Err(e) ==> (match result {
            None => e == ClientError::MissingResult,
            Some(text) => is_invalid_hex(e, text@),
        }),
{
    match result {
        Some(text) => match from_hex(text) {
            Ok(b) => Ok(b),
            Err(detail) => Err(ClientError::InvalidHex(detail)),
        },
        None => Err(ClientError::MissingResult),
    }
}

/// Whether the upstream chain, `count` blocks high, has the block of
/// `height`.
pub fn tip_reached(height: u32, count: u32) -> (yes: bool)
    ensures
        yes == (height <= count),
{
    height <= count
}

/// The result of a reply, read as the kind that the question calls for.
#[derive(Clone, Debug, PartialEq, Eq)]
pub enum Reply {
    /// Read as a number: its value, if it is a non-negative integer below
    /// 2^64.
    Number(Option<u64>),
    /// Read as text: the text, if it is a string.
    Text(Option<String>),
}

/// How far the pull of one block has come.
#[derive(Clone, Debug, PartialEq, Eq)]
pub enum Pull {
    /// The block count was asked for.
    AwaitCount { height: u32 },
    /// The hash of the block was asked for.
    AwaitHash { height: u32 },
    /// The block was asked for by its hash `hash`.
    AwaitBlock { height: u32, hash: Vec<u8> },
}

/// What the pull of a block does next.
#[derive(Clone, Debug, PartialEq, Eq)]
pub enum PullAction {
    /// Ask the daemon.
    Ask(Upstream),
    /// Wait `millis` milliseconds, then ask the daemon.
    WaitThenAsk { millis: u64, ask: Upstream },
    /// The pull is over: this is the block, and `record` is to be handed to
    /// the store, which records the block's hash under its height.
    Done { block: Vec<u8>, record: Op },
    /// The pull is over: it failed, and nothing is to be recorded.
    Fail(ClientError),
}

/// Whether `ask` asks for the block count.
pub open spec fn is_count_ask(ask: Upstream) -> bool {
    ask matches Upstream::BlockCount
}

/// Whether `action` ends the pull with the error of a reply without the
/// result expected.
pub open spec fn fails_missing(next: Option<Pull>, action: PullAction) -> bool {
    next.is_none() && (action matches PullAction::Fail(ClientError::MissingResult))
}

/// Whether `action` ends the pull with the error of `text`, which is no
/// hexadecimal data.
pub open spec fn fails_invalid(next: Option<Pull>, action: PullAction, text: Seq<char>) -> bool {
    next.is_none() && (action matches PullAction::Fail(e) && is_invalid_hex(e, text))
}

/// What follows in the pull of a block when the daemon's reply is `reply`.
pub open spec fn pull_next(state: Pull, reply: Reply, next: Option<Pull>, action: PullAction) -> bool {
    match state {
        Pull::AwaitCount { height } => match reply {
            Reply::Number(Some(count)) => if height > count % 0x1_0000_0000 {
                next == Some(state) && (action matches PullAction::WaitThenAsk { millis, ask } && millis
                    == TIP_POLL_MS && is_count_ask(ask))
            } else {
                next == Some(Pull::AwaitHash { height }) && (action matches PullAction::Ask(
                    Upstream::BlockHash { height: asked },
                ) && asked == height)
            },
            _ => fails_missing(next, action),
        },
        Pull::AwaitHash { height } => match reply {
            Reply::Text(Some(text)) => if is_hex_text(text@) {
                (next matches Some(Pull::AwaitBlock { height: of, hash }) && of == height && hash@
                    == hex_bytes(text@)) && (action matches PullAction::Ask(Upstream::Block { hash: asked })
                    && asked@ == hex_text(hex_bytes(text@)))
            } else {
                fails_invalid(next, action, text@)
            },
            _ => fails_missing(next, action),
        },
        Pull::AwaitBlock { height, hash } => match reply {
            Reply::Text(Some(text)) => if is_hex_text(text@) {
                next.is_none() && (action matches PullAction::Done { block, record } && block@
                    == hex_bytes(text@) && record@ == (OpView::Put {
                    space: Keyspace::HeightToHash,
                    key: hash_key_bytes(height),
                    value: hash@,
                }))
            } else {
                fails_invalid(next, action, text@)
            },
            _ => fails_missing(next, action),
        },
    }
}

/// Starts the pull of the block of `height`: the block count is asked for
/// first.
pub fn pull_block(height: u32) -> (start: (Pull, Upstream))
    ensures
        start.0 == (Pull::AwaitCount { height }),
        is_count_ask(start.1),
{
    (Pull::AwaitCount { height }, Upstream::BlockCount)
}

/// Takes the pull of a block one step further on the daemon's reply. While
/// the upstream chain is below the block's height the count is asked for
/// again after a pause. Then the block's hash is asked for, and the block by
/// its hash. Only with the block in hand is the hash handed out to be
/// recorded under the height. A reply without the expected result, or with
/// text that is no hexadecimal data, ends the pull and records nothing.
pub fn pull_step(state: Pull, reply: Reply) -> (out: (Option<Pull>, PullAction))
    ensures
        pull_next(state, reply, out.0, out.1),
{
    match state {
        Pull::AwaitCount { height } => {
            let result = match reply {
                Reply::Number(n) => n,
                Reply::Text(_) => None,
            };
            match block_count_from(result) {
                Ok(count) => {
                    if tip_reached(height, count) {
                        (Some(Pull::AwaitHash { height }), PullAction::Ask(Upstream::BlockHash { height }))
                    } else {
                        (
                            Some(Pull::AwaitCount { height }),
                            PullAction::WaitThenAsk { millis: TIP_POLL_MS, ask: Upstream::BlockCount },
                        )
                    }
                },
                Err(e) => (None, PullAction::Fail(e)),
            }
        },
        Pull::AwaitHash { height } => {
            match reply {
                Reply::Text(Some(text)) => match bytes_from(Some(text.as_str())) {
                    Ok(hash) => {
                        let ask = Upstream::Block { hash: to_hex(&hash) };
                        (Some(Pull::AwaitBlock { height, hash }), PullAction::Ask(ask))
                    },
                    Err(e) => (None, PullAction::Fail(e)),
                },
                _ => (None, PullAction::Fail(ClientError::MissingResult)),
            }
        },
        Pull::AwaitBlock { height, hash } => {
            match reply {
                Reply::Text(Some(text)) => match bytes_from(Some(text.as_str())) {
                    Ok(block) => {
                        let record = Op::Put {
                            space: Keyspace::HeightToHash,
                            key: hash_key(height),
                            value: hash,
                        };
                        (None, PullAction::Done { block, record })
                    },
                    Err(e) => (None, PullAction::Fail(e)),
                },
                _ => (None, PullAction::Fail(ClientError::MissingResult)),
            }
        },
    }
}

/// A pull hands a record to the store only together with the block: the
/// reply that brings the hash records nothing, and a pull that fails ends
/// without a record.
pub proof fn law_hash_is_recorded_with_the_block(
    state: Pull,
    reply: Reply,
    next: Option<Pull>,
    action: PullAction,
)
    requires
        pull_next(state, reply, next, action),
    ensures
        action is Done ==> state is AwaitBlock && next.is_none(),
        action is Fail ==> next.is_none(),
        state is AwaitHash ==> !(action is Done),
{
}

/// The delay before attempt `n + 2`, without its jitter: the initial delay
/// doubled `n` times, but no longer than the greatest delay.
pub open spec fn delay_after(n: nat) -> int
    decreases n,
{
    if n == 0 {
        INITIAL_DELAY_MS as int
    } else {
        let before = delay_after((n - 1) as nat);
        if 2 * before < MAX_DELAY_MS {
            2 * before
        } else {
            MAX_DELAY_MS as int
        }
    }
}

/// The schedule of the waits: the wait after the first failure is the
/// initial delay and its jitter; each later wait is twice the delay before,
/// and its own jitter; and no wait is longer than the greatest delay.
pub proof fn law_waits_double_from_the_initial_delay(retry: Retry, n: nat, jitter: u64)
    requires
        retry.delay_ms == delay_after(n),
        jitter <= MAX_JITTER_MS,
    ensures
        INITIAL_DELAY_MS <= delay_after(n) <= MAX_DELAY_MS,
        next_delay(retry.delay_ms) == delay_after(n + 1),
        delay_after(n) <= wait_for(retry.delay_ms, jitter) <= MAX_DELAY_MS,
        wait_for(retry.delay_ms, jitter) <= delay_after(n) + MAX_JITTER_MS,
    decreases n,
{
    if n > 0 {
        law_waits_double_from_the_initial_delay(
            Retry { failed: retry.failed, delay_ms: delay_after((n - 1) as nat) as u64 },
            (n - 1) as nat,
            jitter,
        );
    }
}

} // verus!
