//! The JSON-RPC surface of the view server, which follows a primary store
//! and answers views: its parameters are all text, and it keeps the latest
//! height it has seen the store at.

use vstd::prelude::*;
use vstd::string::StringExecFns;
use substring::Substring;
use crate::hexcodec::{decode_error_text, from_hex, from_prefixed_hex, hex_bytes, is_hex_text};
use crate::rpc::{
    error_response, invalid_block, invalid_input, is_error, is_result, result_response,
    same_response, Response, INVALID_PARAMS, METHOD_NOT_FOUND,
};
use crate::schema::{hash_key, hash_key_bytes};
use crate::text::{decimal_string, decimal_text, rest_from, same_text, without_0x};

verus! {

/// The latest height that the view server has seen the store at.
#[derive(Clone, Debug, PartialEq, Eq)]
pub struct Heights {
    pub latest: u32,
}

/// The latest height seen.
pub fn height(heights: &Heights) -> (h: u32)
    ensures
        h == heights.latest,
{
    heights.latest
}

/// Makes `h` the latest height seen, and returns it.
pub fn set_height(heights: &mut Heights, h: u32) -> (now: u32)
    ensures
        now == h,
        final(heights).latest == h,
{
    heights.latest = h;
    heights.latest
}

/// Takes the height `queried` from the store as the latest height seen, and
/// returns it.
pub fn fetch_and_set_height(heights: &mut Heights, queried: u32) -> (now: u32)
    ensures
        now == queried,
        final(heights).latest == queried,
{
    set_height(heights, queried)
}

/// A request to the view server.
#[derive(Clone, Debug, PartialEq, Eq)]
pub struct ViewRequest {
    pub id: u32,
    pub method: String,
    pub params: Vec<String>,
    pub jsonrpc: String,
}

/// The height that a request is answered at.
#[derive(Clone, Copy, Debug, PartialEq, Eq, Structural)]
pub enum HeightChoice {
    /// The height that the store is at: ask the store, and take note of the
    /// answer with [`fetch_and_set_height`].
    Latest,
    /// This height. If `refresh`, the height is above the latest one seen:
    /// ask the store first and take note of the answer.
    At { height: u32, refresh: bool },
}

/// What is to be done for a request.
#[derive(Clone, Debug, PartialEq, Eq)]
pub enum ViewAction {
    /// Answer with this response.
    Respond(Response),
    /// Ask the store for its height, take note of it, and answer with
    /// [`height_response`].
    Height,
    /// Run the view `name` on `input` at `height`.
    View { name: String, input: Vec<u8>, height: HeightChoice },
    /// Run the view `name` on `input` at `height` with `block` laid over the
    /// store.
    Preview { block: Vec<u8>, name: String, input: Vec<u8>, height: HeightChoice },
    /// Look `key` up among the block hashes, then answer with
    /// [`crate::rpc::blockhash_response`].
    BlockHash { key: Vec<u8> },
}

/// The number that a string of decimal digits stands for.
pub open spec fn digits_value(s: Seq<char>) -> nat
    decreases s.len(),
{
    if s.len() == 0 {
        0
    } else {
        (digits_value(s.drop_last()) * 10 + (s.last() as int - 48)) as nat
    }
}

/// Whether `s` holds decimal digits only.
pub open spec fn all_digits(s: Seq<char>) -> bool {
    forall|i: int| 0 <= i < s.len() ==> '0' <= #[trigger] s[i] <= '9'
}

/// `s` without a plus sign in front.
pub open spec fn unsigned_part(s: Seq<char>) -> Seq<char> {
    if s.len() > 0 && s[0] == '+' {
        s.drop_first()
    } else {
        s
    }
}

/// The height that a decimal number names: digits, at least one, after an
/// optional plus sign, standing for a number that 32 bits hold.
pub open spec fn parsed_height(s: Seq<char>) -> Option<u32> {
    let digits = unsigned_part(s);
    if digits.len() > 0 && all_digits(digits) && digits_value(digits) <= u32::MAX {
        Some(digits_value(digits) as u32)
    } else {
        None
    }
}

/// The height that a parameter chooses while `latest` is the latest height
/// seen: the store's for `latest`, else the height that the number names.
pub open spec fn height_chosen(s: Seq<char>, latest: u32) -> Option<HeightChoice> {
    if s == "latest"@ {
        Some(HeightChoice::Latest)
    } else {
        match parsed_height(s) {
            Some(height) => Some(HeightChoice::At { height, refresh: height > latest }),
            None => None,
        }
    }
}

/// A longer string of digits stands for no smaller number than its
/// beginning.
proof fn lemma_digits_grow(s: Seq<char>, n: int)
    requires
        all_digits(s),
        0 <= n <= s.len(),
    ensures
        digits_value(s.subrange(0, n)) <= digits_value(s),
    decreases s.len() - n,
{
    if n < s.len() {
        lemma_digits_grow(s, n + 1);
        assert(s.subrange(0, n + 1).drop_last() =~= s.subrange(0, n));
    } else {
        assert(s.subrange(0, n) =~= s);
    }
}

/// Reads a decimal number that 32 bits hold.
pub fn parse_height(text: &str) -> (height: Option<u32>)
    ensures
        height == parsed_height(text@),
{
    let len = text.unicode_len();
    let start: usize = if len > 0 && text.get_char(0) == '+' {
        1
    } else {
        0
    };
    let ghost digits = unsigned_part(text@);
    if start == len {
        return None;
    }
    let mut value: u64 = 0;
    let mut i: usize = start;
    assert(digits.subrange(0, 0) =~= Seq::<char>::empty());
    while i < len
        invariant
            start <= i <= len,
            len == text@.len(),
            digits == unsigned_part(text@),
            digits.len() == len - start,
            forall|j: int| 0 <= j < digits.len() ==> digits[j] == text@[j + start],
            all_digits(digits.subrange(0, i - start)),
            value == digits_value(digits.subrange(0, i - start)),
            value <= u32::MAX,
        decreases len - i,
    {
        let c = text.get_char(i);
        if c < '0' || c > '9' {
            assert(!('0' <= digits[i - start] <= '9'));
            return None;
        }
        let d = (c as u32 - '0' as u32) as u64;
        let ghost before = digits.subrange(0, i - start);
        let ghost now = digits.subrange(0, i + 1 - start);
        assert(now.drop_last() =~= before);
        assert(now.last() == c);
        value = value * 10 + d;
        i = i + 1;
        if value > u32::MAX as u64 {
            proof {
                if all_digits(digits) {
                    lemma_digits_grow(digits, i - start);
                }
            }
            return None;
        }
    }
    assert(digits.subrange(0, len - start) =~= digits);
    Some(value as u32)
}

/// How many characters stand in front of the hexadecimal digits of an
/// input: the two of `0x`.
pub const INPUT_PREFIX: usize = 2;

/// The hexadecimal digits of an input: what follows its first two
/// characters, which are taken to be `0x`.
pub open spec fn input_digits(text: Seq<char>) -> Seq<char> {
    rest_from(text, INPUT_PREFIX as int)
}

/// `Substring::substring` from the character at `start` of `text` to its
/// end: what follows the first `start` characters, nothing for a shorter
/// text.
#[verifier::external_body]
fn skip(text: &str, start: usize) -> (rest: String)
    ensures
        rest@ == rest_from(text@, start as int),
{
    text.substring(start, text.len()).to_string()
}

/// The height that a parameter chooses, if it chooses one.
fn height_choice(text: &str, heights: &Heights) -> (choice: Option<HeightChoice>)
    ensures
        choice == height_chosen(text@, heights.latest),
{
    if same_text(text, "latest") {
        Some(HeightChoice::Latest)
    } else {
        match parse_height(text) {
            Some(h) => Some(HeightChoice::At { height: h, refresh: h > height(heights) }),
            None => None,
        }
    }
}

/// Whether `action` is the answer that the parameters are invalid, with
/// `message`.
pub open spec fn turns_down(action: ViewAction, id: u32, message: Seq<char>) -> bool {
    action matches ViewAction::Respond(r) && is_error(r, id, INVALID_PARAMS, message)
}

/// The answer that the parameters are invalid, with `message`.
fn turn_down(id: u32, message: String) -> (action: ViewAction)
    ensures
        turns_down(action, id, message@),
{
    ViewAction::Respond(error_response(id, INVALID_PARAMS, message))
}

/// What `metashrew_view` asks of the view server. The input is read from
/// behind its first two characters, which are taken to be `0x`.
pub open spec fn view_asked(req: ViewRequest, latest: u32, action: ViewAction) -> bool {
    let p = req.params@;
    if p.len() < 3 {
        turns_down(action, req.id, "Invalid params: requires [view_name, input_data, height]"@)
    } else if height_chosen(p[2]@, latest).is_none() {
        turns_down(action, req.id, "Invalid params: height must be a number or 'latest'"@)
    } else if !is_hex_text(input_digits(p[1]@)) {
        turns_down(action, req.id, "Invalid hex input: "@ + decode_error_text(input_digits(p[1]@)))
    } else {
        action matches ViewAction::View { name, input, height } && name@ == p[0]@ && input@
            == hex_bytes(input_digits(p[1]@)) && Some(height) == height_chosen(p[2]@, latest)
    }
}

/// What `metashrew_preview` asks of the view server. The block may have
/// `0x` in front; the input is read from behind its first two characters.
pub open spec fn preview_asked(req: ViewRequest, latest: u32, action: ViewAction) -> bool {
    let p = req.params@;
    if p.len() < 4 {
        turns_down(action, req.id, "Invalid params: requires [block_data, view_name, input_data, height]"@)
    } else if height_chosen(p[3]@, latest).is_none() {
        turns_down(action, req.id, "Invalid params: height must be a number or 'latest'"@)
    } else if !is_hex_text(without_0x(p[0]@)) {
        turns_down(action, req.id, "Invalid hex block data: "@ + decode_error_text(without_0x(p[0]@)))
    } else if !is_hex_text(input_digits(p[2]@)) {
        turns_down(action, req.id, "Invalid hex input: "@ + decode_error_text(input_digits(p[2]@)))
    } else {
        action matches ViewAction::Preview { block, name, input, height } && block@ == hex_bytes(
            without_0x(p[0]@),
        ) && name@ == p[1]@ && input@ == hex_bytes(input_digits(p[2]@)) && Some(height)
            == height_chosen(p[3]@, latest)
    }
}

/// What `metashrew_getblockhash` asks of the view server: the look-up of
/// the block hash of the one height that the parameters name.
pub open spec fn blockhash_asked(req: ViewRequest, action: ViewAction) -> bool {
    let p = req.params@;
    if p.len() != 1 {
        turns_down(action, req.id, "Invalid params: requires [block_number]"@)
    } else {
        match parsed_height(p[0]@) {
            Some(height) => action matches ViewAction::BlockHash { key } && key@ == hash_key_bytes(
                height,
            ),
            None => turns_down(action, req.id, "Invalid params: block_number must be a number"@),
        }
    }
}

/// What a request asks of the view server while `latest` is the latest
/// height seen.
pub open spec fn asked(req: ViewRequest, latest: u32, action: ViewAction) -> bool {
    if req.method@ == "metashrew_view"@ {
        view_asked(req, latest, action)
    } else if req.method@ == "metashrew_height"@ {
        action is Height
    } else if req.method@ == "metashrew_preview"@ {
        preview_asked(req, latest, action)
    } else if req.method@ == "metashrew_getblockhash"@ {
        blockhash_asked(req, action)
    } else {
        action matches ViewAction::Respond(r) && is_error(
            r,
            req.id,
            METHOD_NOT_FOUND,
            "RPC method "@ + req.method@ + " not found"@,
        )
    }
}

/// Decides what is to be done for a `metashrew_view` request.
fn view_call(req: &ViewRequest, heights: &Heights) -> (action: ViewAction)
    ensures
        view_asked(*req, heights.latest, action),
{
    if req.params.len() < 3 {
        return turn_down(
            req.id,
            String::from_str("Invalid params: requires [view_name, input_data, height]"),
        );
    }
    let height = match height_choice(req.params[2].as_str(), heights) {
        Some(h) => h,
        None => {
            return turn_down(
                req.id,
                String::from_str("Invalid params: height must be a number or 'latest'"),
            );
        },
    };
    let digits = skip(req.params[1].as_str(), INPUT_PREFIX);
    match from_hex(digits.as_str()) {
        Ok(input) => ViewAction::View { name: req.params[0].clone(), input, height },
        Err(detail) => {
            turn_down(req.id, invalid_input(detail.as_str()))
        },
    }
}

/// Decides what is to be done for a `metashrew_preview` request.
fn preview_call(req: &ViewRequest, heights: &Heights) -> (action: ViewAction)
    ensures
        preview_asked(*req, heights.latest, action),
{
    if req.params.len() < 4 {
        return turn_down(
            req.id,
            String::from_str("Invalid params: requires [block_data, view_name, input_data, height]"),
        );
    }
    let height = match height_choice(req.params[3].as_str(), heights) {
        Some(h) => h,
        None => {
            return turn_down(
                req.id,
                String::from_str("Invalid params: height must be a number or 'latest'"),
            );
        },
    };
    let block = match from_prefixed_hex(req.params[0].as_str()) {
        Ok(bytes) => bytes,
        Err(detail) => {
            return turn_down(req.id, invalid_block(detail.as_str()));
        },
    };
    let digits = skip(req.params[2].as_str(), INPUT_PREFIX);
    match from_hex(digits.as_str()) {
        Ok(input) => ViewAction::Preview { block, name: req.params[1].clone(), input, height },
        Err(detail) => {
            turn_down(req.id, invalid_input(detail.as_str()))
        },
    }
}

/// Decides what is to be done for a `metashrew_getblockhash` request.
fn blockhash_call(req: &ViewRequest) -> (action: ViewAction)
    ensures
        blockhash_asked(*req, action),
{
    if req.params.len() != 1 {
        return turn_down(req.id, String::from_str("Invalid params: requires [block_number]"));
    }
    match parse_height(req.params[0].as_str()) {
        Some(height) => ViewAction::BlockHash { key: hash_key(height) },
        None => turn_down(
            req.id,
            String::from_str("Invalid params: block_number must be a number"),
        ),
    }
}

/// Decides what is to be done for `req` while `heights` holds the latest
/// height seen.
pub fn jsonrpc_call(req: &ViewRequest, heights: &Heights) -> (action: ViewAction)
    ensures
        asked(*req, heights.latest, action),
{
    let method = req.method.as_str();
    if same_text(method, "metashrew_view") {
        view_call(req, heights)
    } else if same_text(method, "metashrew_height") {
        ViewAction::Height
    } else if same_text(method, "metashrew_preview") {
        preview_call(req, heights)
    } else if same_text(method, "metashrew_getblockhash") {
        blockhash_call(req)
    } else {
        let mut message = String::from_str("RPC method ");
        message.append(method);
        message.append(" not found");
        ViewAction::Respond(error_response(req.id, METHOD_NOT_FOUND, message))
    }
}

/// The response to `metashrew_height`: the height in decimal.
pub fn height_response(id: u32, height: u32) -> (r: Response)
    ensures
        is_result(r, id, decimal_text(height as nat)),
{
    result_response(id, decimal_string(height as u64))
}

/// Whether two actions are the same: the same answer, or the same view,
/// preview or look-up with the same arguments.
pub open spec fn same_view_action(a: ViewAction, b: ViewAction) -> bool {
    match (a, b) {
        (ViewAction::Respond(x), ViewAction::Respond(y)) => same_response(x, y),
        (ViewAction::Height, ViewAction::Height) => true,
        (
            ViewAction::View { name, input, height },
            ViewAction::View { name: name2, input: input2, height: height2 },
        ) => name@ == name2@ && input@ == input2@ && height == height2,
        (
            ViewAction::Preview { block, name, input, height },
            ViewAction::Preview { block: block2, name: name2, input: input2, height: height2 },
        ) => block@ == block2@ && name@ == name2@ && input@ == input2@ && height == height2,
        (ViewAction::BlockHash { key }, ViewAction::BlockHash { key: key2 }) => key@ == key2@,
        _ => false,
    }
}

/// The same request is handled alike: while the latest height seen is the
/// same, two requests with the same number, method and parameters are
/// answered with the same response or lead to the same view, preview or
/// look-up.
pub proof fn law_same_request_same_view_action(
    req: ViewRequest,
    latest: u32,
    first: ViewAction,
    second: ViewAction,
)
    requires
        asked(req, latest, first),
        asked(req, latest, second),
    ensures
        same_view_action(first, second),
{
}

} // verus!
