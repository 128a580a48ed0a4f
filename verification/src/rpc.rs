//! The JSON-RPC surface of the indexer: what a request asks for, what is
//! answered at once, and how the outcome of a view or a look-up becomes a
//! response.

use vstd::prelude::*;
use vstd::string::StringExecFns;
use crate::hexcodec::{
    decode_error_text, from_prefixed_hex, hex_bytes, is_hex_text, prefixed_hex_text, to_prefixed_hex,
};
use crate::schema::{hash_key, hash_key_bytes};
use crate::text::{decimal_string, decimal_text, same_text, without_0x};

verus! {

/// The code of a request for a method that does not exist.
pub const METHOD_NOT_FOUND: i32 = -32601;

/// The code of a request whose parameters are not what the method takes.
pub const INVALID_PARAMS: i32 = -32602;

/// The code of a request that failed in the application.
pub const APPLICATION_ERROR: i32 = -32000;

/// One parameter of a request, as far as the methods read it.
#[derive(Clone, Debug, PartialEq, Eq)]
pub enum Param {
    /// A JSON string.
    Text(String),
    /// A JSON number, with its value if it is a non-negative integer below
    /// 2^64.
    Number(Option<u64>),
    /// Any other JSON value.
    Other,
}

/// A request.
#[derive(Clone, Debug, PartialEq, Eq)]
pub struct JsonRpcRequest {
    pub id: u32,
    pub method: String,
    pub params: Vec<Param>,
    pub jsonrpc: String,
}

/// A response that carries a result.
#[derive(Clone, Debug, PartialEq, Eq)]
pub struct JsonRpcResult {
    pub id: u32,
    pub result: String,
    pub jsonrpc: String,
}

/// What a response that reports an error says of it.
#[derive(Clone, Debug, PartialEq, Eq)]
pub struct JsonRpcErrorObject {
    pub code: i32,
    pub message: String,
    pub data: Option<String>,
}

/// A response that reports an error.
#[derive(Clone, Debug, PartialEq, Eq)]
pub struct JsonRpcError {
    pub id: u32,
    pub error: JsonRpcErrorObject,
    pub jsonrpc: String,
}

/// A response.
#[derive(Clone, Debug, PartialEq, Eq)]
pub enum Response {
    Result(JsonRpcResult),
    Error(JsonRpcError),
}

/// What is to be done for a request.
#[derive(Clone, Debug, PartialEq, Eq)]
pub enum Action {
    /// Answer with this response.
    Respond(Response),
    /// Run the view `name` on `input` at `height`, then answer with
    /// [`view_response`].
    View { name: String, input: Vec<u8>, height: u32 },
    /// Run the view `name` on `input` at `height` with `block` laid over the
    /// store, then answer with [`view_response`].
    Preview { block: Vec<u8>, name: String, input: Vec<u8>, height: u32 },
    /// Look `key` up among the block hashes, then answer with
    /// [`blockhash_response`].
    BlockHash { key: Vec<u8> },
}

/// Whether `r` carries the result `result` for request `id`.
pub open spec fn is_result(r: Response, id: u32, result: Seq<char>) -> bool {
    r matches Response::Result(x) && x.id == id && x.result@ == result && x.jsonrpc@ == "2.0"@
}

/// Whether `r` reports the error `code` with `message`, and no data, for
/// request `id`.
pub open spec fn is_error(r: Response, id: u32, code: i32, message: Seq<char>) -> bool {
    r matches Response::Error(x) && x.id == id && x.error.code == code && x.error.message@ == message
        && x.error.data.is_none() && x.jsonrpc@ == "2.0"@
}

/// Whether `action` is the answer that the parameters are invalid, with
/// `message`.
pub open spec fn refuses(action: Action, id: u32, message: Seq<char>) -> bool {
    action matches Action::Respond(r) && is_error(r, id, INVALID_PARAMS, message)
}

/// The text of a parameter, if it is a string.
pub open spec fn text_of(p: Param) -> Option<Seq<char>> {
    match p {
        Param::Text(s) => Some(s@),
        _ => None,
    }
}

/// The height that a parameter names: the watermark for the string
/// `latest`; for a number its value reduced to 32 bits, or 0 if it is no
/// non-negative integer; none for anything else.
pub open spec fn height_of(p: Param, current: u32) -> Option<u32> {
    match p {
        Param::Text(s) => if s@ == "latest"@ {
            Some(current)
        } else {
            None
        },
        Param::Number(n) => Some(number_height(n)),
        Param::Other => None,
    }
}

/// The height that a number names.
pub open spec fn number_height(n: Option<u64>) -> u32 {
    match n {
        Some(v) => (v % 0x1_0000_0000) as u32,
        None => 0,
    }
}

/// What `metashrew_view` asks for.
pub open spec fn view_handled(req: JsonRpcRequest, current: u32, action: Action) -> bool {
    let p = req.params@;
    if p.len() < 3 {
        refuses(action, req.id, "Invalid params: requires [view_name, input_data, height]"@)
    } else if text_of(p[0]).is_none() {
        refuses(action, req.id, "Invalid params: view_name must be a string"@)
    } else if text_of(p[1]).is_none() {
        refuses(action, req.id, "Invalid params: input_data must be a hex string"@)
    } else if height_of(p[2], current).is_none() {
        refuses(action, req.id, "Invalid params: height must be a number or 'latest'"@)
    } else if !is_hex_text(without_0x(text_of(p[1]).unwrap())) {
        refuses(
            action,
            req.id,
            "Invalid hex input: "@ + decode_error_text(without_0x(text_of(p[1]).unwrap())),
        )
    } else {
        action matches Action::View { name, input, height } && name@ == text_of(p[0]).unwrap()
            && input@ == hex_bytes(without_0x(text_of(p[1]).unwrap())) && height == height_of(
            p[2],
            current,
        ).unwrap()
    }
}

/// What `metashrew_preview` asks for.
pub open spec fn preview_handled(req: JsonRpcRequest, current: u32, action: Action) -> bool {
    let p = req.params@;
    if p.len() < 4 {
        refuses(action, req.id, "Invalid params: requires [block_data, view_name, input_data, height]"@)
    } else if text_of(p[0]).is_none() {
        refuses(action, req.id, "Invalid params: block_data must be a hex string"@)
    } else if text_of(p[1]).is_none() {
        refuses(action, req.id, "Invalid params: view_name must be a string"@)
    } else if text_of(p[2]).is_none() {
        refuses(action, req.id, "Invalid params: input_data must be a hex string"@)
    } else if height_of(p[3], current).is_none() {
        refuses(action, req.id, "Invalid params: height must be a number or 'latest'"@)
    } else if !is_hex_text(without_0x(text_of(p[0]).unwrap())) {
        refuses(
            action,
            req.id,
            "Invalid hex block data: "@ + decode_error_text(without_0x(text_of(p[0]).unwrap())),
        )
    } else if !is_hex_text(without_0x(text_of(p[2]).unwrap())) {
        refuses(
            action,
            req.id,
            "Invalid hex input: "@ + decode_error_text(without_0x(text_of(p[2]).unwrap())),
        )
    } else {
        action matches Action::Preview { block, name, input, height } && block@ == hex_bytes(
            without_0x(text_of(p[0]).unwrap()),
        ) && name@ == text_of(p[1]).unwrap() && input@ == hex_bytes(
            without_0x(text_of(p[2]).unwrap()),
        ) && height == height_of(p[3], current).unwrap()
    }
}

/// What `metashrew_getblockhash` asks for.
pub open spec fn blockhash_handled(req: JsonRpcRequest, action: Action) -> bool {
    let p = req.params@;
    if p.len() != 1 {
        refuses(action, req.id, "Invalid params: requires [block_number]"@)
    } else {
        match p[0] {
            Param::Number(n) => action matches Action::BlockHash { key } && key@ == hash_key_bytes(
                number_height(n),
            ),
            _ => refuses(action, req.id, "Invalid params: block_number must be a number"@),
        }
    }
}

/// What a request asks for, while `current` is the latest indexed height.
pub open spec fn handled(req: JsonRpcRequest, current: u32, action: Action) -> bool {
    if req.method@ == "metashrew_view"@ {
        view_handled(req, current, action)
    } else if req.method@ == "metashrew_preview"@ {
        preview_handled(req, current, action)
    } else if req.method@ == "metashrew_height"@ {
        action matches Action::Respond(r) && is_result(r, req.id, decimal_text(current as nat))
    } else if req.method@ == "metashrew_getblockhash"@ {
        blockhash_handled(req, action)
    } else {
        action matches Action::Respond(r) && is_error(
            r,
            req.id,
            METHOD_NOT_FOUND,
            "Method '"@ + req.method@ + "' not found"@,
        )
    }
}

/// A response that carries `result` for request `id`.
pub fn result_response(id: u32, result: String) -> (r: Response)
    ensures
        is_result(r, id, result@),
{
    Response::Result(JsonRpcResult { id, result, jsonrpc: String::from_str("2.0") })
}

/// A response that reports the error `code` with `message` for request `id`.
pub fn error_response(id: u32, code: i32, message: String) -> (r: Response)
    ensures
        is_error(r, id, code, message@),
{
    Response::Error(
        JsonRpcError {
            id,
            error: JsonRpcErrorObject { code, message, data: None },
            jsonrpc: String::from_str("2.0"),
        },
    )
}

/// The answer that the parameters are invalid, with `message`.
fn refuse(id: u32, message: &str) -> (action: Action)
    ensures
        refuses(action, id, message@),
{
    Action::Respond(error_response(id, INVALID_PARAMS, String::from_str(message)))
}

/// The response to a view or a preview that ended with `outcome`: the output
/// as `0x` and hexadecimal digits, or the failure as an application error.
pub fn view_response(id: u32, outcome: Result<Vec<u8>, String>) -> (r: Response)
    ensures
        outcome matches Ok(output) ==> is_result(r, id, prefixed_hex_text(output@)),
        outcome matches Err(message) ==> is_error(r, id, APPLICATION_ERROR, message@),
{
    match outcome {
        Ok(output) => result_response(id, to_prefixed_hex(&output)),
        Err(message) => error_response(id, APPLICATION_ERROR, message),
    }
}

/// The response to a look-up of a block hash that found `found`: the hash as
/// `0x` and hexadecimal digits, or an application error for an unknown
/// height.
pub fn blockhash_response(id: u32, found: Option<Vec<u8>>) -> (r: Response)
    ensures
        found matches Some(hash) ==> is_result(r, id, prefixed_hex_text(hash@)),
        found.is_none() ==> is_error(r, id, APPLICATION_ERROR, "Block hash not found"@),
{
    match found {
        Some(hash) => result_response(id, to_prefixed_hex(&hash)),
        None => error_response(id, APPLICATION_ERROR, String::from_str("Block hash not found")),
    }
}

/// A failure that has lost the request it belongs to.
#[derive(Clone, Debug, PartialEq, Eq)]
pub struct IndexerError {
    pub message: String,
}

impl IndexerError {
    /// The failure of a look-up because the store could not be read.
    pub fn store_unavailable() -> (e: IndexerError)
        ensures
            e.message@ == "DB connection error while fetching blockhash"@,
    {
        IndexerError { message: String::from_str("DB connection error while fetching blockhash") }
    }

    /// The response that reports the failure: an application error for
    /// request 0.
    pub fn error_response(&self) -> (r: Response)
        ensures
            is_error(r, 0, APPLICATION_ERROR, self.message@),
    {
        error_response(0, APPLICATION_ERROR, self.message.clone())
    }
}

/// The height that a number names.
fn number_to_height(n: Option<u64>) -> (height: u32)
    ensures
        height == number_height(n),
{
    match n {
        Some(v) => (v % 0x1_0000_0000) as u32,
        None => 0,
    }
}

/// The height that a parameter names, if it names one.
fn height_param(p: &Param, current: u32) -> (height: Option<u32>)
    ensures
        height == height_of(*p, current),
{
    match p {
        Param::Text(s) => {
            if same_text(s.as_str(), "latest") {
                Some(current)
            } else {
                None
            }
        },
        Param::Number(n) => Some(number_to_height(*n)),
        Param::Other => None,
    }
}

/// The text of a parameter, if it is a string.
fn text_param(p: &Param) -> (text: Option<String>)
    ensures
        text.is_some() == text_of(*p).is_some(),
        text matches Some(s) ==> Some(s@) == text_of(*p),
{
    match p {
        Param::Text(s) => Some(s.clone()),
        _ => None,
    }
}

/// The text that turns down input that is no hexadecimal data, of which the
/// decoder says `detail`.
pub fn invalid_input(detail: &str) -> (text: String)
    ensures
        text@ == "Invalid hex input: "@ + detail@,
{
    let mut text = String::from_str("Invalid hex input: ");
    text.append(detail);
    text
}

/// The text that turns down a block that is no hexadecimal data, of which
/// the decoder says `detail`.
pub fn invalid_block(detail: &str) -> (text: String)
    ensures
        text@ == "Invalid hex block data: "@ + detail@,
{
    let mut text = String::from_str("Invalid hex block data: ");
    text.append(detail);
    text
}

/// Decides what is to be done for a `metashrew_view` request.
fn handle_view(req: &JsonRpcRequest, current: u32) -> (action: Action)
    ensures
        view_handled(*req, current, action),
{
    if req.params.len() < 3 {
        return refuse(req.id, "Invalid params: requires [view_name, input_data, height]");
    }
    let name = match text_param(&req.params[0]) {
        Some(s) => s,
        None => {
            return refuse(req.id, "Invalid params: view_name must be a string");
        },
    };
    let input_hex = match text_param(&req.params[1]) {
        Some(s) => s,
        None => {
            return refuse(req.id, "Invalid params: input_data must be a hex string");
        },
    };
    let height = match height_param(&req.params[2], current) {
        Some(h) => h,
        None => {
            return refuse(req.id, "Invalid params: height must be a number or 'latest'");
        },
    };
    match from_prefixed_hex(input_hex.as_str()) {
        Ok(input) => Action::View { name, input, height },
        Err(detail) => Action::Respond(
            error_response(req.id, INVALID_PARAMS, invalid_input(detail.as_str())),
        ),
    }
}

/// Decides what is to be done for a `metashrew_preview` request.
fn handle_preview(req: &JsonRpcRequest, current: u32) -> (action: Action)
    ensures
        preview_handled(*req, current, action),
{
    if req.params.len() < 4 {
        return refuse(
            req.id,
            "Invalid params: requires [block_data, view_name, input_data, height]",
        );
    }
    let block_hex = match text_param(&req.params[0]) {
        Some(s) => s,
        None => {
            return refuse(req.id, "Invalid params: block_data must be a hex string");
        },
    };
    let name = match text_param(&req.params[1]) {
        Some(s) => s,
        None => {
            return refuse(req.id, "Invalid params: view_name must be a string");
        },
    };
    let input_hex = match text_param(&req.params[2]) {
        Some(s) => s,
        None => {
            return refuse(req.id, "Invalid params: input_data must be a hex string");
        },
    };
    let height = match height_param(&req.params[3], current) {
        Some(h) => h,
        None => {
            return refuse(req.id, "Invalid params: height must be a number or 'latest'");
        },
    };
    let block = match from_prefixed_hex(block_hex.as_str()) {
        Ok(bytes) => bytes,
        Err(detail) => {
            return Action::Respond(
                error_response(req.id, INVALID_PARAMS, invalid_block(detail.as_str())),
            );
        },
    };
    match from_prefixed_hex(input_hex.as_str()) {
        Ok(input) => Action::Preview { block, name, input, height },
        Err(detail) => Action::Respond(
            error_response(req.id, INVALID_PARAMS, invalid_input(detail.as_str())),
        ),
    }
}

/// Decides what is to be done for a `metashrew_getblockhash` request.
fn handle_blockhash(req: &JsonRpcRequest) -> (action: Action)
    ensures
        blockhash_handled(*req, action),
{
    if req.params.len() != 1 {
        return refuse(req.id, "Invalid params: requires [block_number]");
    }
    match &req.params[0] {
        Param::Number(n) => Action::BlockHash { key: hash_key(number_to_height(*n)) },
        _ => refuse(req.id, "Invalid params: block_number must be a number"),
    }
}

/// Decides what is to be done for `req` while `current` is the latest
/// indexed height: an answer at once, or a view, a preview or a look-up
/// whose outcome [`view_response`] or [`blockhash_response`] turns into the
/// answer.
pub fn handle_jsonrpc(req: &JsonRpcRequest, current: u32) -> (action: Action)
    ensures
        handled(*req, current, action),
{
    let method = req.method.as_str();
    if same_text(method, "metashrew_view") {
        handle_view(req, current)
    } else if same_text(method, "metashrew_preview") {
        handle_preview(req, current)
    } else if same_text(method, "metashrew_height") {
        Action::Respond(result_response(req.id, decimal_string(current as u64)))
    } else if same_text(method, "metashrew_getblockhash") {
        handle_blockhash(req)
    } else {
        let mut message = String::from_str("Method '");
        message.append(method);
        message.append("' not found");
        Action::Respond(error_response(req.id, METHOD_NOT_FOUND, message))
    }
}

/// Whether two responses say the same: the same result, or the same error
/// with the same code, text and data, for the same request.
pub open spec fn same_response(a: Response, b: Response) -> bool {
    match (a, b) {
        (Response::Result(x), Response::Result(y)) => x.id == y.id && x.result@ == y.result@
            && x.jsonrpc@ == y.jsonrpc@,
        (Response::Error(x), Response::Error(y)) => x.id == y.id && x.error.code == y.error.code
            && x.error.message@ == y.error.message@ && x.error.data.is_none()
            && y.error.data.is_none() && x.jsonrpc@ == y.jsonrpc@,
        _ => false,
    }
}

/// Whether two actions are the same: the same answer, or the same view,
/// preview or look-up with the same arguments.
pub open spec fn same_action(a: Action, b: Action) -> bool {
    match (a, b) {
        (Action::Respond(x), Action::Respond(y)) => same_response(x, y),
        (
            Action::View { name, input, height },
            Action::View { name: name2, input: input2, height: height2 },
        ) => name@ == name2@ && input@ == input2@ && height == height2,
        (
            Action::Preview { block, name, input, height },
            Action::Preview { block: block2, name: name2, input: input2, height: height2 },
        ) => block@ == block2@ && name@ == name2@ && input@ == input2@ && height == height2,
        (Action::BlockHash { key }, Action::BlockHash { key: key2 }) => key@ == key2@,
        _ => false,
    }
}

/// The same request is handled alike. While the latest indexed height is
/// the same, two requests with the same number, method and parameters are
/// answered with the same response or lead to the same view, preview or
/// look-up; so two views of the same name, input and height, with no commit
/// between them, are answered from the same run of the same view.
pub proof fn law_same_request_same_action(
    req: JsonRpcRequest,
    current: u32,
    first: Action,
    second: Action,
)
    requires
        handled(req, current, first),
        handled(req, current, second),
    ensures
        same_action(first, second),
{
}

/// The outcome of a view is answered alike: the same output, or the same
/// failure, gives the same response.
pub proof fn law_same_outcome_same_response(id: u32, output: Seq<u8>, first: Response, second: Response)
    requires
        is_result(first, id, prefixed_hex_text(output)),
        is_result(second, id, prefixed_hex_text(output)),
    ensures
        same_response(first, second),
{
}

/// A view asked for at a height given as a number is the same view whatever
/// the latest indexed height is: the same name, the same input, the same
/// height.
pub proof fn law_view_at_a_height_is_planned_alike(
    req: JsonRpcRequest,
    first_current: u32,
    second_current: u32,
    first: Action,
    second: Action,
)
    requires
        req.method@ == "metashrew_view"@,
        req.params@.len() >= 3,
        req.params@[2] is Number,
        handled(req, first_current, first),
        handled(req, second_current, second),
    ensures
        same_action(first, second),
{
}

} // verus!
