use rockshrew::rpc::{
    blockhash_response, error_response, handle_jsonrpc, invalid_block, invalid_input,
    result_response, view_response, Action, IndexerError, JsonRpcError, JsonRpcErrorObject,
    JsonRpcRequest, JsonRpcResult, Param, Response, APPLICATION_ERROR, INVALID_PARAMS,
    METHOD_NOT_FOUND,
};

fn request(id: u32, method: &str, params: Vec<Param>) -> JsonRpcRequest {
    JsonRpcRequest { id, method: method.to_string(), params, jsonrpc: "2.0".to_string() }
}

fn text(s: &str) -> Param {
    Param::Text(s.to_string())
}

fn number(n: u64) -> Param {
    Param::Number(Some(n))
}

fn result(id: u32, result: &str) -> Response {
    Response::Result(JsonRpcResult { id, result: result.to_string(), jsonrpc: "2.0".to_string() })
}

fn error(id: u32, code: i32, message: &str) -> Response {
    Response::Error(JsonRpcError {
        id,
        error: JsonRpcErrorObject { code, message: message.to_string(), data: None },
        jsonrpc: "2.0".to_string(),
    })
}

fn refused(id: u32, message: &str) -> Action {
    Action::Respond(error(id, -32602, message))
}

#[test]
fn the_error_codes_are_those_of_the_protocol() {
    assert_eq!(METHOD_NOT_FOUND, -32601);
    assert_eq!(INVALID_PARAMS, -32602);
    assert_eq!(APPLICATION_ERROR, -32000);
}

#[test]
fn responses_are_version_two_and_carry_no_data() {
    assert_eq!(result_response(7, "0x01".to_string()), result(7, "0x01"));
    assert_eq!(error_response(7, -32000, "boom".to_string()), error(7, -32000, "boom"));
}

#[test]
fn a_view_at_a_height_is_planned() {
    let req = request(1, "metashrew_view", vec![text("get"), text("0x6b"), number(2)]);
    assert_eq!(
        handle_jsonrpc(&req, 2),
        Action::View { name: "get".to_string(), input: vec![0x6b], height: 2 }
    );
    let req = request(1, "metashrew_view", vec![text("get"), text("0x6b"), number(1)]);
    assert_eq!(
        handle_jsonrpc(&req, 2),
        Action::View { name: "get".to_string(), input: vec![0x6b], height: 1 }
    );
}

#[test]
fn the_output_of_a_view_is_answered_in_hexadecimal() {
    assert_eq!(view_response(1, Ok(vec![2, 0, 0, 0])), result(1, "0x02000000"));
    assert_eq!(view_response(1, Ok(vec![1, 0, 0, 0])), result(1, "0x01000000"));
    assert_eq!(view_response(9, Ok(vec![0x63, 0, 0, 0])), result(9, "0x63000000"));
    assert_eq!(view_response(9, Ok(vec![])), result(9, "0x"));
}

#[test]
fn a_failed_view_is_an_application_error() {
    assert_eq!(
        view_response(4, Err("wasm trap: unreachable".to_string())),
        error(4, -32000, "wasm trap: unreachable")
    );
}

#[test]
fn latest_is_the_watermark() {
    let req = request(3, "metashrew_view", vec![text("get"), text("6b"), text("latest")]);
    assert_eq!(
        handle_jsonrpc(&req, 840000),
        Action::View { name: "get".to_string(), input: vec![0x6b], height: 840000 }
    );
}

#[test]
fn a_number_that_is_no_height_counts_as_zero_and_a_large_one_is_reduced() {
    let req = request(3, "metashrew_view", vec![text("get"), text(""), Param::Number(None)]);
    assert_eq!(handle_jsonrpc(&req, 5), Action::View { name: "get".to_string(), input: vec![], height: 0 });
    let req = request(3, "metashrew_view", vec![text("get"), text(""), number(4294967296 + 7)]);
    assert_eq!(handle_jsonrpc(&req, 5), Action::View { name: "get".to_string(), input: vec![], height: 7 });
    let req = request(3, "metashrew_view", vec![text("get"), text(""), number(u32::MAX as u64)]);
    assert_eq!(
        handle_jsonrpc(&req, 5),
        Action::View { name: "get".to_string(), input: vec![], height: u32::MAX }
    );
}

#[test]
fn further_parameters_of_a_view_are_passed_over() {
    let req = request(3, "metashrew_view", vec![text("get"), text("0x"), number(1), Param::Other]);
    assert_eq!(handle_jsonrpc(&req, 5), Action::View { name: "get".to_string(), input: vec![], height: 1 });
}

#[test]
fn a_view_with_wrong_parameters_is_refused() {
    let too_few = "Invalid params: requires [view_name, input_data, height]";
    assert_eq!(handle_jsonrpc(&request(5, "metashrew_view", vec![]), 0), refused(5, too_few));
    assert_eq!(
        handle_jsonrpc(&request(5, "metashrew_view", vec![text("get"), text("0x")]), 0),
        refused(5, too_few)
    );
    assert_eq!(
        handle_jsonrpc(&request(5, "metashrew_view", vec![number(1), text("0x"), number(1)]), 0),
        refused(5, "Invalid params: view_name must be a string")
    );
    assert_eq!(
        handle_jsonrpc(&request(5, "metashrew_view", vec![text("get"), Param::Other, number(1)]), 0),
        refused(5, "Invalid params: input_data must be a hex string")
    );
    assert_eq!(
        handle_jsonrpc(&request(5, "metashrew_view", vec![text("get"), text("0x"), Param::Other]), 0),
        refused(5, "Invalid params: height must be a number or 'latest'")
    );
    assert_eq!(
        handle_jsonrpc(&request(5, "metashrew_view", vec![text("get"), text("0x"), text("newest")]), 0),
        refused(5, "Invalid params: height must be a number or 'latest'")
    );
    assert_eq!(
        handle_jsonrpc(&request(5, "metashrew_view", vec![number(1), Param::Other, Param::Other]), 0),
        refused(5, "Invalid params: view_name must be a string")
    );
}

#[test]
fn input_that_is_no_hexadecimal_data_is_refused_as_invalid_parameters() {
    let req = request(4, "metashrew_view", vec![text("get"), text("0xzz"), number(1)]);
    assert_eq!(
        handle_jsonrpc(&req, 0),
        refused(4, "Invalid hex input: Invalid character 'z' at position 0")
    );
    match handle_jsonrpc(&req, 0) {
        Action::Respond(Response::Error(e)) => {
            assert_eq!(e.id, 4);
            assert_eq!(e.error.code, -32602);
        }
        other => panic!("{:?}", other),
    }
    let req = request(5, "metashrew_view", vec![text("get"), text("0x6"), number(1)]);
    assert_eq!(handle_jsonrpc(&req, 0), refused(5, "Invalid hex input: Odd number of digits"));
    assert_eq!(invalid_input("Odd number of digits"), "Invalid hex input: Odd number of digits");
    assert_eq!(invalid_block("Odd number of digits"), "Invalid hex block data: Odd number of digits");
}

#[test]
fn a_preview_is_planned() {
    let req = request(
        8,
        "metashrew_preview",
        vec![text("0xb10c"), text("get"), text("0x6b"), text("latest")],
    );
    assert_eq!(
        handle_jsonrpc(&req, 2),
        Action::Preview { block: vec![0xb1, 0x0c], name: "get".to_string(), input: vec![0x6b], height: 2 }
    );
    let req = request(8, "metashrew_preview", vec![text("b10c"), text("get"), text("6b"), number(1)]);
    assert_eq!(
        handle_jsonrpc(&req, 2),
        Action::Preview { block: vec![0xb1, 0x0c], name: "get".to_string(), input: vec![0x6b], height: 1 }
    );
}

#[test]
fn a_preview_with_wrong_parameters_is_refused() {
    let too_few = "Invalid params: requires [block_data, view_name, input_data, height]";
    assert_eq!(
        handle_jsonrpc(&request(5, "metashrew_preview", vec![text("00"), text("get"), text("0x")]), 0),
        refused(5, too_few)
    );
    let good = || vec![text("00"), text("get"), text("0x"), number(1)];
    let mut params = good();
    params[0] = number(0);
    assert_eq!(
        handle_jsonrpc(&request(5, "metashrew_preview", params), 0),
        refused(5, "Invalid params: block_data must be a hex string")
    );
    let mut params = good();
    params[1] = Param::Other;
    assert_eq!(
        handle_jsonrpc(&request(5, "metashrew_preview", params), 0),
        refused(5, "Invalid params: view_name must be a string")
    );
    let mut params = good();
    params[2] = Param::Other;
    assert_eq!(
        handle_jsonrpc(&request(5, "metashrew_preview", params), 0),
        refused(5, "Invalid params: input_data must be a hex string")
    );
    let mut params = good();
    params[3] = text("tip");
    assert_eq!(
        handle_jsonrpc(&request(5, "metashrew_preview", params), 0),
        refused(5, "Invalid params: height must be a number or 'latest'")
    );
    let mut params = good();
    params[0] = text("0xb10");
    assert_eq!(
        handle_jsonrpc(&request(5, "metashrew_preview", params), 0),
        refused(5, "Invalid hex block data: Odd number of digits")
    );
    let mut params = good();
    params[2] = text("0xq0");
    assert_eq!(
        handle_jsonrpc(&request(5, "metashrew_preview", params), 0),
        refused(5, "Invalid hex input: Invalid character 'q' at position 0")
    );
    let mut params = good();
    params[0] = text("0xb10");
    params[2] = text("0xq0");
    assert_eq!(
        handle_jsonrpc(&request(5, "metashrew_preview", params), 0),
        refused(5, "Invalid hex block data: Odd number of digits")
    );
}

#[test]
fn the_height_is_answered_in_decimal() {
    assert_eq!(
        handle_jsonrpc(&request(2, "metashrew_height", vec![]), 101),
        Action::Respond(result(2, "101"))
    );
    assert_eq!(
        handle_jsonrpc(&request(2, "metashrew_height", vec![Param::Other]), 0),
        Action::Respond(result(2, "0"))
    );
    assert_eq!(
        handle_jsonrpc(&request(2, "metashrew_height", vec![]), u32::MAX),
        Action::Respond(result(2, "4294967295"))
    );
}

#[test]
fn a_block_hash_is_looked_up_under_its_key() {
    let req = request(6, "metashrew_getblockhash", vec![number(12)]);
    assert_eq!(
        handle_jsonrpc(&req, 0),
        Action::BlockHash { key: b"/__INTERNAL/height-to-hash/12".to_vec() }
    );
    let req = request(6, "metashrew_getblockhash", vec![Param::Number(None)]);
    assert_eq!(
        handle_jsonrpc(&req, 0),
        Action::BlockHash { key: b"/__INTERNAL/height-to-hash/0".to_vec() }
    );
}

#[test]
fn a_block_hash_request_with_wrong_parameters_is_refused() {
    assert_eq!(
        handle_jsonrpc(&request(6, "metashrew_getblockhash", vec![]), 0),
        refused(6, "Invalid params: requires [block_number]")
    );
    assert_eq!(
        handle_jsonrpc(&request(6, "metashrew_getblockhash", vec![number(1), number(2)]), 0),
        refused(6, "Invalid params: requires [block_number]")
    );
    assert_eq!(
        handle_jsonrpc(&request(6, "metashrew_getblockhash", vec![text("12")]), 0),
        refused(6, "Invalid params: block_number must be a number")
    );
}

#[test]
fn an_unknown_height_is_an_application_error() {
    assert_eq!(blockhash_response(6, None), error(6, -32000, "Block hash not found"));
    match blockhash_response(6, None) {
        Response::Error(e) => assert_eq!(e.error.code, -32000),
        Response::Result(_) => panic!("an unknown height has no hash"),
    }
}

#[test]
fn a_known_block_hash_is_answered_in_hexadecimal() {
    let mut hash = vec![0u8; 32];
    hash[31] = 0xab;
    let mut expected = "0x".to_string();
    expected.push_str(&"00".repeat(31));
    expected.push_str("ab");
    assert_eq!(blockhash_response(6, Some(hash)), result(6, &expected));
}

#[test]
fn the_same_request_is_answered_alike() {
    for params in [
        vec![text("get"), text("0x6b"), number(2)],
        vec![text("get"), text("0xzz"), number(2)],
        vec![text("get"), text("0x6"), number(2)],
        vec![text("get"), number(1), number(2)],
        vec![],
    ] {
        let first = handle_jsonrpc(&request(9, "metashrew_view", params.clone()), 2);
        let second = handle_jsonrpc(&request(9, "metashrew_view", params), 2);
        assert_eq!(first, second);
    }
    assert_eq!(view_response(9, Ok(vec![1, 2])), view_response(9, Ok(vec![1, 2])));
    assert_eq!(
        view_response(9, Err("trap".to_string())),
        view_response(9, Err("trap".to_string()))
    );
}

#[test]
fn an_unknown_method_is_not_found() {
    assert_eq!(
        handle_jsonrpc(&request(11, "metashrew_nothing", vec![]), 0),
        Action::Respond(error(11, -32601, "Method 'metashrew_nothing' not found"))
    );
    assert_eq!(
        handle_jsonrpc(&request(11, "", vec![]), 0),
        Action::Respond(error(11, -32601, "Method '' not found"))
    );
    assert_eq!(
        handle_jsonrpc(&request(11, "Metashrew_height", vec![]), 0),
        Action::Respond(error(11, -32601, "Method 'Metashrew_height' not found"))
    );
}

#[test]
fn a_failure_without_its_request_is_reported_for_request_zero() {
    let e = IndexerError::store_unavailable();
    assert_eq!(e.message, "DB connection error while fetching blockhash");
    assert_eq!(
        e.error_response(),
        error(0, -32000, "DB connection error while fetching blockhash")
    );
}
