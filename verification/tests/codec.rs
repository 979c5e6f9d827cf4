use jsonrpc::message::{Error, Params, Request, Response};
use jsonrpc::text::to_text;
use jsonrpc::value::JsonValue;

fn named_fixture() -> Vec<(String, JsonValue)> {
    vec![
        ("key_1".to_string(), JsonValue::Str("value_1".to_string())),
        ("key_2".to_string(), JsonValue::U64(39)),
    ]
}

#[test]
fn params_named() {
    let json = JsonValue::Object(named_fixture());
    let params = Params::from_json(json).unwrap();
    let expected_params = Params::Named(named_fixture());
    assert_eq!(params, expected_params);
}

#[test]
fn params_number() {
    let json = JsonValue::U64(2465);
    let params = Params::from_json(json);
    assert!(params.is_err());
}

#[test]
fn params_string() {
    let json = JsonValue::Str("Lasagna is delicious".to_string());
    let params = Params::from_json(json);
    assert!(params.is_err());
}

#[test]
fn encode_request_positional() {
    let params = Params::Positional(vec![JsonValue::U64(1), JsonValue::U64(2)]);
    let mut request = Request::new("add", Some(params));
    request.set_id(JsonValue::U64(1));
    let text = to_text(&request.to_json());
    assert_eq!(
        text,
        "{\"jsonrpc\":\"2.0\",\"method\":\"add\",\"params\":[1,2],\"id\":1}"
    );
}

#[test]
fn encode_request_without_params_or_id() {
    let request = Request::new("ping", None);
    let text = to_text(&request.to_json());
    assert_eq!(text, "{\"jsonrpc\":\"2.0\",\"method\":\"ping\"}");
}

#[test]
fn encode_request_named_params() {
    let params = Params::Named(vec![("a".to_string(), JsonValue::I64(-7))]);
    let mut request = Request::new("sub", Some(params));
    request.set_id(JsonValue::Str("q".to_string()));
    let text = to_text(&request.to_json());
    assert_eq!(
        text,
        "{\"jsonrpc\":\"2.0\",\"method\":\"sub\",\"params\":{\"a\":-7},\"id\":\"q\"}"
    );
}

#[test]
fn encode_response_success() {
    let mut response = Response::new(Ok(JsonValue::U64(3)));
    response.set_id(JsonValue::U64(1));
    let text = to_text(&response.to_json());
    assert_eq!(text, "{\"jsonrpc\":\"2.0\",\"id\":1,\"result\":3}");
}

#[test]
fn encode_response_without_id_uses_null() {
    let response = Response::new(Ok(JsonValue::Bool(true)));
    let text = to_text(&response.to_json());
    assert_eq!(text, "{\"jsonrpc\":\"2.0\",\"id\":null,\"result\":true}");
}

#[test]
fn encode_error_with_data() {
    let error = Error::new(-32000, "boom", Some(JsonValue::Str("why".to_string())));
    let text = to_text(&error.to_json());
    assert_eq!(
        text,
        "{\"code\":-32000,\"message\":\"boom\",\"data\":\"why\"}"
    );
}

#[test]
fn encode_escapes_strings() {
    let value = JsonValue::Str("a\"b\\c\nd\u{1f}".to_string());
    let text = to_text(&value);
    assert_eq!(text, "\"a\\\"b\\\\c\\nd\\u001f\"");
}

#[test]
fn encode_integer_edges() {
    assert_eq!(to_text(&JsonValue::U64(0)), "0");
    assert_eq!(to_text(&JsonValue::U64(u64::MAX)), "18446744073709551615");
    assert_eq!(to_text(&JsonValue::I64(i64::MIN)), "-9223372036854775808");
}

#[test]
fn decode_request_round_trip() {
    let params = Params::Named(vec![("x".to_string(), JsonValue::Null)]);
    let mut request = Request::new("mul", Some(params));
    request.set_id(JsonValue::U64(9));
    let decoded = Request::from_json(request.to_json()).unwrap();
    assert_eq!(decoded, request);
}

#[test]
fn decode_response_round_trip() {
    let mut response = Response::new(Err(Error::method_not_found()));
    response.set_id(JsonValue::U64(4));
    let decoded = Response::from_json(response.to_json()).unwrap();
    assert_eq!(decoded, response);
}

#[test]
fn decode_error_round_trip() {
    let error = Error::new(-32099, "server error", Some(JsonValue::U64(12)));
    let decoded = Error::from_json(error.to_json()).unwrap();
    assert_eq!(decoded, error);
}

#[test]
fn decode_params_round_trip() {
    let params = Params::Positional(vec![JsonValue::Bool(false), JsonValue::Str("s".to_string())]);
    let decoded = Params::from_json(params.to_json()).unwrap();
    assert_eq!(decoded, params);
}

#[test]
fn decode_request_needs_string_method() {
    let json = JsonValue::Object(vec![("method".to_string(), JsonValue::U64(5))]);
    assert_eq!(Request::from_json(json), Err(Error::invalid_request()));
    let json = JsonValue::Object(vec![("id".to_string(), JsonValue::U64(5))]);
    assert_eq!(Request::from_json(json), Err(Error::invalid_request()));
    assert_eq!(
        Request::from_json(JsonValue::Str("x".to_string())),
        Err(Error::invalid_request())
    );
}

#[test]
fn decode_request_rejects_bad_params() {
    let json = JsonValue::Object(vec![
        ("method".to_string(), JsonValue::Str("m".to_string())),
        ("params".to_string(), JsonValue::U64(3)),
    ]);
    assert_eq!(Request::from_json(json), Err(Error::invalid_request()));
}

#[test]
fn decode_response_needs_id_member() {
    let json = JsonValue::Object(vec![("result".to_string(), JsonValue::U64(1))]);
    assert_eq!(Response::from_json(json), Err(Error::invalid_request()));
}

#[test]
fn decode_response_needs_exactly_one_payload() {
    let both = JsonValue::Object(vec![
        ("id".to_string(), JsonValue::U64(1)),
        ("result".to_string(), JsonValue::U64(1)),
        ("error".to_string(), JsonValue::Null),
    ]);
    assert_eq!(Response::from_json(both), Err(Error::invalid_request()));
    let neither = JsonValue::Object(vec![("id".to_string(), JsonValue::U64(1))]);
    assert_eq!(Response::from_json(neither), Err(Error::invalid_request()));
}

#[test]
fn decode_response_null_id_is_kept() {
    let json = JsonValue::Object(vec![
        ("id".to_string(), JsonValue::Null),
        ("result".to_string(), JsonValue::U64(1)),
    ]);
    let response = Response::from_json(json).unwrap();
    assert_eq!(response.id, Some(JsonValue::Null));
}

#[test]
fn decode_error_needs_code_and_message() {
    let no_code = JsonValue::Object(vec![(
        "message".to_string(),
        JsonValue::Str("m".to_string()),
    )]);
    assert!(Error::from_json(no_code).is_err());
    let bad_message = JsonValue::Object(vec![
        ("code".to_string(), JsonValue::I64(-1)),
        ("message".to_string(), JsonValue::U64(2)),
    ]);
    assert!(Error::from_json(bad_message).is_err());
}

#[test]
fn reserved_error_codes() {
    assert_eq!(
        to_text(&Error::parse_error().to_json()),
        "{\"code\":-32700,\"message\":\"Parse error\"}"
    );
    assert_eq!(
        to_text(&Error::invalid_request().to_json()),
        "{\"code\":-32600,\"message\":\"Invalid request\"}"
    );
    assert_eq!(
        to_text(&Error::method_not_found().to_json()),
        "{\"code\":-32601,\"message\":\"Method not found\"}"
    );
    assert_eq!(
        to_text(&Error::invalid_params().to_json()),
        "{\"code\":-32602,\"message\":\"Invalid params\"}"
    );
    assert_eq!(
        to_text(&Error::internal_error().to_json()),
        "{\"code\":-32603,\"message\":\"Internal error\"}"
    );
}
