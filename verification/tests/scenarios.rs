use jsonrpc_types::{
    decode_request, decode_request_lenient, decode_response, encode_request, Call, DecodeError,
    Id, JsonValue, MethodCall, Notification, Number, Output, Params, Request, Version,
};

#[test]
fn a_method_call_of_dialect_one_comes_back_as_it_was_sent() {
    let text = r#"{"method":"foo","params":[1,true],"id":1}"#;
    let request = decode_request(text).unwrap();
    assert_eq!(
        request,
        Request::Single(Call::MethodCall(MethodCall {
            jsonrpc: None,
            method: "foo".to_string(),
            params: Some(Params::Array(vec![
                JsonValue::Number(Number::PosInt(1)),
                JsonValue::Bool(true)
            ])),
            id: Id::Num(1),
        }))
    );
    assert_eq!(encode_request(&request).unwrap(), text);
}

#[test]
fn a_call_of_dialect_two_without_an_id_is_a_notification() {
    let text = r#"{"jsonrpc":"2.0","method":"foo","params":[]}"#;
    assert_eq!(
        decode_request(text).unwrap(),
        Request::Single(Call::Notification(Notification {
            jsonrpc: Some(Version::V2_0),
            method: "foo".to_string(),
            params: Some(Params::Array(vec![])),
        }))
    );
}

#[test]
fn a_response_with_result_and_error_is_rejected() {
    let text = r#"{"jsonrpc":"2.0","result":true,"error":{"code":-32600,"message":"Invalid request"},"id":2}"#;
    assert_eq!(decode_response(text), Err(DecodeError::IncompatibleDialect));
}

#[test]
fn a_batch_of_two_method_calls_keeps_its_order() {
    let text = r#"[{"method":"foo","params":[],"id":1},{"method":"bar","params":[],"id":2}]"#;
    assert_eq!(
        decode_request(text).unwrap(),
        Request::Batch(vec![
            Call::MethodCall(MethodCall {
                jsonrpc: None,
                method: "foo".to_string(),
                params: Some(Params::Array(vec![])),
                id: Id::Num(1),
            }),
            Call::MethodCall(MethodCall {
                jsonrpc: None,
                method: "bar".to_string(),
                params: Some(Params::Array(vec![])),
                id: Id::Num(2),
            }),
        ])
    );
}

#[test]
fn the_invalid_request_output_of_dialect_two() {
    assert_eq!(
        Output::invalid_request(Some(Version::V2_0), Id::Num(2)).encode().unwrap(),
        r#"{"jsonrpc":"2.0","error":{"code":-32600,"message":"Invalid request"},"id":2}"#
    );
}

#[test]
fn an_unknown_member_alone_is_no_call() {
    let text = r#"{"unknown":[]}"#;
    assert_eq!(decode_request(text), Err(DecodeError::UnknownField));
    assert_eq!(Call::decode(text), Err(DecodeError::UnknownField));
    assert_eq!(
        decode_request_lenient(text).unwrap(),
        Request::Single(Call::Invalid { id: Id::Null })
    );
}

#[test]
fn the_id_of_a_method_call_is_preserved() {
    for version in [None, Some(Version::V2_0)] {
        let call = MethodCall {
            jsonrpc: version,
            method: "foo".to_string(),
            params: Some(Params::Array(vec![])),
            id: Id::Num(7),
        };
        assert_eq!(MethodCall::decode(&call.encode().unwrap()).unwrap().id, Id::Num(7));
        let tree = call.to_json().unwrap();
        assert_eq!(MethodCall::from_json(&tree).unwrap().id, Id::Num(7));
        assert_eq!(Call::from_json(&tree).unwrap(), Call::MethodCall(call));
    }
}
