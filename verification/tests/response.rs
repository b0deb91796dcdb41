use jsonrpc_types::{
    decode_response, encode_response, DecodeError, Dialect, EncodeError, Error, ErrorCode,
    Failure, Field, Id, JsonValue, Member, Number, Output, Response, Success, Version,
};

fn success_response_cases() -> Vec<(Success, &'static str)> {
    vec![
        (
            // 1.0 success response
            Success { jsonrpc: None, result: JsonValue::Bool(true), id: Id::Num(1) },
            r#"{"result":true,"error":null,"id":1}"#,
        ),
        (
            // 2.0 success response
            Success {
                jsonrpc: Some(Version::V2_0),
                result: JsonValue::Bool(true),
                id: Id::Num(1),
            },
            r#"{"jsonrpc":"2.0","result":true,"id":1}"#,
        ),
    ]
}

fn failure_response_cases() -> Vec<(Failure, &'static str)> {
    vec![
        (
            // 1.0 failure response
            Failure { jsonrpc: None, error: Error::parse_error(), id: Id::Num(1) },
            r#"{"error":{"code":-32700,"message":"Parse error"},"result":null,"id":1}"#,
        ),
        (
            // 2.0 failure response
            Failure { jsonrpc: Some(Version::V2_0), error: Error::parse_error(), id: Id::Num(1) },
            r#"{"jsonrpc":"2.0","error":{"code":-32700,"message":"Parse error"},"id":1}"#,
        ),
    ]
}

fn check_success_cases() {
    for (success_response, expect) in success_response_cases() {
        let ser = success_response.encode().unwrap();
        assert_eq!(ser, expect);
        let de = Success::decode(expect).unwrap();
        assert_eq!(de, success_response);
    }
}

fn check_failure_cases() {
    for (failure_response, expect) in failure_response_cases() {
        let ser = failure_response.encode().unwrap();
        assert_eq!(ser, expect);
        let de = Failure::decode(expect).unwrap();
        assert_eq!(de, failure_response);
    }
}

fn check_output_cases() {
    for (success_response, expect) in success_response_cases() {
        let response_output = Output::Success(success_response);
        assert_eq!(response_output.encode().unwrap(), expect);
        assert_eq!(Output::decode(expect).unwrap(), response_output);
    }

    for (failure_response, expect) in failure_response_cases() {
        let response_output = Output::Failure(failure_response);
        assert_eq!(response_output.encode().unwrap(), expect);
        assert_eq!(Output::decode(expect).unwrap(), response_output);
    }
}

fn check_response_cases() {
    for (success_resp, expect) in success_response_cases() {
        let success_response = Response::Single(Output::Success(success_resp.clone()));
        assert_eq!(encode_response(&success_response).unwrap(), expect);
        assert_eq!(decode_response(expect).unwrap(), success_response);
    }

    for (failure_resp, expect) in failure_response_cases() {
        let failure_response = Response::Single(Output::Failure(failure_resp.clone()));
        assert_eq!(encode_response(&failure_response).unwrap(), expect);
        assert_eq!(decode_response(expect).unwrap(), failure_response);
    }

    for ((success_resp, success_expect), (failure_resp, failure_expect)) in
        success_response_cases().into_iter().zip(failure_response_cases())
    {
        let batch_response =
            Response::Batch(vec![Output::Success(success_resp), Output::Failure(failure_resp)]);
        let batch_expect = format!("[{},{}]", success_expect, failure_expect);
        assert_eq!(encode_response(&batch_response).unwrap(), batch_expect);
        assert_eq!(decode_response(&batch_expect).unwrap(), batch_response);
    }
}

#[test]
fn response_success_response_serialization() {
    check_success_cases();
}

#[test]
fn response_failure_response_serialization() {
    check_failure_cases();
}

#[test]
fn response_response_output_serialization() {
    check_output_cases();

    // a 1.0 failure may name `result` before `error`
    let failure = Output::Failure(Failure {
        jsonrpc: None,
        error: Error::parse_error(),
        id: Id::Num(1),
    });
    let text = r#"{"result":null,"error":{"code":-32700,"message":"Parse error"},"id":1}"#;
    assert_eq!(Output::decode(text).unwrap(), failure);
}

#[test]
fn response_response_serialization() {
    check_response_cases();

    let batch_response = Response::Batch(vec![
        Output::Success(Success { jsonrpc: None, result: JsonValue::Bool(true), id: Id::Num(1) }),
        Output::Success(Success { jsonrpc: None, result: JsonValue::Bool(false), id: Id::Num(2) }),
    ]);
    let batch_expect =
        r#"[{"result":true,"error":null,"id":1},{"result":false,"error":null,"id":2}]"#;
    assert_eq!(encode_response(&batch_response).unwrap(), batch_expect);
    assert_eq!(decode_response(batch_expect).unwrap(), batch_response);
}

#[test]
fn response_invalid_response() {
    let cases = vec![
        // 1.0 invalid response
        r#"{
                "result":true,
                "id":1,
                "unknown":[]
            }"#,
        r#"{
                "result":true,
                "error":{
                    "code": -32700,
                    "message": "Parse error"
                },
                "id":1
            }"#,
        r#"{
                "result":true,
                "error":{
                    "code": -32700,
                    "message": "Parse error"
                },
                "id":1
            }"#,
        r#"{"unknown":[]}"#,
        r#"{"result":true,"error":null,"id":1,unknown:[]}"#,
        r#"{"result":true,"error":{"code": -32700,"message": "Parse error"},"id":1}"#,
        r#"{"result":true,"error":{"code": -32700,"message": "Parse error"}}"#,
        r#"{"result":true,"id":1}"#,
        r#"{"error":{"code": -32700,"message": "Parse error"},"id":1}"#,
        // 2.0 invalid response
        r#"{
                "jsonrpc":"2.0",
                "result":true,
                "id":1,
                "unknown":[]
            }"#,
        r#"{
                "jsonrpc":"2.0",
                "error":{
                    "code": -32700,
                    "message": "Parse error"
                },
                "id":1,
                "unknown":[]
            }"#,
        r#"{
                "jsonrpc":"2.0",
                "result":true,
                "error":{
                    "code": -32700,
                    "message": "Parse error"
                },
                "id":1
            }"#,
        r#"{"jsonrpc":"2.0","unknown":[]}"#,
        r#"{"jsonrpc":"2.0","result":true,"id":1,"unknown":[]}"#,
        r#"{"jsonrpc":"2.0","error":{"code": -32700,"message": "Parse error"},"id":1,"unknown":[]}"#,
        r#"{"jsonrpc":"2.0","result":true,"error":{"code": -32700,"message": "Parse error"},"id":1}"#,
        r#"{"jsonrpc":"2.0","id":1}"#,
    ];

    for case in cases {
        let response = decode_response(case);
        assert!(response.is_err());
    }
}

#[test]
fn response_valid_response() {
    let cases = vec![
        // 1.0 valid response
        r#"{"result":true,"error":null,"id":1}"#,
        r#"{"result":null,"error":{"code": -32700,"message": "Parse error"},"id":1}"#,
        // 2.0 valid response
        r#"{"jsonrpc":"2.0","result":true,"id":1}"#,
        r#"{"jsonrpc":"2.0","error":{"code": -32700,"message": "Parse error"},"id":1}"#,
    ];

    for case in cases {
        let response = decode_response(case);
        assert!(response.is_ok());
    }
}

#[test]
fn mod_success_response_serialization() {
    check_success_cases();
}

#[test]
fn mod_failure_response_serialization() {
    check_failure_cases();
}

#[test]
fn mod_response_output_serialization() {
    check_output_cases();
}

#[test]
fn mod_response_serialization() {
    check_response_cases();
}

#[test]
fn mod_invalid_response() {
    let cases = vec![
        // 1.0 invalid response
        r#"{"result":true,"error":null,"id":1,unknown:[]}"#,
        r#"{"result":true,"error":{"code": -32700,"message": "Parse error"},"id":1}"#,
        r#"{"result":true,"error":{"code": -32700,"message": "Parse error"}}"#,
        r#"{"result":true,"id":1}"#,
        r#"{"error":{"code": -32700,"message": "Parse error"},"id":1}"#,
        r#"{"unknown":[]}"#,
        // 2.0 invalid response
        r#"{"jsonrpc":"2.0","result":true,"id":1,"unknown":[]}"#,
        r#"{"jsonrpc":"2.0","error":{"code": -32700,"message": "Parse error"},"id":1,"unknown":[]}"#,
        r#"{"jsonrpc":"2.0","result":true,"error":{"code": -32700,"message": "Parse error"},"id":1}"#,
        r#"{"jsonrpc":"2.0","id":1}"#,
        r#"{"jsonrpc":"2.0","unknown":[]}"#,
    ];

    for case in cases {
        let response = decode_response(case);
        assert!(response.is_err());
    }
}

#[test]
fn mod_valid_response() {
    let cases = vec![
        // 1.0 valid response
        r#"{"result":true,"error":null,"id":1}"#,
        r#"{"result":null,"error":{"code": -32700,"message": "Parse error"},"id":1}"#,
        // 2.0 valid response
        r#"{"jsonrpc":"2.0","result":true,"id":1}"#,
        r#"{"jsonrpc":"2.0","error":{"code": -32700,"message": "Parse error"},"id":1}"#,
    ];

    for case in cases {
        let response = decode_response(case);
        assert!(response.is_ok());
    }
}

#[test]
fn constructors_of_responses() {
    let success = Success::new_v1(JsonValue::Bool(true), Id::Num(1));
    assert_eq!(
        encode_response(&Response::Single(Output::Success(success.clone()))).unwrap(),
        r#"{"result":true,"error":null,"id":1}"#
    );
    let failure = Failure::new_v1(Error::invalid_request(), Id::Num(2));
    assert_eq!(
        encode_response(&Response::Single(Output::Failure(failure.clone()))).unwrap(),
        r#"{"error":{"code":-32600,"message":"Invalid request"},"result":null,"id":2}"#
    );
    assert_eq!(
        encode_response(&Response::Batch(vec![
            Output::Success(success),
            Output::Failure(failure)
        ]))
        .unwrap(),
        r#"[{"result":true,"error":null,"id":1},{"error":{"code":-32600,"message":"Invalid request"},"result":null,"id":2}]"#
    );

    let success = Success::new_v2(JsonValue::Bool(true), Id::Num(1));
    assert_eq!(success.encode().unwrap(), r#"{"jsonrpc":"2.0","result":true,"id":1}"#);
    let failure = Failure::new_v2(Error::invalid_request(), Id::Num(2));
    assert_eq!(
        failure.encode().unwrap(),
        r#"{"jsonrpc":"2.0","error":{"code":-32600,"message":"Invalid request"},"id":2}"#
    );
    assert_eq!(Failure::new(None, Error::parse_error(), Id::Null).jsonrpc, None);
    assert_eq!(
        Failure::new(Some(Version::V2_0), Error::parse_error(), Id::Null),
        Failure::new_v2(Error::parse_error(), Id::Null)
    );
    assert_eq!(
        Success::new(None, JsonValue::Null, Id::Num(3)),
        Success::new_v1(JsonValue::Null, Id::Num(3))
    );
}

#[test]
fn output_is_built_from_a_result() {
    let ok = Output::new(Some(Version::V2_0), Ok(JsonValue::Bool(true)), Id::Num(1));
    assert_eq!(ok, Output::Success(Success::new_v2(JsonValue::Bool(true), Id::Num(1))));
    assert_eq!(ok, Output::success(Some(Version::V2_0), JsonValue::Bool(true), Id::Num(1)));
    assert_eq!(ok.version(), Some(Version::V2_0));
    assert_eq!(ok.id(), Id::Num(1));
    assert_eq!(ok.into_result(), Ok(JsonValue::Bool(true)));

    let err = Output::new(None, Err(Error::method_not_found()), Id::Str("a".to_string()));
    assert_eq!(
        err,
        Output::Failure(Failure::new_v1(Error::method_not_found(), Id::Str("a".to_string())))
    );
    assert_eq!(err, Output::failure(None, Error::method_not_found(), Id::Str("a".to_string())));
    assert_eq!(err.version(), None);
    assert_eq!(err.id(), Id::Str("a".to_string()));
    assert_eq!(err.into_result(), Err(Error::method_not_found()));
}

#[test]
fn well_formed_responses() {
    let ok = Output::Success(Success::new_v2(JsonValue::Null, Id::Num(1)));
    assert!(ok.is_well_formed());
    assert_eq!(ok.dialect(), Dialect::V2);
    let null_v1 = Output::Success(Success::new_v1(JsonValue::Null, Id::Num(1)));
    assert!(!null_v1.is_well_formed());
    assert_eq!(null_v1.dialect(), Dialect::V1);
    let failure = Output::Failure(Failure::new_v1(Error::parse_error(), Id::Null));
    assert!(failure.is_well_formed());
    assert!(Response::Batch(vec![ok.clone(), failure.clone()]).is_well_formed());
    assert!(!Response::Batch(vec![ok, null_v1.clone(), failure]).is_well_formed());
    assert!(!Response::Single(null_v1).is_well_formed());
    let from: Response = Success::new_v2(JsonValue::Bool(true), Id::Num(1)).into();
    assert_eq!(
        from,
        Response::Single(Output::Success(Success::new_v2(JsonValue::Bool(true), Id::Num(1))))
    );
    let from: Response = Failure::new_v2(Error::parse_error(), Id::Num(1)).into();
    assert_eq!(
        from,
        Response::Single(Output::Failure(Failure::new_v2(Error::parse_error(), Id::Num(1))))
    );
    let result: Result<JsonValue, Error> =
        Output::Failure(Failure::new_v2(Error::parse_error(), Id::Num(1))).into();
    assert_eq!(result, Err(Error::parse_error()));
}

#[test]
fn invalid_request_output() {
    let output = Output::invalid_request(Some(Version::V2_0), Id::Num(2));
    assert_eq!(
        output.encode().unwrap(),
        r#"{"jsonrpc":"2.0","error":{"code":-32600,"message":"Invalid request"},"id":2}"#
    );
    let output = Output::invalid_request(None, Id::Null);
    assert_eq!(
        output.encode().unwrap(),
        r#"{"error":{"code":-32600,"message":"Invalid request"},"result":null,"id":null}"#
    );
    assert_eq!(
        Output::decode(
            r#"{"error":{"code":-32600,"message":"Invalid request"},"result":null,"id":null}"#
        )
        .unwrap(),
        output
    );
}

#[test]
fn exactly_one_of_result_and_error() {
    let both = r#"{"jsonrpc":"2.0","result":true,"error":{"code":-32600,"message":"Invalid request"},"id":2}"#;
    assert_eq!(decode_response(both), Err(DecodeError::IncompatibleDialect));
    let neither = r#"{"jsonrpc":"2.0","id":2}"#;
    assert_eq!(decode_response(neither), Err(DecodeError::IncompatibleDialect));
    let both_null = r#"{"result":null,"error":null,"id":2}"#;
    assert_eq!(decode_response(both_null), Err(DecodeError::IncompatibleDialect));
    let null_error = r#"{"jsonrpc":"2.0","result":true,"error":null,"id":2}"#;
    assert_eq!(decode_response(null_error), Err(DecodeError::IncompatibleDialect));
    let only_null_error = r#"{"jsonrpc":"2.0","error":null,"id":2}"#;
    assert_eq!(decode_response(only_null_error), Err(DecodeError::IncompatibleDialect));
    let null_result = r#"{"jsonrpc":"2.0","result":null,"id":2}"#;
    assert_eq!(
        decode_response(null_result).unwrap(),
        Response::Single(Output::Success(Success::new_v2(JsonValue::Null, Id::Num(2))))
    );
}

#[test]
fn each_decode_error_of_a_response() {
    assert_eq!(decode_response("{"), Err(DecodeError::Syntax));
    assert_eq!(decode_response(r#"{"jsonrpc":"2.0","x":1}"#), Err(DecodeError::UnknownField));
    assert_eq!(
        decode_response(r#"{"jsonrpc":"2.0","method":"foo","id":1}"#),
        Err(DecodeError::UnknownField)
    );
    assert_eq!(
        decode_response(r#"{"jsonrpc":"2.0","result":1,"result":1,"id":1}"#),
        Err(DecodeError::DuplicateField(Field::Result))
    );
    assert_eq!(
        decode_response(r#"{"error":null,"result":1,"error":null,"id":1}"#),
        Err(DecodeError::DuplicateField(Field::Error))
    );
    assert_eq!(
        decode_response(r#"{"jsonrpc":"2.0","result":1}"#),
        Err(DecodeError::MissingField(Field::Id))
    );
    assert_eq!(
        decode_response(r#"{"jsonrpc":"2.0","result":1,"id":{}}"#),
        Err(DecodeError::InvalidIdShape)
    );
    assert_eq!(
        decode_response(r#"{"jsonrpc":"2.0","error":7,"id":1}"#),
        Err(DecodeError::InvalidErrorShape)
    );
    assert_eq!(
        decode_response(r#"{"jsonrpc":"2.0","error":{"code":"x","message":"m"},"id":1}"#),
        Err(DecodeError::InvalidErrorShape)
    );
    assert_eq!(
        decode_response(r#"{"jsonrpc":"2.0","error":{"code":1.5,"message":"m"},"id":1}"#),
        Err(DecodeError::InvalidErrorShape)
    );
    assert_eq!(
        decode_response(r#"{"jsonrpc":"2.0","error":{"code":1,"message":2},"id":1}"#),
        Err(DecodeError::InvalidErrorShape)
    );
    assert_eq!(
        decode_response(r#"{"jsonrpc":"2.0","error":{"message":"m"},"id":1}"#),
        Err(DecodeError::MissingField(Field::Code))
    );
    assert_eq!(
        decode_response(r#"{"jsonrpc":"2.0","error":{"code":1},"id":1}"#),
        Err(DecodeError::MissingField(Field::Message))
    );
    assert_eq!(
        decode_response(r#"{"jsonrpc":"2.0","error":{"code":1,"message":"m","more":0},"id":1}"#),
        Err(DecodeError::UnknownField)
    );
    assert_eq!(
        decode_response(r#"{"jsonrpc":"2","result":1,"id":1}"#),
        Err(DecodeError::IncompatibleDialect)
    );
    assert_eq!(decode_response("7"), Err(DecodeError::InvalidResponseShape));
    assert_eq!(decode_response("[[]]"), Err(DecodeError::InvalidResponseShape));
    assert_eq!(
        Success::decode(r#"{"jsonrpc":"2.0","error":{"code":1,"message":"m"},"id":1}"#),
        Err(DecodeError::IncompatibleDialect)
    );
    assert_eq!(
        Failure::decode(r#"{"jsonrpc":"2.0","result":1,"id":1}"#),
        Err(DecodeError::IncompatibleDialect)
    );
}

#[test]
fn a_null_result_has_no_form_in_dialect_one() {
    let success = Success::new_v1(JsonValue::Null, Id::Num(1));
    assert_eq!(success.encode(), Err(EncodeError::IncompatibleDialect));
    let batch = Response::Batch(vec![Output::Success(success)]);
    assert_eq!(encode_response(&batch), Err(EncodeError::IncompatibleDialect));
}

#[test]
fn error_objects() {
    assert_eq!(ErrorCode::ParseError.code(), -32700);
    assert_eq!(ErrorCode::InvalidRequest.code(), -32600);
    assert_eq!(ErrorCode::MethodNotFound.code(), -32601);
    assert_eq!(ErrorCode::InvalidParams.code(), -32602);
    assert_eq!(ErrorCode::InternalError.code(), -32603);
    assert_eq!(ErrorCode::ServerError(-32000).code(), -32000);
    assert_eq!(ErrorCode::from_code(-32700), ErrorCode::ParseError);
    assert_eq!(ErrorCode::from_code(-32600), ErrorCode::InvalidRequest);
    assert_eq!(ErrorCode::from_code(-32601), ErrorCode::MethodNotFound);
    assert_eq!(ErrorCode::from_code(-32602), ErrorCode::InvalidParams);
    assert_eq!(ErrorCode::from_code(-32603), ErrorCode::InternalError);
    assert_eq!(ErrorCode::from_code(-32099), ErrorCode::ServerError(-32099));
    assert_eq!(ErrorCode::from_code(5), ErrorCode::ServerError(5));
    assert!(ErrorCode::ServerError(-32099).is_server_error());
    assert!(ErrorCode::ServerError(-32000).is_server_error());
    assert!(!ErrorCode::ServerError(-31999).is_server_error());
    assert!(!ErrorCode::ServerError(-32100).is_server_error());
    assert!(!ErrorCode::ParseError.is_server_error());
    assert_eq!(ErrorCode::MethodNotFound.description(), "Method not found");
    assert_eq!(ErrorCode::InvalidParams.description(), "Invalid params");
    assert_eq!(ErrorCode::InternalError.description(), "Internal error");
    assert_eq!(ErrorCode::ServerError(1).description(), "Server error");
    assert_eq!(Error::internal_error().message, "Internal error");
    assert_eq!(Error::new(ErrorCode::ParseError), Error::parse_error());

    let error = Error {
        code: ErrorCode::ServerError(-32001),
        message: "busy".to_string(),
        data: Some(JsonValue::Array(vec![JsonValue::Number(Number::NegInt(-3))])),
    };
    let text = r#"{"code":-32001,"message":"busy","data":[-3]}"#;
    assert_eq!(error.encode().unwrap(), text);
    assert_eq!(Error::decode(text).unwrap(), error);
    assert_eq!(Error::decode(r#"{"data":[-3],"message":"busy","code":-32001}"#).unwrap(), error);

    let large = Error {
        code: ErrorCode::ServerError(9223372036854775807),
        message: String::new(),
        data: Some(JsonValue::Object(vec![Member {
            key: "k".to_string(),
            value: JsonValue::Null,
        }])),
    };
    let text = r#"{"code":9223372036854775807,"message":"","data":{"k":null}}"#;
    assert_eq!(large.encode().unwrap(), text);
    assert_eq!(Error::decode(text).unwrap(), large);
    assert_eq!(
        Error::decode(r#"{"code":9223372036854775808,"message":""}"#),
        Err(DecodeError::InvalidErrorShape)
    );
    let small = Error::new(ErrorCode::ServerError(-9223372036854775808));
    assert_eq!(
        small.encode().unwrap(),
        r#"{"code":-9223372036854775808,"message":"Server error"}"#
    );
    assert_eq!(Error::decode(&small.encode().unwrap()).unwrap(), small);
}
