use jsonrpc_types::{
    decode_request, decode_request_lenient, encode_request, Call, DecodeError, Dialect,
    EncodeError, Field, Id, JsonValue, Member, MethodCall, Notification, Number, Params, Request,
    Version,
};

fn one() -> JsonValue {
    JsonValue::Number(Number::PosInt(1))
}

fn one_true() -> Vec<JsonValue> {
    vec![one(), JsonValue::Bool(true)]
}

fn method_call_cases() -> Vec<(MethodCall, &'static str)> {
    vec![
        (
            // 1.0 method call
            MethodCall {
                jsonrpc: None,
                method: "foo".to_string(),
                params: Some(Params::Array(one_true())),
                id: Id::Num(1),
            },
            r#"{"method":"foo","params":[1,true],"id":1}"#,
        ),
        (
            // 1.0 method call without parameters
            MethodCall {
                jsonrpc: None,
                method: "foo".to_string(),
                params: Some(Params::Array(vec![])),
                id: Id::Num(1),
            },
            r#"{"method":"foo","params":[],"id":1}"#,
        ),
        (
            // 2.0 method call
            MethodCall {
                jsonrpc: Some(Version::V2_0),
                method: "foo".to_string(),
                params: Some(Params::Array(one_true())),
                id: Id::Num(1),
            },
            r#"{"jsonrpc":"2.0","method":"foo","params":[1,true],"id":1}"#,
        ),
        (
            // 2.0 method call with an empty array of parameters
            MethodCall {
                jsonrpc: Some(Version::V2_0),
                method: "foo".to_string(),
                params: Some(Params::Array(vec![])),
                id: Id::Num(1),
            },
            r#"{"jsonrpc":"2.0","method":"foo","params":[],"id":1}"#,
        ),
        (
            // 2.0 method call without parameters
            MethodCall {
                jsonrpc: Some(Version::V2_0),
                method: "foo".to_string(),
                params: None,
                id: Id::Num(1),
            },
            r#"{"jsonrpc":"2.0","method":"foo","id":1}"#,
        ),
    ]
}

fn notification_cases() -> Vec<(Notification, &'static str)> {
    vec![
        (
            // 1.0 notification
            Notification {
                jsonrpc: None,
                method: "foo".to_string(),
                params: Some(Params::Array(one_true())),
            },
            r#"{"method":"foo","params":[1,true],"id":null}"#,
        ),
        (
            // 1.0 notification without parameters
            Notification {
                jsonrpc: None,
                method: "foo".to_string(),
                params: Some(Params::Array(vec![])),
            },
            r#"{"method":"foo","params":[],"id":null}"#,
        ),
        (
            // 2.0 notification
            Notification {
                jsonrpc: Some(Version::V2_0),
                method: "foo".to_string(),
                params: Some(Params::Array(one_true())),
            },
            r#"{"jsonrpc":"2.0","method":"foo","params":[1,true]}"#,
        ),
        (
            // 2.0 notification with an empty array of parameters
            Notification {
                jsonrpc: Some(Version::V2_0),
                method: "foo".to_string(),
                params: Some(Params::Array(vec![])),
            },
            r#"{"jsonrpc":"2.0","method":"foo","params":[]}"#,
        ),
        (
            // 2.0 notification without parameters
            Notification {
                jsonrpc: Some(Version::V2_0),
                method: "foo".to_string(),
                params: None,
            },
            r#"{"jsonrpc":"2.0","method":"foo"}"#,
        ),
    ]
}

fn v2_method_call() -> (MethodCall, &'static str) {
    (
        MethodCall {
            jsonrpc: Some(Version::V2_0),
            method: "foo".to_string(),
            params: Some(Params::Array(one_true())),
            id: Id::Num(1),
        },
        r#"{"jsonrpc":"2.0","method":"foo","params":[1,true],"id":1}"#,
    )
}

fn v2_notification() -> (Notification, &'static str) {
    (
        Notification {
            jsonrpc: Some(Version::V2_0),
            method: "foo".to_string(),
            params: Some(Params::Array(one_true())),
        },
        r#"{"jsonrpc":"2.0","method":"foo","params":[1,true]}"#,
    )
}

#[test]
fn request_method_call_serialization() {
    let (method_call, expect) = v2_method_call();
    let ser = method_call.encode().unwrap();
    assert_eq!(ser, expect);
    let de = MethodCall::decode(expect).unwrap();
    assert_eq!(de, method_call);
}

#[test]
fn request_notification_serialization() {
    let (notification, expect) = v2_notification();
    let ser = notification.encode().unwrap();
    assert_eq!(ser, expect);
    let de = Notification::decode(expect).unwrap();
    assert_eq!(de, notification);
}

#[test]
fn request_call_serialization() {
    let (method_call, expect) = v2_method_call();
    let call = Call::MethodCall(method_call);
    assert_eq!(call.encode().unwrap(), expect);
    assert_eq!(Call::decode(expect).unwrap(), call);

    let (notification, expect) = v2_notification();
    let call = Call::Notification(notification);
    assert_eq!(call.encode().unwrap(), expect);
    assert_eq!(Call::decode(expect).unwrap(), call);
}

#[test]
fn request_request_serialization() {
    let (call, call_expect) = v2_method_call();
    let call_request = Request::Single(Call::MethodCall(call.clone()));
    assert_eq!(encode_request(&call_request).unwrap(), call_expect);
    assert_eq!(decode_request(call_expect).unwrap(), call_request);

    let (notification, notification_expect) = v2_notification();
    let notification_request = Request::Single(Call::Notification(notification.clone()));
    assert_eq!(encode_request(&notification_request).unwrap(), notification_expect);
    assert_eq!(decode_request(notification_expect).unwrap(), notification_request);

    let batch_request =
        Request::Batch(vec![Call::MethodCall(call), Call::Notification(notification)]);
    let batch_expect = format!("[{},{}]", call_expect, notification_expect);
    assert_eq!(encode_request(&batch_request).unwrap(), batch_expect);
    assert_eq!(decode_request(&batch_expect).unwrap(), batch_request);
}

#[test]
fn request_invalid_request() {
    let cases = vec![
        (
            r#"{"id":1,"method":"foo","params":[1,true],"unknown":[]}"#,
            Request::Single(Call::Invalid { id: Id::Num(1) }),
        ),
        (
            r#"{"method":"foo","params":[1,true],"unknown":[]}"#,
            Request::Single(Call::Invalid { id: Id::Null }),
        ),
        (r#"{"unknown":[]}"#, Request::Single(Call::Invalid { id: Id::Null })),
    ];

    for (case, expect) in cases {
        let request = decode_request_lenient(case).unwrap();
        assert_eq!(request, expect);
    }
}

#[test]
fn mod_method_call_serialization() {
    for (method_call, expect) in method_call_cases() {
        let ser = method_call.encode().unwrap();
        assert_eq!(ser, expect);
        let de = MethodCall::decode(expect).unwrap();
        assert_eq!(de, method_call);
    }
}

#[test]
fn mod_notification_serialization() {
    for (notification, expect) in notification_cases() {
        let ser = notification.encode().unwrap();
        assert_eq!(ser, expect);
        let de = Notification::decode(expect).unwrap();
        assert_eq!(de, notification);
    }
}

#[test]
fn mod_call_serialization() {
    for (method_call, expect) in method_call_cases() {
        let call = Call::MethodCall(method_call);
        assert_eq!(call.encode().unwrap(), expect);
        assert_eq!(Call::decode(expect).unwrap(), call);
    }

    for (notification, expect) in notification_cases() {
        let call = Call::Notification(notification);
        assert_eq!(call.encode().unwrap(), expect);
        assert_eq!(Call::decode(expect).unwrap(), call);
    }
}

#[test]
fn mod_request_serialization() {
    for (method_call, expect) in method_call_cases() {
        let call_request = Request::Single(Call::MethodCall(method_call));
        assert_eq!(encode_request(&call_request).unwrap(), expect);
        assert_eq!(decode_request(expect).unwrap(), call_request);
    }

    for (notification, expect) in notification_cases() {
        let notification_request = Request::Single(Call::Notification(notification));
        assert_eq!(encode_request(&notification_request).unwrap(), expect);
        assert_eq!(decode_request(expect).unwrap(), notification_request);
    }

    for ((call, call_expect), (notification, notification_expect)) in
        method_call_cases().into_iter().zip(notification_cases())
    {
        let batch_request =
            Request::Batch(vec![Call::MethodCall(call), Call::Notification(notification)]);
        let batch_expect = format!("[{},{}]", call_expect, notification_expect);
        assert_eq!(encode_request(&batch_request).unwrap(), batch_expect);
        assert_eq!(decode_request(&batch_expect).unwrap(), batch_request);
    }
}

#[test]
fn mod_invalid_request() {
    let cases = vec![
        // 1.0 invalid request
        r#"{"method":"foo","params":[1,true],"id":1,"unknown":[]}"#,
        r#"{"method":"foo","params":[1,true],"id":1.2}"#,
        r#"{"method":"foo","params":[1,true],"id":null,"unknown":[]}"#,
        r#"{"method":"foo","params":[1,true],"unknown":[]}"#,
        r#"{"method":"foo","params":[1,true]}"#,
        r#"{"method":"foo","unknown":[]}"#,
        r#"{"method":1,"unknown":[]}"#,
        r#"{"unknown":[]}"#,
        // 2.0 invalid request
        r#"{"jsonrpc":"2.0","method":"foo","params":[1,true],"id":1,"unknown":[]}"#,
        r#"{"jsonrpc":"2.0","method":"foo","params":[1,true],"id":1.2}"#,
        r#"{"jsonrpc":"2.0","method":"foo","params":[1,true],"id":null,"unknown":[]}"#,
        r#"{"jsonrpc":"2.0","method":"foo","params":[1,true],"id":null}"#,
        r#"{"jsonrpc":"2.0","method":"foo","params":[1,true],"unknown":[]}"#,
        r#"{"jsonrpc":"2.0","method":"foo","unknown":[]}"#,
        r#"{"jsonrpc":"2.0","unknown":[]}"#,
    ];

    for case in cases {
        let request = decode_request(case);
        assert!(request.is_err());
    }
}

#[test]
fn valid_request() {
    let cases = vec![
        // 1.0 valid request
        r#"{"method":"foo","params":[1,true],"id":1}"#,
        r#"{"method":"foo","params":[],"id":1}"#,
        r#"{"method":"foo","params":[1,true],"id":null}"#,
        r#"{"method":"foo","params":[],"id":null}"#,
        // 2.0 valid request
        r#"{"jsonrpc":"2.0","method":"foo","params":[1,true],"id":1}"#,
        r#"{"jsonrpc":"2.0","method":"foo","params":[],"id":1}"#,
        r#"{"jsonrpc":"2.0","method":"foo","id":1}"#,
        r#"{"jsonrpc":"2.0","method":"foo","params":[1,true]}"#,
        r#"{"jsonrpc":"2.0","method":"foo","params":[]}"#,
        r#"{"jsonrpc":"2.0","method":"foo"}"#,
    ];

    for case in cases {
        let request = decode_request(case);
        assert!(request.is_ok());
    }
}

#[test]
fn constructors_build_each_dialect() {
    let call = MethodCall::new_v1("foo", Params::Array(vec![]), Id::Num(1));
    assert_eq!(
        encode_request(&Request::Single(Call::MethodCall(call))).unwrap(),
        r#"{"method":"foo","params":[],"id":1}"#
    );
    let notification = Notification::new_v1("foo", Params::Array(vec![]));
    assert_eq!(
        encode_request(&Request::Single(Call::Notification(notification))).unwrap(),
        r#"{"method":"foo","params":[],"id":null}"#
    );
    let call = MethodCall::new_v2("foo", Some(Params::Array(vec![])), Id::Num(1));
    assert_eq!(call.encode().unwrap(), r#"{"jsonrpc":"2.0","method":"foo","params":[],"id":1}"#);
    let notification = Notification::new_v2("foo", None);
    assert_eq!(notification.encode().unwrap(), r#"{"jsonrpc":"2.0","method":"foo"}"#);
}

#[test]
fn dialects_and_well_formedness() {
    assert_eq!(Dialect::of(None), Dialect::V1);
    assert_eq!(Dialect::of(Some(Version::V2_0)), Dialect::V2);
    assert_eq!(Dialect::V1.tag(), None);
    assert_eq!(Dialect::V2.tag(), Some(Version::V2_0));
    assert_eq!(Version::V2_0.as_str(), "2.0");
    let call = MethodCall::new_v1("foo", Params::Array(vec![]), Id::Num(1));
    assert_eq!(call.dialect(), Dialect::V1);
    assert!(Call::MethodCall(call).is_well_formed());
    let notification = Notification::new_v2("foo", None);
    assert_eq!(notification.dialect(), Dialect::V2);
    assert!(Call::Notification(notification).is_well_formed());
    let null_id = Call::MethodCall(MethodCall::new_v2("foo", None, Id::Null));
    assert!(!null_id.is_well_formed());
    let no_params = Call::Notification(Notification {
        jsonrpc: None,
        method: "foo".to_string(),
        params: None,
    });
    assert!(!no_params.is_well_formed());
    assert!(!Call::Invalid { id: Id::Num(1) }.is_well_formed());
    assert!(Request::Batch(vec![]).is_well_formed());
    assert!(!Request::Batch(vec![
        Call::MethodCall(MethodCall::new_v2("foo", None, Id::Num(1))),
        null_id.clone(),
    ])
    .is_well_formed());
    assert!(!Request::Single(null_id).is_well_formed());
    let from: Call = MethodCall::new_v2("foo", None, Id::Num(1)).into();
    assert_eq!(from, Call::MethodCall(MethodCall::new_v2("foo", None, Id::Num(1))));
    let from: Call = Notification::new_v2("foo", None).into();
    assert_eq!(from, Call::Notification(Notification::new_v2("foo", None)));
    let id: Id = 5u64.into();
    assert_eq!(id, Id::Num(5));
    let id: Id = "five".to_string().into();
    assert_eq!(id, Id::Str("five".to_string()));
    let value: JsonValue = Params::Array(vec![one()]).into();
    assert_eq!(value, JsonValue::Array(vec![one()]));
}

#[test]
fn batches_keep_their_order() {
    let batch = Request::Batch(vec![
        Call::MethodCall(MethodCall::new_v1("foo", Params::Array(vec![]), Id::Num(1))),
        Call::MethodCall(MethodCall::new_v1("bar", Params::Array(vec![]), Id::Num(2))),
    ]);
    let text = r#"[{"method":"foo","params":[],"id":1},{"method":"bar","params":[],"id":2}]"#;
    assert_eq!(encode_request(&batch).unwrap(), text);
    assert_eq!(decode_request(text).unwrap(), batch);
    assert_eq!(decode_request("[]").unwrap(), Request::Batch(vec![]));
    assert_eq!(encode_request(&Request::Batch(vec![])).unwrap(), "[]");
    assert_eq!(decode_request(" [ ] ").unwrap(), Request::Batch(vec![]));
}

#[test]
fn named_params_belong_to_dialect_two() {
    let named = Params::Object(vec![Member { key: "a".to_string(), value: one() }]);
    let v1 = MethodCall {
        jsonrpc: None,
        method: "foo".to_string(),
        params: Some(named.clone()),
        id: Id::Num(1),
    };
    assert_eq!(v1.encode(), Err(EncodeError::IncompatibleDialect));
    assert_eq!(
        decode_request(r#"{"method":"foo","params":{"a":1},"id":1}"#),
        Err(DecodeError::IncompatibleDialect)
    );
    let v1 = Notification { jsonrpc: None, method: "foo".to_string(), params: Some(named.clone()) };
    assert_eq!(v1.encode(), Err(EncodeError::IncompatibleDialect));
    assert_eq!(
        decode_request(r#"{"method":"foo","params":{"a":1},"id":null}"#),
        Err(DecodeError::IncompatibleDialect)
    );

    let v2 = MethodCall::new_v2("foo", Some(named), Id::Num(1));
    let text = r#"{"jsonrpc":"2.0","method":"foo","params":{"a":1},"id":1}"#;
    assert_eq!(v2.encode().unwrap(), text);
    assert_eq!(MethodCall::decode(text).unwrap(), v2);
}

#[test]
fn each_decode_error_of_a_call() {
    assert_eq!(decode_request(r#"{"method":"foo""#), Err(DecodeError::Syntax));
    assert_eq!(decode_request(""), Err(DecodeError::Syntax));
    assert_eq!(decode_request(r#"{"method":"foo","id":1} x"#), Err(DecodeError::Syntax));
    assert_eq!(decode_request(r#"{"method":"foo",}"#), Err(DecodeError::Syntax));
    assert_eq!(decode_request(r#"{"bogus":1}"#), Err(DecodeError::UnknownField));
    assert_eq!(
        decode_request(r#"{"jsonrpc":"2.0","method":"foo","method":"bar","id":1}"#),
        Err(DecodeError::DuplicateField(Field::Method))
    );
    assert_eq!(
        decode_request(r#"{"jsonrpc":"2.0","id":1,"method":"foo","id":1}"#),
        Err(DecodeError::DuplicateField(Field::Id))
    );
    assert_eq!(
        decode_request(r#"{"jsonrpc":"2.0","id":1}"#),
        Err(DecodeError::MissingField(Field::Method))
    );
    assert_eq!(
        MethodCall::decode(r#"{"jsonrpc":"2.0","method":"foo"}"#),
        Err(DecodeError::MissingField(Field::Id))
    );
    assert_eq!(
        decode_request(r#"{"jsonrpc":"2.0","method":"foo","id":-1}"#),
        Err(DecodeError::InvalidIdShape)
    );
    assert_eq!(
        decode_request(r#"{"jsonrpc":"2.0","method":"foo","id":[1]}"#),
        Err(DecodeError::InvalidIdShape)
    );
    assert_eq!(
        decode_request(r#"{"jsonrpc":"2.0","method":"foo","params":"x","id":1}"#),
        Err(DecodeError::InvalidParamsShape)
    );
    assert_eq!(
        decode_request(r#"{"jsonrpc":"2.0","method":7,"id":1}"#),
        Err(DecodeError::InvalidMethodShape)
    );
    assert_eq!(
        decode_request(r#"{"jsonrpc":"2.0","method":"","id":1}"#),
        Err(DecodeError::InvalidMethodShape)
    );
    assert_eq!(
        decode_request(r#"{"method":"","params":[],"id":null}"#),
        Err(DecodeError::InvalidMethodShape)
    );
    assert_eq!(
        decode_request(r#"{"jsonrpc":"1.0","method":"foo","id":1}"#),
        Err(DecodeError::IncompatibleDialect)
    );
    assert_eq!(
        decode_request(r#"{"jsonrpc":2,"method":"foo","id":1}"#),
        Err(DecodeError::IncompatibleDialect)
    );
    assert_eq!(
        decode_request(r#"{"method":"foo","id":1}"#),
        Err(DecodeError::IncompatibleDialect)
    );
    assert_eq!(decode_request("7"), Err(DecodeError::InvalidRequestShape));
    assert_eq!(decode_request(r#""foo""#), Err(DecodeError::InvalidRequestShape));
    assert_eq!(decode_request("null"), Err(DecodeError::InvalidRequestShape));
    assert_eq!(decode_request("true"), Err(DecodeError::InvalidRequestShape));
    assert_eq!(decode_request("[1]"), Err(DecodeError::InvalidRequestShape));
    assert_eq!(
        Notification::decode(r#"{"jsonrpc":"2.0","method":"foo","id":1}"#),
        Err(DecodeError::IncompatibleDialect)
    );
}

#[test]
fn each_encode_error_of_a_call() {
    let no_params =
        MethodCall { jsonrpc: None, method: "foo".to_string(), params: None, id: Id::Num(1) };
    assert_eq!(no_params.encode(), Err(EncodeError::MissingField(Field::Params)));
    let null_id = MethodCall::new_v2("foo", None, Id::Null);
    assert_eq!(null_id.encode(), Err(EncodeError::IncompatibleDialect));
    let no_params = Notification { jsonrpc: None, method: "foo".to_string(), params: None };
    assert_eq!(no_params.encode(), Err(EncodeError::IncompatibleDialect));
    let unnamed = MethodCall::new_v2("", None, Id::Num(1));
    assert_eq!(unnamed.encode(), Err(EncodeError::EmptyMethod));
    assert!(!Call::MethodCall(unnamed).is_well_formed());
    let unnamed = Notification::new_v1("", Params::Array(vec![]));
    assert_eq!(unnamed.encode(), Err(EncodeError::EmptyMethod));
    assert!(!Call::Notification(unnamed).is_well_formed());
    let invalid = Call::Invalid { id: Id::Num(1) };
    assert_eq!(invalid.encode(), Err(EncodeError::InvalidCall));
    let batch = Request::Batch(vec![
        Call::MethodCall(MethodCall::new_v2("foo", None, Id::Num(1))),
        Call::Invalid { id: Id::Null },
    ]);
    assert_eq!(encode_request(&batch), Err(EncodeError::InvalidCall));
    let bad_number = MethodCall::new_v2(
        "foo",
        Some(Params::Array(vec![JsonValue::Number(Number::Float("one".to_string()))])),
        Id::Num(1),
    );
    assert_eq!(bad_number.encode(), Err(EncodeError::Unprintable));
}

#[test]
fn repeated_and_unknown_keys_are_rejected() {
    for key in ["jsonrpc", "method", "params", "id"] {
        let value = match key {
            "jsonrpc" => r#""2.0""#,
            "method" => r#""foo""#,
            "params" => "[]",
            _ => "1",
        };
        let text = format!(
            r#"{{"jsonrpc":"2.0","method":"foo","params":[],"id":1,"{}":{}}}"#,
            key, value
        );
        assert!(matches!(decode_request(&text), Err(DecodeError::DuplicateField(_))));
    }
    for key in ["result", "error", "Method", "", "ids"] {
        let text = format!(r#"{{"jsonrpc":"2.0","method":"foo","id":1,"{}":1}}"#, key);
        assert_eq!(decode_request(&text), Err(DecodeError::UnknownField));
    }
}

#[test]
fn accessors_of_a_call() {
    let call = Call::MethodCall(MethodCall::new_v2("foo", None, Id::Num(7)));
    assert_eq!(call.method(), Some("foo"));
    assert_eq!(call.params(), None);
    assert_eq!(call.id(), Some(Id::Num(7)));
    let params = Params::Array(vec![one()]);
    let call = Call::Notification(Notification::new_v1("bar", params.clone()));
    assert_eq!(call.method(), Some("bar"));
    assert_eq!(call.params(), Some(&params));
    assert_eq!(call.id(), None);
    let call = Call::Invalid { id: Id::Str("x".to_string()) };
    assert_eq!(call.method(), None);
    assert_eq!(call.params(), None);
    assert_eq!(call.id(), Some(Id::Str("x".to_string())));
}

#[test]
fn salvage_keeps_the_first_id() {
    assert_eq!(
        decode_request_lenient(r#"{"id":"a","id":2,"method":1}"#).unwrap(),
        Request::Single(Call::Invalid { id: Id::Str("a".to_string()) })
    );
    assert_eq!(
        decode_request_lenient(r#"{"id":1.5,"method":1}"#).unwrap(),
        Request::Single(Call::Invalid { id: Id::Null })
    );
    assert_eq!(
        decode_request_lenient(r#"[{"method":"foo","params":[],"id":1},{"id":3,"x":0},5]"#)
            .unwrap(),
        Request::Batch(vec![
            Call::MethodCall(MethodCall::new_v1("foo", Params::Array(vec![]), Id::Num(1))),
            Call::Invalid { id: Id::Num(3) },
            Call::Invalid { id: Id::Null },
        ])
    );
    assert_eq!(decode_request_lenient("5"), Err(DecodeError::InvalidRequestShape));
    assert_eq!(decode_request_lenient("{"), Err(DecodeError::Syntax));
}

#[test]
fn whitespace_and_escapes_in_a_call() {
    let text = " {\n\t\"jsonrpc\" : \"2.0\" ,\r\n \"method\" : \"a\\\"b\\u0041\" , \"id\" : \"\\n\" } ";
    let call = MethodCall::new_v2("a\"bA", None, Id::Str("\n".to_string()));
    assert_eq!(decode_request(text).unwrap(), Request::Single(Call::MethodCall(call.clone())));
    assert_eq!(call.encode().unwrap(), r#"{"jsonrpc":"2.0","method":"a\"bA","id":"\n"}"#);
}
