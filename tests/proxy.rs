use btc_rpc_core::auth::{load_step, refresh, header_from_cookie, AuthSource, ConfigError, FileTime, LoadStep};
use btc_rpc_core::dispatch::{
    batch_reply, forward_body, single_action, split_batch, upstream_answers, zip_forwarded,
    Intercepted, SingleAction,
};
use btc_rpc_core::envelope::{
    DecodeError, RpcError, RpcRequest, RpcResponse, SingleOrBatchRpcRequest, GenericRpcMethod,
    MISC_ERROR_CODE, METHOD_NOT_ALLOWED_ERROR_CODE, METHOD_NOT_ALLOWED_ERROR_MESSAGE, PARSE_ERROR_CODE,
};
use btc_rpc_core::json::{JsonNumber, JsonValue};
use serde_json::Value;

fn json(b: &[u8]) -> Value {
    serde_json::from_slice(b).unwrap()
}

fn batch_of(body: &str) -> Vec<RpcRequest> {
    match SingleOrBatchRpcRequest::decode(body.as_bytes()).unwrap() {
        SingleOrBatchRpcRequest::Batch(v) => v,
        SingleOrBatchRpcRequest::Single(_) => panic!("expected a batch"),
    }
}

fn single_of(body: &str) -> RpcRequest {
    match SingleOrBatchRpcRequest::decode(body.as_bytes()).unwrap() {
        SingleOrBatchRpcRequest::Single(q) => q,
        SingleOrBatchRpcRequest::Batch(_) => panic!("expected a single request"),
    }
}

#[test]
fn batch_with_one_call_answered_locally_keeps_order() {
    let reqs = batch_of(r#"[{"method":"a","params":[],"id":1},{"method":"b","params":[],"id":2}]"#);
    let outcomes = vec![
        Intercepted::Declined,
        Intercepted::Answered(JsonValue::Number(JsonNumber::Int(42))),
    ];
    let split = split_batch(reqs, outcomes);
    assert_eq!(split.forwarded_idx, vec![0]);
    let sent = forward_body(split.forwarded);
    assert_eq!(json(&sent), json(br#"[{"id":1,"method":"a","params":[]}]"#));
    let upstream = upstream_answers(Ok(br#"[{"id":1,"result":"A","error":null}]"#.to_vec()));
    let reply = batch_reply(split.forwarded_idx, split.intercepted, upstream);
    assert_eq!(reply.status, 200);
    let body = json(&reply.body);
    let arr = body.as_array().unwrap();
    assert_eq!(arr.len(), 2);
    assert_eq!(arr[0]["id"], Value::from(1));
    assert_eq!(arr[0]["result"], Value::from("A"));
    assert_eq!(arr[1]["id"], Value::from(2));
    assert_eq!(arr[1]["result"], Value::from(42));
    assert!(arr[0]["error"].is_null() && arr[1]["error"].is_null());
}

#[test]
fn batch_answered_out_of_order_upstream_is_put_back_in_order() {
    let reqs = batch_of(
        r#"[{"method":"x","params":[],"id":0},{"method":"y","params":[],"id":1},{"method":"z","params":[],"id":2},{"method":"w","params":[],"id":3}]"#,
    );
    let outcomes = vec![
        Intercepted::Answered(JsonValue::Str("zero".to_string())),
        Intercepted::Declined,
        Intercepted::Rejected(RpcError::method_not_allowed()),
        Intercepted::Declined,
    ];
    let split = split_batch(reqs, outcomes);
    assert_eq!(split.forwarded_idx, vec![1, 3]);
    let upstream = upstream_answers(Ok(br#"[{"id":1,"result":"one"},{"id":3,"result":"three"}]"#.to_vec()));
    let reply = batch_reply(split.forwarded_idx, split.intercepted, upstream);
    let body = json(&reply.body);
    let arr = body.as_array().unwrap();
    assert_eq!(arr.len(), 4);
    for (i, item) in arr.iter().enumerate() {
        assert_eq!(item["id"], Value::from(i as u64));
    }
    assert_eq!(arr[0]["result"], Value::from("zero"));
    assert_eq!(arr[1]["result"], Value::from("one"));
    assert_eq!(arr[2]["error"]["code"], Value::from(METHOD_NOT_ALLOWED_ERROR_CODE));
    assert_eq!(arr[2]["error"]["message"], Value::from(METHOD_NOT_ALLOWED_ERROR_MESSAGE));
    assert_eq!(arr[3]["result"], Value::from("three"));
}

#[test]
fn batch_fails_whole_when_upstream_fails() {
    let reqs = batch_of(r#"[{"method":"a","params":[],"id":1},{"method":"b","params":[],"id":2}]"#);
    let outcomes = vec![Intercepted::Declined, Intercepted::Answered(JsonValue::Bool(true))];
    let split = split_batch(reqs, outcomes);
    let upstream = upstream_answers(Err(RpcError::misc("connection refused".to_string())));
    let reply = batch_reply(split.forwarded_idx, split.intercepted, upstream);
    assert_eq!(reply.status, 500);
    let body = json(&reply.body);
    assert!(body.is_object());
    assert!(body["id"].is_null());
    assert_eq!(body["error"]["code"], Value::from(MISC_ERROR_CODE));
    assert_eq!(body["error"]["message"], Value::from("connection refused"));
}

#[test]
fn batch_fails_whole_when_upstream_body_is_not_an_array() {
    let upstream = upstream_answers(Ok(br#"{"id":null,"error":{"code":-32600,"message":"bad"}}"#.to_vec()));
    match &upstream {
        Err(e) => assert_eq!(e.code, PARSE_ERROR_CODE),
        Ok(_) => panic!("expected an error"),
    }
    let reply = batch_reply(vec![0], Vec::new(), upstream);
    assert_eq!(reply.status, 500);
    assert!(json(&reply.body).is_object());
}

#[test]
fn from_config_takes_exactly_one_mode() {
    let both = AuthSource::from_config(Some("u".to_string()), Some("p".to_string()), Some("/tmp/c".to_string()));
    assert_eq!(both.unwrap_err(), ConfigError::Conflicting);
    let none = AuthSource::from_config(None, None, None);
    assert_eq!(none.unwrap_err(), ConfigError::Missing);
    let only_user = AuthSource::from_config(Some("u".to_string()), None, None);
    assert_eq!(only_user.unwrap_err(), ConfigError::Conflicting);
    match AuthSource::from_config(Some("u".to_string()), Some("p".to_string()), None).unwrap() {
        AuthSource::Const { username, password, header } => {
            assert_eq!(username, "u");
            assert_eq!(password, "p");
            assert_eq!(header, "Basic dTpw");
        }
        AuthSource::CookieFile { .. } => panic!("expected fixed credentials"),
    }
    match AuthSource::from_config(None, None, Some("/tmp/c".to_string())).unwrap() {
        AuthSource::CookieFile { path } => assert_eq!(path, "/tmp/c"),
        AuthSource::Const { .. } => panic!("expected a cookie file"),
    }
}

#[test]
fn config_error_messages() {
    assert_eq!(ConfigError::Missing.message(), "missing authentication information");
    assert_eq!(
        ConfigError::Conflicting.message(),
        "either a password and possibly a username or a cookie file must be specified"
    );
}

#[test]
fn absent_id_is_left_out_and_null_id_is_kept() {
    let q = single_of(r#"{"method":"m","params":[1]}"#);
    assert!(q.id.is_none());
    match single_action(q, Intercepted::Declined) {
        SingleAction::Forward(b) => {
            let v = json(&b);
            assert!(v.get("id").is_none());
            assert_eq!(v["method"], Value::from("m"));
        }
        SingleAction::Reply(_) => panic!("expected forwarding"),
    }
    let q = single_of(r#"{"id":null,"method":"m","params":[]}"#);
    assert!(matches!(q.id, Some(JsonValue::Null)));
    match single_action(q, Intercepted::Answered(JsonValue::Number(JsonNumber::Int(7)))) {
        SingleAction::Reply(h) => {
            assert_eq!(h.status, 200);
            let v = json(&h.body);
            assert!(v.get("id").unwrap().is_null());
            assert_eq!(v["result"], Value::from(7));
        }
        SingleAction::Forward(_) => panic!("expected a local answer"),
    }
    let q = single_of(r#"{"id":null,"method":"m","params":[]}"#);
    match single_action(q, Intercepted::Declined) {
        SingleAction::Forward(b) => assert!(json(&b).get("id").unwrap().is_null()),
        SingleAction::Reply(_) => panic!("expected forwarding"),
    }
}

#[test]
fn single_rejected_call_keeps_its_id() {
    let q = single_of(r#"{"id":"abc","method":"stop","params":[]}"#);
    match single_action(q, Intercepted::Rejected(RpcError::method_not_allowed())) {
        SingleAction::Reply(h) => {
            assert_eq!(h.status, 500);
            let v = json(&h.body);
            assert_eq!(v["id"], Value::from("abc"));
            assert_eq!(v["error"]["code"], Value::from(METHOD_NOT_ALLOWED_ERROR_CODE));
            assert!(v["result"].is_null());
        }
        SingleAction::Forward(_) => panic!("expected a local answer"),
    }
}

#[test]
fn decode_then_encode_gives_the_same_object() {
    let body = r#"{"id":5,"method":"getblock","params":["00ff",2],"extra":true}"#;
    let b = SingleOrBatchRpcRequest::decode(body.as_bytes()).unwrap().encode();
    assert_eq!(json(&b), json(br#"{"id":5,"method":"getblock","params":["00ff",2]}"#));
    let body = r#"{"method":"getblockcount","params":[]}"#;
    let b = SingleOrBatchRpcRequest::decode(body.as_bytes()).unwrap().encode();
    assert_eq!(json(&b), json(body.as_bytes()));
}

#[test]
fn decoded_batch_keeps_length_and_order() {
    let reqs = batch_of(r#"[{"method":"a","params":[]},{"method":"b","params":[],"id":7},{"method":"c","params":{}}]"#);
    assert_eq!(reqs.len(), 3);
    assert_eq!(reqs[0].method.as_str(), "a");
    assert_eq!(reqs[1].method.as_str(), "b");
    assert_eq!(reqs[2].method.as_str(), "c");
    assert!(matches!(reqs[1].id, Some(JsonValue::Number(JsonNumber::Int(7)))));
    let empty = batch_of("[]");
    assert!(empty.is_empty());
    let b = SingleOrBatchRpcRequest::Batch(batch_of(r#"[{"method":"a","params":[]},{"method":"b","params":[]}]"#)).encode();
    assert_eq!(json(&b), json(br#"[{"method":"a","params":[]},{"method":"b","params":[]}]"#));
}

#[test]
fn decode_errors() {
    assert!(matches!(SingleOrBatchRpcRequest::decode(b"{not json"), Err(DecodeError::Syntax(_))));
    assert!(matches!(SingleOrBatchRpcRequest::decode(b"42"), Err(DecodeError::InvalidType)));
    assert!(matches!(SingleOrBatchRpcRequest::decode(br#"{"params":[]}"#), Err(DecodeError::MissingMethod)));
    assert!(matches!(SingleOrBatchRpcRequest::decode(br#"{"method":"a"}"#), Err(DecodeError::MissingParams)));
    assert!(matches!(
        SingleOrBatchRpcRequest::decode(br#"{"method":1,"params":[]}"#),
        Err(DecodeError::MethodNotString)
    ));
    assert!(matches!(
        SingleOrBatchRpcRequest::decode(br#"[{"method":"a","params":[]},3]"#),
        Err(DecodeError::InvalidType)
    ));
    assert!(matches!(
        SingleOrBatchRpcRequest::decode(br#"[{"method":"a","params":[]},{"method":"b"}]"#),
        Err(DecodeError::MissingParams)
    ));
    let e = RpcError::from_decode(DecodeError::MissingMethod);
    assert_eq!(e.code, PARSE_ERROR_CODE);
    assert_eq!(e.message, "missing field `method`");
    assert!(e.status.is_none());
    let e = RpcError::from_decode(DecodeError::MissingParams);
    assert_eq!(e.message, "missing field `params`");
}

#[test]
fn response_status_follows_the_error() {
    let ok = RpcResponse { id: None, error: None, result: Some(JsonValue::Bool(true)) };
    assert_eq!(ok.into_response().status, 200);
    let e = RpcResponse::from(RpcError::misc("boom".to_string()));
    assert_eq!(e.into_response().status, 500);
    let upstream = RpcResponse { id: None, error: Some(RpcError::misc("x".to_string())), result: None }
        .with_upstream_status(404);
    let reply = upstream.into_response();
    assert_eq!(reply.status, 404);
    let v = json(&reply.body);
    assert_eq!(v["error"]["message"], Value::from("x"));
    assert!(v["error"].get("status").is_none());
}

#[test]
fn into_result_prefers_the_error() {
    let r = RpcResponse { id: None, error: Some(RpcError::misc("e".to_string())), result: Some(JsonValue::Null) };
    assert_eq!(r.into_result().unwrap_err().message, "e");
    let r = RpcResponse { id: None, error: None, result: Some(JsonValue::Str("s".to_string())) };
    assert!(matches!(r.into_result(), Ok(JsonValue::Str(s)) if s == "s"));
    let r = RpcResponse { id: None, error: None, result: None };
    assert!(matches!(r.into_result(), Ok(JsonValue::Null)));
}

#[test]
fn upstream_response_is_read() {
    let r = btc_rpc_core::envelope::decode_response(br#"{"id":3,"error":{"code":-8,"message":"bad"},"result":null}"#).unwrap();
    assert!(matches!(r.id, Some(JsonValue::Number(JsonNumber::Int(3)))));
    let e = r.error.unwrap();
    assert_eq!(e.code, -8);
    assert_eq!(e.message, "bad");
    assert!(r.result.is_none());
    assert!(matches!(
        btc_rpc_core::envelope::decode_response(br#"{"error":{"message":"m"}}"#),
        Err(DecodeError::MissingCode)
    ));
    assert!(matches!(
        btc_rpc_core::envelope::decode_response(br#"{"error":{"code":1}}"#),
        Err(DecodeError::MissingMessage)
    ));
    assert!(matches!(
        btc_rpc_core::envelope::decode_response(br#"{"error":5}"#),
        Err(DecodeError::InvalidMember)
    ));
}

#[test]
fn cookie_cache_is_used_only_while_unchanged() {
    let t1 = FileTime { secs: 100, nanos: 5 };
    let t2 = FileTime { secs: 100, nanos: 6 };
    let snap = refresh(t1, "__cookie__:secret\n");
    assert_eq!(snap.header, "Basic X19jb29raWVfXzpzZWNyZXQ=");
    match load_step(&Some(snap), t1) {
        LoadStep::Cached(h) => assert_eq!(h, "Basic X19jb29raWVfXzpzZWNyZXQ="),
        LoadStep::Read => panic!("expected the cached header"),
    }
    let snap = refresh(t1, "__cookie__:secret\n");
    assert!(matches!(load_step(&Some(snap), t2), LoadStep::Read));
    assert!(matches!(load_step(&None, t1), LoadStep::Read));
}

#[test]
fn cookie_header_strips_one_newline() {
    assert_eq!(header_from_cookie("user:pass\n"), "Basic dXNlcjpwYXNz");
    assert_eq!(header_from_cookie("user:pass"), "Basic dXNlcjpwYXNz");
    assert_eq!(header_from_cookie("a\n\n"), "Basic YQo=");
    assert_eq!(header_from_cookie(""), "Basic ");
}

#[test]
fn forwarded_answers_pair_with_positions() {
    let resps = vec![
        RpcResponse { id: None, error: None, result: None },
        RpcResponse { id: None, error: None, result: None },
    ];
    let z = zip_forwarded(vec![4, 9, 11], resps);
    assert_eq!(z.len(), 2);
    assert_eq!(z[0].0, 4);
    assert_eq!(z[1].0, 9);
}

#[test]
fn method_name_reads_back() {
    let m = GenericRpcMethod("getblockhash".to_string());
    assert_eq!(m.as_str(), "getblockhash");
}

#[test]
fn syntax_error_carries_serde_json_text() {
    match SingleOrBatchRpcRequest::decode(b"[1,") {
        Err(e) => {
            let e = RpcError::from_decode(e);
            assert_eq!(e.code, PARSE_ERROR_CODE);
            assert!(!e.message.is_empty());
        }
        Ok(_) => panic!("expected a syntax error"),
    }
}

#[test]
fn large_and_fractional_numbers_pass_through() {
    let q = single_of(r#"{"id":18446744073709551615,"method":"m","params":[1.5,-3]}"#);
    assert!(matches!(q.id, Some(JsonValue::Number(JsonNumber::UInt(18446744073709551615)))));
    let b = SingleOrBatchRpcRequest::Single(q).encode();
    assert_eq!(json(&b), json(br#"{"id":18446744073709551615,"method":"m","params":[1.5,-3]}"#));
}
