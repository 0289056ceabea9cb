use codex_runtime_bridge::cdp::{
    cdp_remote_error_message, cdp_timeout_message, cdp_write_error_message, classify_cdp_message,
    codex_mcp_class_candidates, evaluate_object_outcome, format_cdp_exception,
    indexed_object_ids, internal_object_id, object_id_at, property_object_id, take_member,
    CdpMessage, CdpRequest, CdpSession, CdpWait, InspectorScript, cdp_call_message,
    HotSwitchPayload, InspectorFunction, classify_text_frame, cdp_remote_error, cdp_call_frame,
};
use codex_runtime_bridge::scripts::{
    ACTIVATE_FUNCTION_EXPRESSION, CODEX_INSTANCE_EXPRESSION, FIND_CODEX_INSTANCE_IN_ARRAYS_FUNCTION,
    HOT_SWITCH_FUNCTION, IS_CODEX_MCP_INSTANCE_FUNCTION,
};
use codex_runtime_bridge::json::{JsonNumber, JsonValue};

fn s(v: &str) -> JsonValue {
    JsonValue::Str(v.to_string())
}

fn n(v: u64) -> JsonValue {
    JsonValue::Number(JsonNumber::PosInt(v))
}

fn obj(members: Vec<(&str, JsonValue)>) -> JsonValue {
    JsonValue::Object(members.into_iter().map(|(k, v)| (k.to_string(), v)).collect())
}

fn prop(name: &str, object_id: &str) -> JsonValue {
    obj(vec![("name", s(name)), ("value", obj(vec![("objectId", s(object_id))]))])
}

#[test]
fn property_object_ids_take_the_first_property_named() {
    let props = obj(vec![
        ("result", JsonValue::Array(vec![prop("a", "1"), prop("prototype", "2"), prop("prototype", "3")])),
        ("internalProperties", JsonValue::Array(vec![prop("[[Scopes]]", "9")])),
    ]);
    assert_eq!(property_object_id(&props, "prototype").as_deref(), Some("2"));
    assert_eq!(property_object_id(&props, "missing"), None);
    assert_eq!(internal_object_id(&props, "[[Scopes]]").as_deref(), Some("9"));
    assert_eq!(internal_object_id(&obj(vec![]), "[[Scopes]]"), None);
    let no_value = obj(vec![("result", JsonValue::Array(vec![obj(vec![("name", s("x"))]), prop("x", "5")]))]);
    assert_eq!(property_object_id(&no_value, "x"), None);
}

#[test]
fn object_ids_follow_paths() {
    let v = obj(vec![("result", obj(vec![("objectId", s("abc"))]))]);
    assert_eq!(object_id_at(&v, &["result"]).as_deref(), Some("abc"));
    assert_eq!(object_id_at(&v, &["objects"]), None);
    assert_eq!(object_id_at(&obj(vec![("objectId", s("top"))]), &[]).as_deref(), Some("top"));
}

#[test]
fn class_candidates_are_the_function_values() {
    let f = |id: &str| obj(vec![("value", obj(vec![("type", s("function")), ("objectId", s(id))]))]);
    let props = obj(vec![(
        "result",
        JsonValue::Array(vec![
            f("c1"),
            obj(vec![("value", obj(vec![("type", s("object")), ("objectId", s("o"))]))]),
            obj(vec![("name", s("nothing"))]),
            f("c2"),
        ]),
    )]);
    assert_eq!(codex_mcp_class_candidates(&props), vec!["c1", "c2"]);
    assert!(codex_mcp_class_candidates(&obj(vec![])).is_empty());
}

#[test]
fn indexed_object_ids_are_ordered_by_index() {
    let props = obj(vec![(
        "result",
        JsonValue::Array(vec![
            prop("10", "ten"),
            prop("length", "len"),
            prop("2", "two"),
            prop("0", "zero"),
            obj(vec![("name", s("1"))]),
        ]),
    )]);
    assert_eq!(indexed_object_ids(&props), vec!["zero", "two", "ten"]);
}

#[test]
fn exceptions_are_described() {
    let with_description = obj(vec![
        ("exception", obj(vec![("description", s("TypeError: x"))])),
        ("text", s("Uncaught")),
    ]);
    assert_eq!(format_cdp_exception(&with_description), "TypeError: x");
    assert_eq!(format_cdp_exception(&obj(vec![("text", s("Uncaught"))])), "Uncaught");
    assert_eq!(format_cdp_exception(&obj(vec![])), "<unknown>");
}

#[test]
fn call_ids_count_up_from_one() {
    let mut session = CdpSession::new();
    assert_eq!(session.begin_call(), 1);
    assert_eq!(session.begin_call(), 2);
    assert_eq!(session.next_id, 3);
}

#[test]
fn replies_are_matched_by_id() {
    let other = CdpMessage::Json(obj(vec![("id", n(4)), ("result", s("x"))]));
    assert!(matches!(classify_cdp_message(other, "Runtime.evaluate", 5), CdpWait::Continue));
    let event = CdpMessage::Json(obj(vec![("method", s("Runtime.consoleAPICalled"))]));
    assert!(matches!(classify_cdp_message(event, "Runtime.evaluate", 5), CdpWait::Continue));
    let reply = CdpMessage::Json(obj(vec![("id", n(5)), ("result", s("x"))]));
    match classify_cdp_message(reply, "Runtime.evaluate", 5) {
        CdpWait::Reply(JsonValue::Str(v)) => assert_eq!(v, "x"),
        _ => panic!("expected the reply"),
    }
    let empty = CdpMessage::Json(obj(vec![("id", n(5))]));
    assert!(matches!(classify_cdp_message(empty, "Runtime.evaluate", 5), CdpWait::Reply(JsonValue::Null)));
    let error = CdpMessage::Json(obj(vec![("id", n(5)), ("error", obj(vec![("code", n(1))]))]));
    assert!(matches!(classify_cdp_message(error, "Runtime.evaluate", 5), CdpWait::RemoteError(_)));
    ignored_and_failures();
}

fn ignored_and_failures() {
    assert!(matches!(classify_cdp_message(CdpMessage::Ignored, "m", 1), CdpWait::Continue));
    let fail = |m: CdpMessage| match classify_cdp_message(m, "Runtime.getProperties", 7) {
        CdpWait::Failed(e) => e,
        _ => panic!("expected a failure"),
    };
    assert_eq!(fail(CdpMessage::Closed), "Inspector WebSocket 已关闭: method=Runtime.getProperties, id=7");
    assert_eq!(fail(CdpMessage::Ended), "Inspector WebSocket 已断开: method=Runtime.getProperties, id=7");
    assert_eq!(
        fail(CdpMessage::ReadFailed("reset".to_string())),
        "Inspector WebSocket 读取失败: method=Runtime.getProperties, id=7, error=reset"
    );
    assert_eq!(
        fail(CdpMessage::Unparsable("EOF".to_string())),
        "Inspector 响应解析失败: method=Runtime.getProperties, id=7, error=EOF"
    );
}

#[test]
fn call_failure_messages_name_the_call() {
    assert_eq!(
        cdp_remote_error_message("Runtime.evaluate", 3, "{\"code\":-32000}"),
        "Inspector 调用失败: method=Runtime.evaluate, id=3, error={\"code\":-32000}"
    );
    assert_eq!(
        cdp_write_error_message("Runtime.evaluate", 3, "closed"),
        "Inspector WebSocket 写入失败: method=Runtime.evaluate, id=3, error=closed"
    );
    assert_eq!(
        cdp_timeout_message("Runtime.evaluate", 3),
        "Inspector WebSocket 超时: method=Runtime.evaluate, id=3, timeout=8s"
    );
}

#[test]
fn evaluations_give_the_result_object() {
    let ok = Ok(obj(vec![("result", obj(vec![("objectId", s("42"))]))]));
    assert_eq!(evaluate_object_outcome("x", &ok), Ok("42".to_string()));
    let thrown = Ok(obj(vec![("exceptionDetails", obj(vec![("text", s("boom"))]))]));
    assert_eq!(evaluate_object_outcome("x", &thrown), Err("evaluate_object(x) 异常: boom".to_string()));
    let none = Ok(obj(vec![("result", obj(vec![("type", s("undefined"))]))]));
    assert_eq!(evaluate_object_outcome("x", &none), Err("evaluate_object(x) 未返回 objectId".to_string()));
    let failed: Result<JsonValue, String> = Err("timeout".to_string());
    assert_eq!(evaluate_object_outcome("x", &failed), Err("evaluate_object(x) 失败: timeout".to_string()));
}

#[test]
fn members_can_be_taken_out() {
    let v = obj(vec![("a", n(1)), ("b", s("two"))]);
    assert!(matches!(take_member(v, "b"), Some(JsonValue::Str(t)) if t == "two"));
    assert!(take_member(JsonValue::Null, "a").is_none());
    assert_eq!(CdpRequest::Evaluate(InspectorScript::ArrayConstructor).method(), "Runtime.evaluate");
}

fn b(v: bool) -> JsonValue {
    JsonValue::Bool(v)
}

fn same(a: &JsonValue, b: &JsonValue) -> bool {
    format!("{:?}", a) == format!("{:?}", b)
}

#[test]
fn call_message_holds_id_method_and_params() {
    let request = CdpRequest::Evaluate(InspectorScript::ArrayConstructor);
    let message = cdp_call_message(7, &request);
    let expected = obj(vec![
        ("id", n(7)),
        ("method", s("Runtime.evaluate")),
        ("params", obj(vec![("expression", s("Array")), ("returnByValue", b(false)), ("replMode", b(true))])),
    ]);
    assert!(same(&message, &expected), "{:?}", message);
}

#[test]
fn evaluated_scripts_carry_their_text() {
    let params = CdpRequest::Evaluate(InspectorScript::CodexInstance).params();
    assert_eq!(params.get("expression").and_then(|v| v.as_str()).map(|v| v.as_str()), Some(CODEX_INSTANCE_EXPRESSION));
    let params = CdpRequest::Evaluate(InspectorScript::ActivateFunction).params();
    assert_eq!(params.get("expression").and_then(|v| v.as_str()).map(|v| v.as_str()), Some(ACTIVATE_FUNCTION_EXPRESSION));
}

#[test]
fn property_and_query_params() {
    let params = CdpRequest::GetProperties { object_id: "o1".to_string(), own_properties: true }.params();
    let expected = obj(vec![("objectId", s("o1")), ("ownProperties", b(true)), ("generatePreview", b(false))]);
    assert!(same(&params, &expected), "{:?}", params);
    let params = CdpRequest::QueryObjects { prototype_object_id: "p9".to_string() }.params();
    assert!(same(&params, &obj(vec![("prototypeObjectId", s("p9"))])), "{:?}", params);
}

#[test]
fn function_calls_return_by_value_only_for_the_instance_test() {
    let params = CdpRequest::CallFunctionOn {
        object_id: "a1".to_string(),
        function: InspectorFunction::FindCodexInstanceInArrays,
    }
    .params();
    let expected = obj(vec![
        ("objectId", s("a1")),
        ("functionDeclaration", s(FIND_CODEX_INSTANCE_IN_ARRAYS_FUNCTION)),
        ("returnByValue", b(false)),
    ]);
    assert!(same(&params, &expected), "{:?}", params);
    let params = CdpRequest::CallFunctionOn {
        object_id: "c2".to_string(),
        function: InspectorFunction::IsCodexMcpInstance,
    }
    .params();
    let expected = obj(vec![
        ("objectId", s("c2")),
        ("functionDeclaration", s(IS_CODEX_MCP_INSTANCE_FUNCTION)),
        ("returnByValue", b(true)),
    ]);
    assert!(same(&params, &expected), "{:?}", params);
}

#[test]
fn hot_switch_params_hand_over_the_payload() {
    let payload = |plan: Option<&str>| HotSwitchPayload {
        access_token: "tok".to_string(),
        chatgpt_account_id: "acc".to_string(),
        chatgpt_plan_type: plan.map(|p| p.to_string()),
        expected_email: "a@b.c".to_string(),
    };
    let expected = |plan: JsonValue| {
        obj(vec![
            ("objectId", s("inst")),
            ("functionDeclaration", s(HOT_SWITCH_FUNCTION)),
            (
                "arguments",
                JsonValue::Array(vec![obj(vec![(
                    "value",
                    obj(vec![
                        ("accessToken", s("tok")),
                        ("chatgptAccountId", s("acc")),
                        ("chatgptPlanType", plan),
                        ("expectedEmail", s("a@b.c")),
                    ]),
                )])]),
            ),
            ("returnByValue", b(true)),
            ("awaitPromise", b(true)),
        ])
    };
    let request = CdpRequest::HotSwitch { object_id: "inst".to_string(), payload: payload(Some("plus")) };
    assert_eq!(request.method(), "Runtime.callFunctionOn");
    assert!(same(&request.params(), &expected(s("plus"))));
    let request = CdpRequest::HotSwitch { object_id: "inst".to_string(), payload: payload(None) };
    assert!(same(&request.params(), &expected(JsonValue::Null)));
}

#[test]
fn text_frames_are_parsed_then_read_as_replies() {
    let wait = classify_text_frame(r#"{"id":3,"result":{"a":1}}"#, "Runtime.evaluate", 3);
    match wait {
        CdpWait::Reply(v) => assert!(same(&v, &obj(vec![("a", n(1))])), "{:?}", v),
        other => panic!("{:?}", other),
    }
    assert!(matches!(
        classify_text_frame(r#"{"id":4,"result":{}}"#, "Runtime.evaluate", 3),
        CdpWait::Continue
    ));
    match classify_text_frame(r#"{"id":3,"error":{"message":"boom","code":-32000}}"#, "M", 3) {
        CdpWait::RemoteError(e) => assert_eq!(
            cdp_remote_error("M", 3, &e),
            r#"Inspector 调用失败: method=M, id=3, error={"code":-32000,"message":"boom"}"#
        ),
        other => panic!("{:?}", other),
    }
}

#[test]
fn text_that_is_not_json_fails_the_call() {
    match classify_text_frame("not json", "Runtime.evaluate", 3) {
        CdpWait::Failed(m) => {
            assert!(m.starts_with("Inspector 响应解析失败: method=Runtime.evaluate, id=3, error="), "{}", m);
            assert!(m.contains("line 1 column"), "{}", m);
        }
        other => panic!("{:?}", other),
    }
}

#[test]
fn call_frames_are_compact_json() {
    let frame = cdp_call_frame(5, &CdpRequest::QueryObjects { prototype_object_id: "p".to_string() });
    assert_eq!(frame, r#"{"id":5,"method":"Runtime.queryObjects","params":{"prototypeObjectId":"p"}}"#);
    let frame = cdp_call_frame(6, &CdpRequest::GetProperties { object_id: "o\"1".to_string(), own_properties: false });
    assert_eq!(
        frame,
        r#"{"id":6,"method":"Runtime.getProperties","params":{"generatePreview":false,"objectId":"o\"1","ownProperties":false}}"#
    );
}
