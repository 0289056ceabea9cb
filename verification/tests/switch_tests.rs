use codex_runtime_bridge::account::{build_runtime_tokens, normalize_plan_type, verify_runtime_account};
use codex_runtime_bridge::cdp::{CdpRequest, InspectorFunction, InspectorScript};
use codex_runtime_bridge::inspector::{InspectorEndpoint, InspectorTargetKind};
use codex_runtime_bridge::json::{JsonNumber, JsonValue};
use codex_runtime_bridge::models::{CodexAccount, CodexAuthMode, CodexTokens, PluginSwitchAccountResponsePayload};
use codex_runtime_bridge::plugin::validate_plugin_switch_response;
use codex_runtime_bridge::search::{format_lookup_error, InstanceSearch, SearchStep};
use codex_runtime_bridge::shortcut::try_inject_shortcut_debugging_port;
use codex_runtime_bridge::switch::{
    hot_switch_after_plugin, plugin_switch_request, warm_up_after_plugin, CodexHotSwitchRuntimeResult,
    HotSwitchNext, build_hot_switch_result, finish_plugin_switch, format_plugin_ws_runtime_name,
    format_plugin_ws_warm_up_name, hot_switch_precheck, hot_switch_request,
    interpret_hot_switch_reply, warm_up_precheck,
};

fn s(v: &str) -> JsonValue {
    JsonValue::Str(v.to_string())
}

fn obj(members: Vec<(&str, JsonValue)>) -> JsonValue {
    JsonValue::Object(members.into_iter().map(|(k, v)| (k.to_string(), v)).collect())
}

fn account(email: &str, access: &str) -> CodexAccount {
    CodexAccount::new(
        "acct-1".to_string(),
        email.to_string(),
        CodexTokens { id_token: "id".to_string(), access_token: access.to_string(), refresh_token: None },
    )
}

fn response(success: bool, to: &str, mode: &str) -> PluginSwitchAccountResponsePayload {
    PluginSwitchAccountResponsePayload {
        execution_id: "exec-1".to_string(),
        request_id: None,
        success,
        effective_mode: mode.to_string(),
        from_email: None,
        to_email: to.to_string(),
        duration_ms: 1,
        error_code: None,
        error_message: None,
        finished_at: "t".to_string(),
    }
}

#[test]
fn plugin_failures_fall_back_to_default_details() {
    let a = account("a@x.com", "tok");
    let mut failed = response(false, "a@x.com", "seamless");
    failed.error_code = Some("   ".to_string());
    assert_eq!(
        validate_plugin_switch_response(&failed, &a).unwrap_err(),
        "Antigravity 插件无感切号失败: code=unknown, message=插件未返回错误详情"
    );
    assert_eq!(
        validate_plugin_switch_response(&response(true, "b@x.com", "seamless"), &a).unwrap_err(),
        "Antigravity 插件回包目标账号不一致: expected=a@x.com, actual=b@x.com"
    );
    assert!(validate_plugin_switch_response(&response(true, "a@x.com", "SEAMLESS"), &a).is_ok());
}

#[test]
fn plugin_switch_results_name_the_plugin_runtime() {
    let a = account("a@x.com", "tok");
    let r = response(true, "A@X.COM", "seamless");
    assert_eq!(format_plugin_ws_runtime_name(2, &r), "antigravity-cockpit-plugin-ws:clients=2,mode=seamless,execution_id=exec-1");
    let done = finish_plugin_switch(2, &r, &a).unwrap();
    assert_eq!(done.runtime, "antigravity-cockpit-plugin-ws:clients=2,mode=seamless,execution_id=exec-1");
    assert!(done.rate_limits.is_none());
    assert!(finish_plugin_switch(2, &response(true, "a@x.com", "default"), &a).is_err());
    assert_eq!(format_plugin_ws_warm_up_name(0), "antigravity-cockpit-plugin-ws:clients=0");
}

#[test]
fn api_key_accounts_and_other_systems_are_refused() {
    let mut a = account("a@x.com", "tok");
    assert!(hot_switch_precheck(&a, true).is_ok());
    assert_eq!(
        hot_switch_precheck(&a, false).unwrap_err(),
        "Codex 无感热切仅支持 Windows 上的 Antigravity 插件 Inspector"
    );
    a.auth_mode = CodexAuthMode::ApiKey;
    assert!(a.is_api_key_auth());
    assert_eq!(hot_switch_precheck(&a, true).unwrap_err(), "Codex API Key 账号不支持运行时无感热切");
    assert_eq!(hot_switch_precheck(&a, false).unwrap_err(), "Codex API Key 账号不支持运行时无感热切");
    assert!(warm_up_precheck(true).is_ok());
    assert_eq!(warm_up_precheck(false).unwrap_err(), "Codex runtime 预热仅支持 Windows 上的 Antigravity 插件 Inspector");
}

#[test]
fn plan_types_are_mapped() {
    assert_eq!(normalize_plan_type(None), None);
    assert_eq!(normalize_plan_type(Some("  ")), None);
    assert_eq!(normalize_plan_type(Some(" Basic ")).as_deref(), Some("free"));
    assert_eq!(normalize_plan_type(Some("PLUS")).as_deref(), Some("plus"));
    assert_eq!(normalize_plan_type(Some("enterprise_cbp_usage_based")).as_deref(), Some("enterprise_cbp_usage_based"));
    assert_eq!(normalize_plan_type(Some("platinum")).as_deref(), Some("unknown"));
}

#[test]
fn runtime_tokens_need_an_access_token() {
    let mut a = account("a@x.com", "  tok  ");
    let t = build_runtime_tokens(&a).unwrap();
    assert_eq!(t.access_token, "tok");
    assert_eq!(t.chatgpt_account_id, "acct-1");
    assert_eq!(t.chatgpt_plan_type, None);
    a.account_id = Some(" chatgpt-7 ".to_string());
    a.plan_type = Some("Team".to_string());
    let t = build_runtime_tokens(&a).unwrap();
    assert_eq!(t.chatgpt_account_id, "chatgpt-7");
    assert_eq!(t.chatgpt_plan_type.as_deref(), Some("team"));
    a.account_id = Some("  ".to_string());
    assert_eq!(build_runtime_tokens(&a).unwrap().chatgpt_account_id, "acct-1");
    let empty = account("a@x.com", " \n ");
    assert_eq!(build_runtime_tokens(&empty).err().unwrap(), "Codex OAuth 账号缺少 access_token，无法运行时热切");
}

#[test]
fn runtime_account_read_back_is_checked() {
    let a = account("a@x.com", "tok");
    let read = |t: &str, email: Option<&str>| {
        let mut m = vec![("type", s(t))];
        if let Some(e) = email {
            m.push(("email", s(e)));
        }
        obj(vec![("account", obj(m))])
    };
    assert!(verify_runtime_account(&read("chatgpt", Some("A@x.COM")), &a).is_ok());
    assert_eq!(verify_runtime_account(&read("apiKey", Some("a@x.com")), &a).unwrap_err(), "运行时账号类型不是 ChatGPT: apiKey");
    assert_eq!(verify_runtime_account(&obj(vec![("account", obj(vec![]))]), &a).unwrap_err(), "运行时账号类型不是 ChatGPT: <empty>");
    assert_eq!(verify_runtime_account(&read("chatgpt", None), &a).unwrap_err(), "Codex App Server account/read 未返回 email");
    assert_eq!(
        verify_runtime_account(&read("chatgpt", Some("b@x.com")), &a).unwrap_err(),
        "运行时账号回读不一致: expected=a@x.com, actual=b@x.com"
    );
    assert_eq!(verify_runtime_account(&obj(vec![]), &a).unwrap_err(), "Codex App Server account/read 缺少 account 字段");
}

#[test]
fn switch_replies_give_rate_limits() {
    let a = account("a@x.com", "tok");
    let reply = |value: JsonValue| obj(vec![("result", obj(vec![("type", s("object")), ("value", value)]))]);
    let account_read = obj(vec![("account", obj(vec![("type", s("chatgpt")), ("email", s("a@x.com"))]))]);
    let limits = obj(vec![("primary", JsonValue::Number(JsonNumber::PosInt(5)))]);
    let ok = reply(obj(vec![("accountRead", account_read), ("rateLimits", limits)]));
    assert!(matches!(interpret_hot_switch_reply(ok, &a), Ok(Some(JsonValue::Object(_)))));
    let account_read = obj(vec![("account", obj(vec![("type", s("chatgpt")), ("email", s("a@x.com"))]))]);
    let null_limits = reply(obj(vec![("accountRead", account_read), ("rateLimits", JsonValue::Null)]));
    assert!(matches!(interpret_hot_switch_reply(null_limits, &a), Ok(None)));
    let thrown = obj(vec![("exceptionDetails", obj(vec![("text", s("Uncaught"))]))]);
    assert_eq!(interpret_hot_switch_reply(thrown, &a).unwrap_err(), "Inspector 执行热切异常: Uncaught");
    assert_eq!(interpret_hot_switch_reply(obj(vec![]), &a).unwrap_err(), "Inspector 热切响应缺少 result");
    let error_object = obj(vec![("result", obj(vec![("subtype", s("error")), ("description", s("Error: nope"))]))]);
    assert_eq!(interpret_hot_switch_reply(error_object, &a).unwrap_err(), "Inspector 热切返回错误对象: Error: nope");
    let no_value = obj(vec![("result", obj(vec![("type", s("undefined"))]))]);
    assert_eq!(interpret_hot_switch_reply(no_value, &a).unwrap_err(), "Inspector 热切响应缺少 value");
    assert_eq!(interpret_hot_switch_reply(reply(obj(vec![])), &a).unwrap_err(), "Inspector 热切响应缺少 accountRead");
}

#[test]
fn switch_calls_carry_the_tokens() {
    let a = account("a@x.com", "tok");
    let t = build_runtime_tokens(&a).unwrap();
    match hot_switch_request("obj-1".to_string(), &t, &a) {
        CdpRequest::HotSwitch { object_id, payload } => {
            assert_eq!(object_id, "obj-1");
            assert_eq!(payload.access_token, "tok");
            assert_eq!(payload.expected_email, "a@x.com");
            assert_eq!(payload.chatgpt_account_id, "acct-1");
        }
        _ => panic!("expected the switch call"),
    }
    let e = InspectorEndpoint { pid: 3, port: 4, ws_url: "u".to_string(), kind: InspectorTargetKind::Node };
    let r = build_hot_switch_result(&e, None);
    assert_eq!(r.runtime, "antigravity-codex-extension-inspector:pid=3,port=4,kind=node");
}

#[test]
fn shortcut_injection_reads_the_count() {
    assert!(try_inject_shortcut_debugging_port(Some("2\r\n")));
    assert!(try_inject_shortcut_debugging_port(Some("+1")));
    assert!(!try_inject_shortcut_debugging_port(Some("0")));
    assert!(!try_inject_shortcut_debugging_port(Some("-3")));
    assert!(!try_inject_shortcut_debugging_port(Some("many")));
    assert!(!try_inject_shortcut_debugging_port(Some("")));
    assert!(!try_inject_shortcut_debugging_port(Some("3000000000")));
    assert!(!try_inject_shortcut_debugging_port(None));
}

fn expect_call(step: SearchStep) -> CdpRequest {
    match step {
        SearchStep::Call(r) => r,
        SearchStep::Found(id) => panic!("found {}", id),
        SearchStep::Failed(e) => panic!("failed {}", e),
    }
}

#[test]
fn search_ends_at_once_when_the_direct_scan_finds_the_instance() {
    let (state, request) = InstanceSearch::start();
    assert!(matches!(request, CdpRequest::Evaluate(InspectorScript::CodexInstance)));
    let (_, step) = state.on_reply(Ok(obj(vec![("result", obj(vec![("objectId", s("inst"))]))])));
    assert!(matches!(step, SearchStep::Found(id) if id == "inst"));
}

#[test]
fn search_falls_back_to_heap_arrays_then_activate_then_classes() {
    let (state, _) = InstanceSearch::start();
    let (state, step) = state.on_reply(Err("timeout".to_string()));
    assert!(matches!(expect_call(step), CdpRequest::Evaluate(InspectorScript::ArrayConstructor)));
    let (state, step) = state.on_reply(Err("gone".to_string()));
    assert!(matches!(expect_call(step), CdpRequest::Evaluate(InspectorScript::ActivateFunction)));
    let (state, step) = state.on_reply(Ok(obj(vec![("result", obj(vec![("objectId", s("act"))]))])));
    assert!(matches!(expect_call(step), CdpRequest::GetProperties { object_id, own_properties: false } if object_id == "act"));
    let scopes = obj(vec![(
        "internalProperties",
        JsonValue::Array(vec![obj(vec![("name", s("[[Scopes]]")), ("value", obj(vec![("objectId", s("sc"))]))])]),
    )]);
    let (state, step) = state.on_reply(Ok(scopes));
    assert!(matches!(expect_call(step), CdpRequest::GetProperties { object_id, own_properties: true } if object_id == "sc"));
    let closure = obj(vec![(
        "result",
        JsonValue::Array(vec![obj(vec![("name", s("0")), ("value", obj(vec![("objectId", s("cl"))]))])]),
    )]);
    let (state, step) = state.on_reply(Ok(closure));
    assert!(matches!(expect_call(step), CdpRequest::GetProperties { object_id, own_properties: true } if object_id == "cl"));
    let classes = obj(vec![(
        "result",
        JsonValue::Array(vec![obj(vec![("value", obj(vec![("type", s("function")), ("objectId", s("K"))]))])]),
    )]);
    let (state, step) = state.on_reply(Ok(classes));
    assert!(matches!(expect_call(step), CdpRequest::GetProperties { object_id, own_properties: false } if object_id == "K"));
    let (state, step) = state.on_reply(Ok(obj(vec![(
        "result",
        JsonValue::Array(vec![obj(vec![("name", s("prototype")), ("value", obj(vec![("objectId", s("P"))]))])]),
    )])));
    assert!(matches!(expect_call(step), CdpRequest::QueryObjects { prototype_object_id } if prototype_object_id == "P"));
    let (state, step) = state.on_reply(Ok(obj(vec![("objects", obj(vec![("objectId", s("O"))]))])));
    assert!(matches!(expect_call(step), CdpRequest::GetProperties { object_id, own_properties: true } if object_id == "O"));
    let (state, step) = state.on_reply(Ok(obj(vec![(
        "result",
        JsonValue::Array(vec![
            obj(vec![("name", s("1")), ("value", obj(vec![("objectId", s("i1"))]))]),
            obj(vec![("name", s("0")), ("value", obj(vec![("objectId", s("i0"))]))]),
        ]),
    )])));
    assert!(matches!(expect_call(step), CdpRequest::CallFunctionOn { object_id, function: InspectorFunction::IsCodexMcpInstance } if object_id == "i0"));
    let no = obj(vec![("result", obj(vec![("value", JsonValue::Bool(false))]))]);
    let (state, step) = state.on_reply(Ok(no));
    assert!(matches!(expect_call(step), CdpRequest::CallFunctionOn { object_id, .. } if object_id == "i1"));
    let yes = obj(vec![("result", obj(vec![("value", JsonValue::Bool(true))]))]);
    let (_, step) = state.on_reply(Ok(yes));
    assert!(matches!(step, SearchStep::Found(id) if id == "i1"));
}

#[test]
fn search_reports_why_every_stage_failed() {
    let (state, _) = InstanceSearch::start();
    let (state, _) = state.on_reply(Err("t1".to_string()));
    let (state, _) = state.on_reply(Err("t2".to_string()));
    let (_, step) = state.on_reply(Err("t3".to_string()));
    match step {
        SearchStep::Failed(e) => assert_eq!(
            e,
            "直接扫描失败: evaluate_object(direct req.cache scan) 失败: t1; heap arrays 扫描失败: 获取 Array 构造函数失败: evaluate_object(Array constructor) 失败: t2; activate 失败: evaluate_object(activate export lookup) 失败: t3"
        ),
        _ => panic!("expected a failure"),
    }
    assert_eq!(format_lookup_error("s", "d", "x"), "直接扫描失败: d; s: x");
}

#[test]
fn plugin_success_ends_the_switch_and_failure_falls_back() {
    let a = account("a@x.com", "tok");
    let done = hot_switch_after_plugin(&a, Ok(CodexHotSwitchRuntimeResult { runtime: "p".to_string(), rate_limits: None }));
    assert!(matches!(done, HotSwitchNext::Done(Ok(r)) if r.runtime == "p"));
    let next = hot_switch_after_plugin(&a, Err("no clients".to_string()));
    assert!(matches!(next, HotSwitchNext::TryInspector(t) if t.access_token == "tok"));
    let no_token = account("a@x.com", "");
    let failed = hot_switch_after_plugin(&no_token, Err("no clients".to_string()));
    assert!(matches!(failed, HotSwitchNext::Done(Err(e)) if e == "Codex OAuth 账号缺少 access_token，无法运行时热切"));
    assert_eq!(warm_up_after_plugin(Ok(3)).as_deref(), Some("antigravity-cockpit-plugin-ws:clients=3"));
    assert_eq!(warm_up_after_plugin(Err("x".to_string())), None);
    let request = plugin_switch_request(&a);
    assert_eq!(
        (request.email.as_str(), request.mode.as_str(), request.trigger.as_str(), request.source.as_str(), request.reason.as_str(), request.timeout_ms),
        ("a@x.com", "seamless", "manual", "codex.hot_switch", "codex_account_page_hot_switch", 45_000)
    );
}
