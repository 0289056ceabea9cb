use codex_runtime_bridge::inspector::{inspector_entry_kind, InspectorTargetKind};
use codex_runtime_bridge::json::JsonValue;
use codex_runtime_bridge::models::{CodexAccount, CodexTokens, PluginSwitchAccountResponsePayload};
use codex_runtime_bridge::plugin::validate_plugin_switch_response;
use codex_runtime_bridge::ports::{parse_netstat_line, parse_port_value};

fn codex_account(email: &str) -> CodexAccount {
    CodexAccount::new(
        "codex-test".to_string(),
        email.to_string(),
        CodexTokens {
            id_token: "id-token".to_string(),
            access_token: "access-token".to_string(),
            refresh_token: Some("refresh-token".to_string()),
        },
    )
}

fn plugin_switch_response(
    success: bool,
    to_email: &str,
    effective_mode: &str,
) -> PluginSwitchAccountResponsePayload {
    PluginSwitchAccountResponsePayload {
        execution_id: "switch-test".to_string(),
        request_id: Some("request-test".to_string()),
        success,
        effective_mode: effective_mode.to_string(),
        from_email: Some("from@example.com".to_string()),
        to_email: to_email.to_string(),
        duration_ms: 42,
        error_code: None,
        error_message: None,
        finished_at: "2026-05-29T00:00:00.000Z".to_string(),
    }
}

fn object(members: &[(&str, &str)]) -> JsonValue {
    JsonValue::Object(
        members
            .iter()
            .map(|(k, v)| (k.to_string(), JsonValue::Str(v.to_string())))
            .collect(),
    )
}

#[test]
fn accepts_successful_seamless_plugin_response() {
    let account = codex_account("target@example.com");
    let response = plugin_switch_response(true, "Target@Example.com", "seamless");
    assert!(validate_plugin_switch_response(&response, &account).is_ok());
}

#[test]
fn rejects_failed_or_non_seamless_plugin_response() {
    let account = codex_account("target@example.com");

    let mut failed = plugin_switch_response(false, "target@example.com", "seamless");
    failed.error_code = Some("switch_failed".to_string());
    failed.error_message = Some("failed".to_string());
    assert!(validate_plugin_switch_response(&failed, &account)
        .unwrap_err()
        .contains("switch_failed"));

    let wrong_mode = plugin_switch_response(true, "target@example.com", "default");
    assert!(validate_plugin_switch_response(&wrong_mode, &account)
        .unwrap_err()
        .contains("未执行无感模式"));

    let wrong_email = plugin_switch_response(true, "other@example.com", "seamless");
    assert!(validate_plugin_switch_response(&wrong_email, &account)
        .unwrap_err()
        .contains("目标账号不一致"));
}

#[test]
fn parses_debug_ports_from_flags_and_netstat() {
    assert_eq!(parse_port_value("9229"), Some(9229));
    assert_eq!(parse_port_value("127.0.0.1:9333"), Some(9333));
    assert_eq!(
        parse_netstat_line("  TCP    127.0.0.1:9333    0.0.0.0:0    LISTENING    4242"),
        Some((4242, 9333))
    );
    assert_eq!(
        parse_netstat_line("  TCP    [::]:9444    [::]:0    LISTENING    5252"),
        Some((5252, 9444))
    );
}

#[test]
fn filters_inspector_targets_to_node_or_codex_extension() {
    let node_entry = object(&[
        ("type", "node"),
        ("title", "Antigravity Extension Host"),
        ("webSocketDebuggerUrl", "ws://127.0.0.1:9333/abc"),
    ]);
    assert!(inspector_entry_kind(&node_entry) == Some(InspectorTargetKind::Node));

    let generic_extension_host_page = object(&[
        ("type", "page"),
        ("title", "Extension Host"),
        ("url", "devtools://devtools/bundled/js_app.html"),
    ]);
    assert!(inspector_entry_kind(&generic_extension_host_page).is_none());

    let codex_extension_page = object(&[
        ("type", "page"),
        ("title", "openai.chatgpt extension"),
        ("url", "antigravity://extension/openai.chatgpt"),
    ]);
    assert!(inspector_entry_kind(&codex_extension_page) == Some(InspectorTargetKind::CodexRenderer));
}
