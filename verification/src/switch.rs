use vstd::prelude::*;

use crate::account::{runtime_account_mismatch, verify_runtime_account};
use crate::cdp::{
    exception_message, format_cdp_exception, opt_str_view, take_member, CdpRequest, CdpRequestView,
    HotSwitchPayload,
};
use crate::inspector::{format_runtime_name, runtime_name, InspectorEndpoint};
use crate::json::{json_get, json_is_null, str_member, str_member_or_empty, JsonValue};
use crate::models::{CodexAccount, PluginSwitchAccountResponsePayload, RuntimeTokens};
use crate::plugin::{plugin_switch_rejection, validate_plugin_switch_response};
use crate::text::{decimal, eq_ascii_ci, join2, push_decimal};

verus! {

/// What a runtime switch reports: the runtime that switched, and the rate limits it read
/// afterwards, where it read them.
#[derive(Debug)]
pub struct CodexHotSwitchRuntimeResult {
    pub runtime: String,
    pub rate_limits: Option<JsonValue>,
}

/// The runtime name of a switch done by the Antigravity Cockpit plugin over its WebSocket.
pub open spec fn plugin_ws_runtime_name(
    client_count: usize,
    response: PluginSwitchAccountResponsePayload,
) -> Seq<char> {
    "antigravity-cockpit-plugin-ws:clients="@ + decimal(client_count as nat) + ",mode="@
        + response.effective_mode@ + ",execution_id="@ + response.execution_id@
}

/// Names the runtime of a switch done by the plugin.
pub fn format_plugin_ws_runtime_name(
    client_count: usize,
    response: &PluginSwitchAccountResponsePayload,
) -> (r: String)
    ensures
        r@ == plugin_ws_runtime_name(client_count, *response),
{
    let mut s = String::from_str("antigravity-cockpit-plugin-ws:clients=");
    push_decimal(&mut s, client_count as u64);
    s.concat(",mode=").concat(response.effective_mode.as_str()).concat(",execution_id=").concat(
        response.execution_id.as_str(),
    )
}

/// The runtime name of a warm-up done through the plugin.
pub open spec fn plugin_ws_warm_up_name(client_count: usize) -> Seq<char> {
    "antigravity-cockpit-plugin-ws:clients="@ + decimal(client_count as nat)
}

/// Names the runtime of a warm-up done through the plugin.
pub fn format_plugin_ws_warm_up_name(client_count: usize) -> (r: String)
    ensures
        r@ == plugin_ws_warm_up_name(client_count),
{
    let mut s = String::from_str("antigravity-cockpit-plugin-ws:clients=");
    push_decimal(&mut s, client_count as u64);
    s
}

/// The outcome of a switch through the plugin, once it has replied: the reply must confirm a
/// seamless switch to `account`.
pub fn finish_plugin_switch(
    client_count: usize,
    response: &PluginSwitchAccountResponsePayload,
    account: &CodexAccount,
) -> (r: Result<CodexHotSwitchRuntimeResult, String>)
    ensures
        match r {
            Ok(res) => plugin_switch_rejection(*response, *account) is None && res.runtime@
                == plugin_ws_runtime_name(client_count, *response) && res.rate_limits is None,
            Err(e) => plugin_switch_rejection(*response, *account) == Some(e@),
        },
{
    match validate_plugin_switch_response(response, account) {
        Err(e) => Err(e),
        Ok(()) => Ok(
            CodexHotSwitchRuntimeResult {
                runtime: format_plugin_ws_runtime_name(client_count, response),
                rate_limits: None,
            },
        ),
    }
}

/// How long to wait for plugin clients to connect, in milliseconds.
pub const PLUGIN_SWITCH_CONNECT_WAIT_MS: u64 = 1_500;

/// How long the plugin may take to switch, in milliseconds.
pub const PLUGIN_SWITCH_TIMEOUT_MS: u64 = 45_000;

/// A switch-account request to the plugin.
#[derive(Debug)]
pub struct PluginSwitchRequest {
    pub email: String,
    pub mode: String,
    pub trigger: String,
    pub source: String,
    pub reason: String,
    pub timeout_ms: u64,
}

/// The request that asks the plugin for a seamless, manual switch to `account`.
pub fn plugin_switch_request(account: &CodexAccount) -> (r: PluginSwitchRequest)
    ensures
        r.email@ == account.email@,
        r.mode@ == "seamless"@,
        r.trigger@ == "manual"@,
        r.source@ == "codex.hot_switch"@,
        r.reason@ == "codex_account_page_hot_switch"@,
        r.timeout_ms == PLUGIN_SWITCH_TIMEOUT_MS,
{
    PluginSwitchRequest {
        email: account.email.clone(),
        mode: String::from_str("seamless"),
        trigger: String::from_str("manual"),
        source: String::from_str("codex.hot_switch"),
        reason: String::from_str("codex_account_page_hot_switch"),
        timeout_ms: PLUGIN_SWITCH_TIMEOUT_MS,
    }
}

/// What a switch does once the plugin has been tried.
#[derive(Debug)]
pub enum HotSwitchNext {
    /// The switch is over, with this outcome.
    Done(Result<CodexHotSwitchRuntimeResult, String>),
    /// Switch through the Inspector, with these tokens.
    TryInspector(RuntimeTokens),
}

/// After the plugin was tried: its success is the outcome; where it failed, the switch goes on
/// through the Inspector with the account's runtime tokens, or fails where there are none.
pub fn hot_switch_after_plugin(
    account: &CodexAccount,
    plugin: Result<CodexHotSwitchRuntimeResult, String>,
) -> (r: HotSwitchNext)
    ensures
        match plugin {
            Ok(res) => r == HotSwitchNext::Done(Ok(res)),
            Err(_) => match r {
                HotSwitchNext::Done(Ok(_)) => false,
                HotSwitchNext::Done(Err(e)) => crate::account::runtime_tokens_result(*account)
                    == Err::<(Seq<char>, Seq<char>, Option<Seq<char>>), Seq<char>>(e@),
                HotSwitchNext::TryInspector(t) => crate::account::runtime_tokens_result(*account)
                    == Ok::<(Seq<char>, Seq<char>, Option<Seq<char>>), Seq<char>>(
                    (
                        t.access_token@,
                        t.chatgpt_account_id@,
                        crate::account::opt_text(t.chatgpt_plan_type),
                    ),
                ),
            },
        },
{
    match plugin {
        Ok(res) => HotSwitchNext::Done(Ok(res)),
        Err(_) => match crate::account::build_runtime_tokens(account) {
            Ok(t) => HotSwitchNext::TryInspector(t),
            Err(e) => HotSwitchNext::Done(Err(e)),
        },
    }
}

/// After the plugin was waited for: the plugin's runtime name where clients connected;
/// nothing (go on through the Inspector) where waiting failed.
pub fn warm_up_after_plugin(plugin_clients: Result<usize, String>) -> (r: Option<String>)
    ensures
        match plugin_clients {
            Ok(n) => r matches Some(name) && name@ == plugin_ws_warm_up_name(n),
            Err(_) => r is None,
        },
{
    match plugin_clients {
        Ok(n) => Some(format_plugin_ws_warm_up_name(n)),
        Err(_) => None,
    }
}

/// Why a switch cannot even start, if it cannot: an API-key account cannot be switched at run
/// time, and the switch exists on Windows only.
pub open spec fn hot_switch_refusal(account: CodexAccount, on_windows: bool) -> Option<Seq<char>> {
    if account.auth_mode is ApiKey {
        Some("Codex API Key 账号不支持运行时无感热切"@)
    } else if !on_windows {
        Some("Codex 无感热切仅支持 Windows 上的 Antigravity 插件 Inspector"@)
    } else {
        None
    }
}

/// Checks that a runtime switch to `account` can start.
pub fn hot_switch_precheck(account: &CodexAccount, on_windows: bool) -> (r: Result<(), String>)
    ensures
        match r {
            Ok(()) => hot_switch_refusal(*account, on_windows) is None,
            Err(e) => hot_switch_refusal(*account, on_windows) == Some(e@),
        },
{
    if account.is_api_key_auth() {
        return Err(String::from_str("Codex API Key 账号不支持运行时无感热切"));
    }
    if !on_windows {
        return Err(String::from_str("Codex 无感热切仅支持 Windows 上的 Antigravity 插件 Inspector"));
    }
    Ok(())
}

/// Why a warm-up cannot start, if it cannot: it exists on Windows only.
pub open spec fn warm_up_refusal(on_windows: bool) -> Option<Seq<char>> {
    if !on_windows {
        Some("Codex runtime 预热仅支持 Windows 上的 Antigravity 插件 Inspector"@)
    } else {
        None
    }
}

/// Checks that a warm-up can start.
pub fn warm_up_precheck(on_windows: bool) -> (r: Result<(), String>)
    ensures
        match r {
            Ok(()) => warm_up_refusal(on_windows) is None,
            Err(e) => warm_up_refusal(on_windows) == Some(e@),
        },
{
    if !on_windows {
        return Err(String::from_str("Codex runtime 预热仅支持 Windows 上的 Antigravity 插件 Inspector"));
    }
    Ok(())
}

/// The call that switches the `CodexMcpConnection` `instance_object_id` to the tokens, expecting
/// the account's e-mail back.
pub fn hot_switch_request(
    instance_object_id: String,
    tokens: &RuntimeTokens,
    account: &CodexAccount,
) -> (r: CdpRequest)
    ensures
        r@ == (CdpRequestView::HotSwitch {
            object_id: instance_object_id@,
            access_token: tokens.access_token@,
            chatgpt_account_id: tokens.chatgpt_account_id@,
            chatgpt_plan_type: opt_str_view(tokens.chatgpt_plan_type),
            expected_email: account.email@,
        }),
{
    let plan = match &tokens.chatgpt_plan_type {
        Some(p) => Some(p.clone()),
        None => None,
    };
    CdpRequest::HotSwitch {
        object_id: instance_object_id,
        payload: HotSwitchPayload {
            access_token: tokens.access_token.clone(),
            chatgpt_account_id: tokens.chatgpt_account_id.clone(),
            chatgpt_plan_type: plan,
            expected_email: account.email.clone(),
        },
    }
}

/// What the switch call's reply means: a failure where it threw, gave no result, gave an error
/// object, gave no value or no `accountRead`, or read back another account; otherwise the
/// rate limits it read (none where absent or `null`).
pub open spec fn hot_switch_outcome(response: JsonValue, account: CodexAccount) -> Result<
    Option<JsonValue>,
    Seq<char>,
> {
    match json_get(response, "exceptionDetails"@) {
        Some(x) => Err("Inspector 执行热切异常: "@ + exception_message(x)),
        None => match json_get(response, "result"@) {
            None => Err("Inspector 热切响应缺少 result"@),
            Some(result) => if str_member(result, "subtype"@) == Some("error"@) {
                Err(
                    "Inspector 热切返回错误对象: "@ + match str_member(result, "description"@) {
                        Some(d) => d,
                        None => "<unknown>"@,
                    },
                )
            } else {
                match json_get(result, "value"@) {
                    None => Err("Inspector 热切响应缺少 value"@),
                    Some(value) => match json_get(value, "accountRead"@) {
                        None => Err("Inspector 热切响应缺少 accountRead"@),
                        Some(read) => match runtime_account_mismatch(read, account) {
                            Some(m) => Err(m),
                            None => match json_get(value, "rateLimits"@) {
                                Some(limits) => if json_is_null(limits) {
                                    Ok(None)
                                } else {
                                    Ok(Some(limits))
                                },
                                None => Ok(None),
                            },
                        },
                    },
                }
            },
        },
    }
}

/// The account that the switch function read back: `result.value.accountRead.account`.
pub open spec fn read_back_account(response: JsonValue) -> Option<JsonValue> {
    match json_get(response, "result"@) {
        Some(result) => match json_get(result, "value"@) {
            Some(value) => match json_get(value, "accountRead"@) {
                Some(read) => json_get(read, "account"@),
                None => None,
            },
            None => None,
        },
        None => None,
    }
}

/// A switch is reported done only when the runtime read back a ChatGPT account whose e-mail is
/// the target's (ASCII case aside), in a reply without an exception.
pub proof fn hot_switch_success_reads_back_target(response: JsonValue, account: CodexAccount)
    requires
        hot_switch_outcome(response, account) is Ok,
    ensures
        json_get(response, "exceptionDetails"@) is None,
        read_back_account(response) matches Some(a) && (str_member(a, "type"@) == Some(
            "chatgpt"@,
        ) && (str_member(a, "email"@) matches Some(e) && eq_ascii_ci(e, account.email@))),
{
    reveal_strlit("chatgpt");
    let result = json_get(response, "result"@).unwrap();
    let value = json_get(result, "value"@).unwrap();
    let read = json_get(value, "accountRead"@).unwrap();
    let a = json_get(read, "account"@).unwrap();
    assert(str_member_or_empty(a, "type"@) == "chatgpt"@);
    assert(str_member(a, "type"@) == Some("chatgpt"@));
}

fn text_is(s: &String, t: &str) -> (r: bool)
    ensures
        r == (s@ == t@),
{
    let x = String::from_str(t);
    *s == x
}

/// Reads the reply of the switch call.
pub fn interpret_hot_switch_reply(response: JsonValue, account: &CodexAccount) -> (r: Result<
    Option<JsonValue>,
    String,
>)
    ensures
        match r {
            Ok(limits) => hot_switch_outcome(response, *account) == Ok::<
                Option<JsonValue>,
                Seq<char>,
            >(limits),
            Err(e) => hot_switch_outcome(response, *account) == Err::<Option<JsonValue>, Seq<char>>(
                e@,
            ),
        },
{
    match response.get("exceptionDetails") {
        Some(x) => {
            let m = format_cdp_exception(x);
            return Err(join2("Inspector 执行热切异常: ", m.as_str()));
        },
        None => {},
    }
    let result = match take_member(response, "result") {
        Some(r) => r,
        None => {
            return Err(String::from_str("Inspector 热切响应缺少 result"));
        },
    };
    let is_error = match result.str_member("subtype") {
        Some(s) => text_is(s, "error"),
        None => false,
    };
    if is_error {
        let d = match result.str_member("description") {
            Some(d) => d.clone(),
            None => String::from_str("<unknown>"),
        };
        return Err(join2("Inspector 热切返回错误对象: ", d.as_str()));
    }
    let value = match take_member(result, "value") {
        Some(v) => v,
        None => {
            return Err(String::from_str("Inspector 热切响应缺少 value"));
        },
    };
    match value.get("accountRead") {
        None => {
            return Err(String::from_str("Inspector 热切响应缺少 accountRead"));
        },
        Some(read) => {
            match verify_runtime_account(read, account) {
                Err(e) => {
                    return Err(e);
                },
                Ok(()) => {},
            }
        },
    }
    match take_member(value, "rateLimits") {
        Some(limits) => {
            if limits.is_null() {
                Ok(None)
            } else {
                Ok(Some(limits))
            }
        },
        None => Ok(None),
    }
}

/// The result of a switch done through an Inspector endpoint.
pub fn build_hot_switch_result(endpoint: &InspectorEndpoint, rate_limits: Option<JsonValue>) -> (r:
    CodexHotSwitchRuntimeResult)
    ensures
        r.runtime@ == runtime_name(*endpoint),
        r.rate_limits == rate_limits,
{
    CodexHotSwitchRuntimeResult { runtime: format_runtime_name(endpoint), rate_limits }
}

} // verus!
