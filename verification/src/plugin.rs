use vstd::prelude::*;

use crate::models::{CodexAccount, PluginSwitchAccountResponsePayload};
use crate::text::{eq_ascii_ci, eq_ignore_ascii_case, is_blank, join2, trim};

verus! {

/// The text of an optional field, or `default` where it is absent or only white space.
pub open spec fn nonblank_or(v: Option<String>, default: Seq<char>) -> Seq<char> {
    match v {
        Some(x) => if trim(x@).len() > 0 {
            x@
        } else {
            default
        },
        None => default,
    }
}

fn nonblank_or_exec(v: &Option<String>, default: &str) -> (r: String)
    ensures
        r@ == nonblank_or(*v, default@),
{
    match v {
        Some(x) => {
            if is_blank(x.as_str()) {
                String::from_str(default)
            } else {
                x.clone()
            }
        },
        None => String::from_str(default),
    }
}

/// Why a reply of the plugin does not confirm a seamless switch to `account`, if it does not.
pub open spec fn plugin_switch_rejection(
    response: PluginSwitchAccountResponsePayload,
    account: CodexAccount,
) -> Option<Seq<char>> {
    if !response.success {
        Some(
            "Antigravity 插件无感切号失败: code="@ + nonblank_or(response.error_code, "unknown"@)
                + ", message="@ + nonblank_or(response.error_message, "插件未返回错误详情"@),
        )
    } else if !eq_ascii_ci(response.to_email@, account.email@) {
        Some(
            "Antigravity 插件回包目标账号不一致: expected="@ + account.email@ + ", actual="@
                + response.to_email@,
        )
    } else if !eq_ascii_ci(response.effective_mode@, "seamless"@) {
        Some("Antigravity 插件未执行无感模式: expected=seamless, actual="@ + response.effective_mode@)
    } else {
        None
    }
}

/// Checks that the plugin switched, to the account asked for (e-mail compared without regard
/// to ASCII case), in seamless mode (likewise).
pub fn validate_plugin_switch_response(
    response: &PluginSwitchAccountResponsePayload,
    account: &CodexAccount,
) -> (r: Result<(), String>)
    ensures
        match r {
            Ok(()) => plugin_switch_rejection(*response, *account) is None,
            Err(e) => plugin_switch_rejection(*response, *account) == Some(e@),
        },
{
    if !response.success {
        let message = nonblank_or_exec(&response.error_message, "插件未返回错误详情");
        let code = nonblank_or_exec(&response.error_code, "unknown");
        let r = join2("Antigravity 插件无感切号失败: code=", code.as_str()).concat(
            ", message=",
        ).concat(message.as_str());
        return Err(r);
    }
    if !eq_ignore_ascii_case(response.to_email.as_str(), account.email.as_str()) {
        let r = join2("Antigravity 插件回包目标账号不一致: expected=", account.email.as_str()).concat(
            ", actual=",
        ).concat(response.to_email.as_str());
        return Err(r);
    }
    if !eq_ignore_ascii_case(response.effective_mode.as_str(), "seamless") {
        let r = join2(
            "Antigravity 插件未执行无感模式: expected=seamless, actual=",
            response.effective_mode.as_str(),
        );
        return Err(r);
    }
    Ok(())
}

} // verus!
