use vstd::prelude::*;

use crate::json::{json_get, str_member, str_member_or_empty, JsonValue};
use crate::models::{CodexAccount, RuntimeTokens};
use crate::text::{
    ascii_lower, eq_ascii_ci, eq_ignore_ascii_case, join2, to_ascii_lowercase, trim, trim_str,
};

verus! {

/// The plan names that the runtime knows and that are passed on as they are.
pub open spec fn is_known_plan(p: Seq<char>) -> bool {
    ||| p == "plus"@
    ||| p == "pro"@
    ||| p == "team"@
    ||| p == "business"@
    ||| p == "enterprise"@
    ||| p == "edu"@
    ||| p == "go"@
    ||| p == "prolite"@
    ||| p == "self_serve_business_usage_based"@
    ||| p == "enterprise_cbp_usage_based"@
}

/// The plan type handed to the runtime: trimmed and in lower case; `basic` becomes `free`, a
/// known plan stays, anything else becomes `unknown`; nothing for an absent or blank plan.
pub open spec fn normalized_plan(plan_type: Option<Seq<char>>) -> Option<Seq<char>> {
    match plan_type {
        None => None,
        Some(p) => {
            let n = ascii_lower(trim(p));
            if n.len() == 0 {
                None
            } else if n == "basic"@ {
                Some("free"@)
            } else if is_known_plan(n) {
                Some(n)
            } else {
                Some("unknown"@)
            }
        },
    }
}

/// A stored plan that reads, once trimmed and lower-cased, as one of the plan names the runtime
/// knows is handed on under that name; one that reads `basic` is handed on as `free`; any other
/// non-blank one as `unknown`; a blank or absent one is not handed on.
pub proof fn runtime_plan_names_are_kept(raw: Seq<char>)
    ensures
        ({
            let n = ascii_lower(trim(raw));
            let named = n == "plus"@ || n == "pro"@ || n == "team"@ || n == "business"@ || n
                == "enterprise"@ || n == "edu"@ || n == "go"@ || n == "prolite"@ || n
                == "self_serve_business_usage_based"@ || n == "enterprise_cbp_usage_based"@;
            &&& named ==> normalized_plan(Some(raw)) == Some(n)
            &&& n == "basic"@ ==> normalized_plan(Some(raw)) == Some("free"@)
            &&& (n.len() > 0 && n != "basic"@ && !named) ==> normalized_plan(Some(raw)) == Some(
                "unknown"@,
            )
            &&& trim(raw).len() == 0 ==> normalized_plan(Some(raw)) is None
        }),
        normalized_plan(None) is None,
{
    reveal_strlit("plus");
    reveal_strlit("pro");
    reveal_strlit("team");
    reveal_strlit("business");
    reveal_strlit("enterprise");
    reveal_strlit("edu");
    reveal_strlit("go");
    reveal_strlit("prolite");
    reveal_strlit("self_serve_business_usage_based");
    reveal_strlit("enterprise_cbp_usage_based");
    reveal_strlit("basic");
    let n = ascii_lower(trim(raw));
    assert(n.len() == trim(raw).len());
}

fn same_text(s: &String, t: &str) -> (r: bool)
    ensures
        r == (s@ == t@),
{
    let x = String::from_str(t);
    *s == x
}

/// Maps a stored plan type onto the names the runtime accepts.
pub fn normalize_plan_type(plan_type: Option<&str>) -> (r: Option<String>)
    ensures
        match r {
            Some(s) => normalized_plan(
                match plan_type {
                    Some(p) => Some(p@),
                    None => None,
                },
            ) == Some(s@),
            None => normalized_plan(
                match plan_type {
                    Some(p) => Some(p@),
                    None => None,
                },
            ) is None,
        },
{
    let p = match plan_type {
        Some(p) => p,
        None => {
            return None;
        },
    };
    let t = trim_str(p);
    let n = to_ascii_lowercase(t.as_str());
    if n.as_str().unicode_len() == 0 {
        return None;
    }
    if same_text(&n, "basic") {
        return Some(String::from_str("free"));
    }
    if same_text(&n, "plus") || same_text(&n, "pro") || same_text(&n, "team") || same_text(
        &n,
        "business",
    ) || same_text(&n, "enterprise") || same_text(&n, "edu") || same_text(&n, "go") || same_text(
        &n,
        "prolite",
    ) || same_text(&n, "self_serve_business_usage_based") || same_text(
        &n,
        "enterprise_cbp_usage_based",
    ) {
        Some(n)
    } else {
        Some(String::from_str("unknown"))
    }
}

pub open spec fn opt_text(v: Option<String>) -> Option<Seq<char>> {
    match v {
        Some(s) => Some(s@),
        None => None,
    }
}

/// The ChatGPT account id handed to the runtime: the stored one, trimmed, where it is not
/// blank; the account's own id otherwise.
pub open spec fn chatgpt_account_id(account: CodexAccount) -> Seq<char> {
    match account.account_id {
        Some(a) => if trim(a@).len() > 0 {
            trim(a@)
        } else {
            account.id@
        },
        None => account.id@,
    }
}

/// The tokens that a runtime switch to `account` hands over, or why there are none.
pub open spec fn runtime_tokens_result(account: CodexAccount) -> Result<
    (Seq<char>, Seq<char>, Option<Seq<char>>),
    Seq<char>,
> {
    let access = trim(account.tokens.access_token@);
    if access.len() == 0 {
        Err("Codex OAuth 账号缺少 access_token，无法运行时热切"@)
    } else {
        Ok((access, chatgpt_account_id(account), normalized_plan(opt_text(account.plan_type))))
    }
}

/// Builds the tokens for a runtime switch: the access token (trimmed, required), the ChatGPT
/// account id and the normalized plan type.
pub fn build_runtime_tokens(account: &CodexAccount) -> (r: Result<RuntimeTokens, String>)
    ensures
        match r {
            Ok(t) => runtime_tokens_result(*account) == Ok::<
                (Seq<char>, Seq<char>, Option<Seq<char>>),
                Seq<char>,
            >((t.access_token@, t.chatgpt_account_id@, opt_text(t.chatgpt_plan_type))),
            Err(e) => runtime_tokens_result(*account) == Err::<
                (Seq<char>, Seq<char>, Option<Seq<char>>),
                Seq<char>,
            >(e@),
        },
{
    let access_token = trim_str(account.tokens.access_token.as_str());
    if access_token.as_str().unicode_len() == 0 {
        return Err(String::from_str("Codex OAuth 账号缺少 access_token，无法运行时热切"));
    }
    let chatgpt_account_id = match &account.account_id {
        Some(a) => {
            let t = trim_str(a.as_str());
            if t.as_str().unicode_len() > 0 {
                t
            } else {
                account.id.clone()
            }
        },
        None => account.id.clone(),
    };
    let plan = match &account.plan_type {
        Some(p) => normalize_plan_type(Some(p.as_str())),
        None => normalize_plan_type(None),
    };
    Ok(RuntimeTokens { access_token, chatgpt_account_id, chatgpt_plan_type: plan })
}

/// Why what `account/read` returned does not show the runtime signed in to `target`, if it
/// does not: it must hold an `account` of type `chatgpt` whose e-mail equals the target's
/// (ASCII case aside).
pub open spec fn runtime_account_mismatch(value: JsonValue, target: CodexAccount) -> Option<Seq<char>> {
    match json_get(value, "account"@) {
        None => Some("Codex App Server account/read 缺少 account 字段"@),
        Some(account) => {
            let t = str_member_or_empty(account, "type"@);
            if t != "chatgpt"@ {
                Some(
                    "运行时账号类型不是 ChatGPT: "@ + if t.len() == 0 {
                        "<empty>"@
                    } else {
                        t
                    },
                )
            } else {
                match str_member(account, "email"@) {
                    None => Some("Codex App Server account/read 未返回 email"@),
                    Some(email) => if !eq_ascii_ci(email, target.email@) {
                        Some(
                            "运行时账号回读不一致: expected="@ + target.email@ + ", actual="@
                                + email,
                        )
                    } else {
                        None
                    },
                }
            }
        },
    }
}

/// Checks what `account/read` returned after a switch against the account switched to.
pub fn verify_runtime_account(value: &JsonValue, target: &CodexAccount) -> (r: Result<(), String>)
    ensures
        match r {
            Ok(()) => runtime_account_mismatch(*value, *target) is None,
            Err(e) => runtime_account_mismatch(*value, *target) == Some(e@),
        },
{
    let account = match value.get("account") {
        Some(a) => a,
        None => {
            return Err(String::from_str("Codex App Server account/read 缺少 account 字段"));
        },
    };
    let runtime_type = match account.str_member("type") {
        Some(t) => t.clone(),
        None => String::new(),
    };
    if !same_text(&runtime_type, "chatgpt") {
        let shown = if runtime_type.as_str().unicode_len() == 0 {
            String::from_str("<empty>")
        } else {
            runtime_type
        };
        return Err(join2("运行时账号类型不是 ChatGPT: ", shown.as_str()));
    }
    let email = match account.str_member("email") {
        Some(e) => e,
        None => {
            return Err(String::from_str("Codex App Server account/read 未返回 email"));
        },
    };
    if !eq_ignore_ascii_case(email.as_str(), target.email.as_str()) {
        return Err(
            join2("运行时账号回读不一致: expected=", target.email.as_str()).concat(
                ", actual=",
            ).concat(email.as_str()),
        );
    }
    Ok(())
}

} // verus!
