use vstd::prelude::*;

verus! {

/// How a Codex account authenticates.
#[derive(Debug)]
pub enum CodexAuthMode {
    /// ChatGPT sign-in, with OAuth tokens.
    OAuth,
    /// An OpenAI API key.
    ApiKey,
}

/// The OAuth tokens of a Codex account.
#[derive(Debug)]
pub struct CodexTokens {
    pub id_token: String,
    pub access_token: String,
    pub refresh_token: Option<String>,
}

/// A Codex account as the switcher knows it.
#[derive(Debug)]
pub struct CodexAccount {
    pub id: String,
    pub email: String,
    pub tokens: CodexTokens,
    pub account_id: Option<String>,
    pub plan_type: Option<String>,
    pub auth_mode: CodexAuthMode,
}

impl CodexAccount {
    /// An OAuth account with the given id, e-mail and tokens, and no ChatGPT account id or plan.
    pub fn new(id: String, email: String, tokens: CodexTokens) -> (r: CodexAccount)
        ensures
            r.id == id,
            r.email == email,
            r.tokens == tokens,
            r.account_id is None,
            r.plan_type is None,
            r.auth_mode is OAuth,
    {
        CodexAccount { id, email, tokens, account_id: None, plan_type: None, auth_mode: CodexAuthMode::OAuth }
    }

    /// Whether the account signs in with an API key.
    pub fn is_api_key_auth(&self) -> (r: bool)
        ensures
            r == (self.auth_mode is ApiKey),
    {
        match self.auth_mode {
            CodexAuthMode::ApiKey => true,
            CodexAuthMode::OAuth => false,
        }
    }
}

/// The reply of the Antigravity Cockpit plugin to a switch-account request.
#[derive(Debug)]
pub struct PluginSwitchAccountResponsePayload {
    pub execution_id: String,
    pub request_id: Option<String>,
    pub success: bool,
    pub effective_mode: String,
    pub from_email: Option<String>,
    pub to_email: String,
    pub duration_ms: u64,
    pub error_code: Option<String>,
    pub error_message: Option<String>,
    pub finished_at: String,
}

/// The tokens handed to the Codex runtime when it switches accounts.
#[derive(Debug)]
pub struct RuntimeTokens {
    pub access_token: String,
    pub chatgpt_account_id: String,
    pub chatgpt_plan_type: Option<String>,
}

} // verus!
