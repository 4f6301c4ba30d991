//! The OpenAI-compatible (Chat Completions) protocol: what is sent and how the
//! answer is read. The HTTP transport itself stays with the caller.
use vstd::prelude::*;

use crate::ai::prompt::{PromptBuilder, SCOPE_SYSTEM, scope_user_prompt, system_prompt, user_prompt};
use crate::ai::{Request, ScopeRequest};
use crate::config::AiConfig;
use crate::error::AgcError;
use crate::model::Model;
use crate::text::{from_chars, to_chars, trim, trim_spec, views};

verus! {

/// One chat message.
pub struct ChatMessage {
    pub role: String,
    pub content: String,
}

/// The `reasoning effort` the requests ask for.
pub const REASONING_EFFORT: &'static str = "low";

/// The message for a configuration without an API key.
pub const MISSING_KEY_MESSAGE: &'static str = "openai provider 缺少 api_key，请在配置文件或 MESSAGE_API_KEY 环境变量中设置";

/// The configuration has a non-empty API key.
pub open spec fn has_api_key(config: AiConfig) -> bool {
    match config.api_key {
        Some(k) => k@.len() > 0,
        None => false,
    }
}

/// The OpenAI factory refuses a configuration without an API key.
pub fn check_api_key(config: &AiConfig) -> (r: Result<(), AgcError>)
    ensures
        r is Ok <==> has_api_key(*config),
        r matches Err(e) ==> (e matches AgcError::Other(m) && m@ == MISSING_KEY_MESSAGE@),
{
    match &config.api_key {
        Some(k) if !k.as_str().is_empty() => Ok(()),
        _ => Err(AgcError::Other(String::from_str(MISSING_KEY_MESSAGE))),
    }
}

/// `s` without its trailing `/` characters.
pub open spec fn trim_trailing_slashes(s: Seq<char>) -> Seq<char>
    decreases s.len(),
{
    if s.len() > 0 && s.last() == '/' {
        trim_trailing_slashes(s.drop_last())
    } else {
        s
    }
}

/// The endpoint posted to: the configured URL without trailing slashes.
pub fn endpoint_url(base_url: &str) -> (r: String)
    ensures
        r@ == trim_trailing_slashes(base_url@),
{
    let v = to_chars(base_url);
    let mut j: usize = v.len();
    assert(v@.take(j as int) =~= v@);
    while j > 0 && v[j - 1] == '/'
        invariant
            j <= v@.len(),
            v@ == base_url@,
            trim_trailing_slashes(base_url@) == trim_trailing_slashes(v@.take(j as int)),
        decreases j,
    {
        assert(v@.take(j as int).drop_last() =~= v@.take(j - 1));
        j = j - 1;
    }
    assert(v@.take(j as int) =~= v@.subrange(0, j as int));
    if j == v.len() {
        assert(v@.take(j as int) =~= v@);
    }
    from_chars(vstd::slice::slice_subrange(v.as_slice(), 0, j))
}

/// The `Authorization` header value.
pub fn bearer_header(api_key: &str) -> (r: String)
    ensures
        r@ == "Bearer "@ + api_key@,
{
    let mut r = String::from_str("Bearer ");
    r.append(api_key);
    r
}

/// The messages of a commit-message request: the system prompt, then the
/// user prompt.
pub fn commit_messages(req: &Request) -> (r: Vec<ChatMessage>)
    ensures
        r@.len() == 2,
        r@[0].role@ == "system"@,
        r@[0].content@ == system_prompt(views(req.types@), views(req.scopes@)),
        r@[1].role@ == "user"@,
        r@[1].content@ == user_prompt(req.diff@, req.git_info@, req.extra_context@),
{
    let mut r: Vec<ChatMessage> = Vec::new();
    r.push(
        ChatMessage {
            role: String::from_str("system"),
            content: PromptBuilder::build_system(req.types.as_slice(), req.scopes.as_slice()),
        },
    );
    r.push(ChatMessage { role: String::from_str("user"), content: PromptBuilder::build_user(req) });
    r
}

/// The messages of a scope-list request: the system prompt, then the user
/// prompt.
pub fn scope_messages(req: &ScopeRequest) -> (r: Vec<ChatMessage>)
    ensures
        r@.len() == 2,
        r@[0].role@ == "system"@,
        r@[0].content@ == SCOPE_SYSTEM@,
        r@[1].role@ == "user"@,
        r@[1].content@ == scope_user_prompt(views(req.dirs@), views(req.history_scopes@), req.existing_yaml@),
{
    let mut r: Vec<ChatMessage> = Vec::new();
    r.push(ChatMessage { role: String::from_str("system"), content: PromptBuilder::build_scope_system() });
    r.push(ChatMessage { role: String::from_str("user"), content: PromptBuilder::build_scope_user(req) });
    r
}

/// An error reported by the API.
pub struct ApiErrorInfo {
    pub message: String,
    pub error_type: String,
}

/// How a chat answer is read: the first choice's text, trimmed; without any
/// choice, the API's error when it reports one, else an empty-result error.
pub fn chat_result(first_content: Option<String>, error: Option<ApiErrorInfo>) -> (r: Result<String, AgcError>)
    ensures
        match first_content {
            Some(c) => r matches Ok(t) && t@ == trim_spec(c@),
            None => match error {
                Some(e) => r matches Err(AgcError::Other(m)) && m@ == "API 返回错误: "@ + e.message@ + " ("@
                    + e.error_type@ + ")"@,
                None => r matches Err(AgcError::Other(m)) && m@ == "API 返回空结果（无错误信息）"@,
            },
        },
{
    match first_content {
        Some(c) => Ok(trim(c.as_str())),
        None => match error {
            Some(e) => {
                let mut m = String::from_str("API 返回错误: ");
                m.append(e.message.as_str());
                m.append(" (");
                m.append(e.error_type.as_str());
                m.append(")");
                Err(AgcError::Other(m))
            },
            None => Err(AgcError::Other(String::from_str("API 返回空结果（无错误信息）"))),
        },
    }
}

} // verus!
