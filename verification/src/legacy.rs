//! The first version of the commit flow: one function, plain output, the
//! model's entries checked before use.
use vstd::prelude::*;

use crate::ai::{AiProvider, commit_request};
use crate::ai::openai::{endpoint_url, trim_trailing_slashes};
use crate::ai::prompt::{SYSTEM_HEAD, SYSTEM_MID, bullets};
use crate::text::views;
use crate::commit::{AiResponse, Entry, EntryModel, valid_entries};
use crate::commit::service::{decodable, entries_from, plan_commits, response_text, run_commits};
use crate::config::Config;
use crate::error::AgcError;
use crate::git::GitBackend;
use crate::model::{Duplicate, Model};
use crate::pipeline::PipelineContext;
use crate::pipeline::context::git_info_text;
use crate::pipeline::stages::diff::collect_changes;
use crate::pipeline::stages::enrich::apply_context;
use crate::workflow::{collected_in, record_commits, workflow_ran};
use crate::pipeline::stages::ai::GENERATE_MESSAGE;
use crate::pipeline::stages::parse::NO_ENTRY_MESSAGE;
use crate::search::SearchBackend;
use crate::ui::Host;

verus! {

/// The options of a run.
pub struct Options {
    pub skill_path: String,
    pub api_key: String,
    pub rg_pattern: String,
    pub fd_pattern: String,
    pub lazygit_path: String,
}

/// The context handed to the model client.
pub struct WorkflowContext;

/// The commit flow.
pub struct Workflow;

/// The error when no API key is available.
pub const MISSING_API_KEY_MESSAGE: &'static str = "MESSAGE_API_KEY 未设置，可通过 --api-key 参数或 MESSAGE_API_KEY 环境变量设置";

/// The model used when `OPENAI_MODEL` is not set.
pub const LEGACY_MODEL: &'static str = "deepseek-v4-flash";

/// The service used when `OPENAI_BASE_URL` is not set.
pub const LEGACY_BASE_URL: &'static str = "https://api.deepseek.com";

/// Printed for each entry of the answer that lacks a required field.
pub const INCOMPLETE_ENTRY_WARNING: &'static str = "警告: AI 返回的 entry 缺少必要字段，已跳过";

/// The first version's system prompt, after the list of scopes.
pub const LEGACY_SYSTEM_TAIL: &'static str = r#"

输出格式: 始终返回 JSON 对象，包含以下字段:
- reason: 分析说明 (中文，说明为何选择单条或多条提交)
- data: commit 消息数组，每个元素包含以下字段:
  - type: 变更类型 (必填，从可用 Type 中选择)
  - scope: 变更范围 (必填，从可用 Scope 中选择)
  - message: 中文描述 (一句话概括变更内容)
  - files: 该 commit 涉及的文件路径数组 (需要 git add 的文件)
  - detail: 变更的详细描述 (markdown 列表格式，以 - 开头列出每个具体变更)

规则:
- 根据 diff 内容选择最匹配的 Type 和 Scope
- type 和 scope 为必填字段，不得为空
- 消息用中文描述变更内容
- 分析 diff 内容判断是否需要分多条 commit
- 如果 diff 包含多个独立不相关的变更，为每组独立变更输出一条 commit
- 如果所有变更是相关的、完成单一目标，只输出一条
- 只返回 JSON 对象，不要额外说明

示例输出:
{"reason": "本次变更中的修改紧密相关，适合作为单条提交", "data": [{"type": "Feat", "scope": "Git", "message": "添加新的 git 函数", "files": ["internal/git/git.go"], "detail": "- 新增 StatusShort 函数\n- 新增 DiffStat 函数"}]}"#;

/// The first version's system prompt: the same instructions around the type
/// and scope lists, but no hint when no scope is configured and a shorter
/// output section.
pub open spec fn legacy_system_prompt(types: Seq<Seq<char>>, scopes: Seq<Seq<char>>) -> Seq<char> {
    SYSTEM_HEAD@ + bullets(types) + SYSTEM_MID@ + bullets(scopes) + LEGACY_SYSTEM_TAIL@
}

/// Builds the first version's system prompt.
pub fn build_legacy_system(types: &[String], scopes: &[String]) -> (r: String)
    ensures
        r@ == legacy_system_prompt(views(types@), views(scopes@)),
{
    let mut out = String::from_str(SYSTEM_HEAD);
    out.append(crate::ai::prompt::bullet_list(types).as_str());
    out.append(SYSTEM_MID);
    out.append(crate::ai::prompt::bullet_list(scopes).as_str());
    out.append(LEGACY_SYSTEM_TAIL);
    out
}

/// The endpoint the first version posts to: the service URL without trailing
/// slashes, then `/v1/chat/completions`.
pub fn legacy_endpoint(base_url: &str) -> (r: String)
    ensures
        r@ == trim_trailing_slashes(base_url@) + "/v1/chat/completions"@,
{
    let mut r = endpoint_url(base_url);
    r.append("/v1/chat/completions");
    r
}

/// The API key: the command-line one when not empty, else `MESSAGE_API_KEY`
/// (as it is), else the error.
pub fn resolve_api_key(cli_key: &str, env_key: Option<String>) -> (r: Result<String, AgcError>)
    ensures
        cli_key@.len() > 0 ==> (r matches Ok(k) && k@ == cli_key@),
        cli_key@.len() == 0 ==> match env_key {
            Some(k) => r matches Ok(v) && v@ == k@,
            None => r matches Err(AgcError::Other(m)) && m@ == MISSING_API_KEY_MESSAGE@,
        },
{
    if !cli_key.is_empty() {
        return Ok(String::from_str(cli_key));
    }
    match env_key {
        Some(k) => Ok(k),
        None => Err(AgcError::Other(String::from_str(MISSING_API_KEY_MESSAGE))),
    }
}

/// The value when set, else `default`.
pub fn or_default(value: Option<String>, default: &str) -> (r: String)
    ensures
        r@ == (match value {
            Some(v) => v@,
            None => default@,
        }),
{
    match value {
        Some(v) => v,
        None => String::from_str(default),
    }
}

/// The entries that have every required field, in order; a warning is printed
/// for each one left out.
pub fn keep_valid(entries: &Vec<Entry>, host: &dyn Host) -> (r: Vec<Entry>)
    ensures
        r.model() == valid_entries(entries.model()),
{
    let n = entries.len();
    let mut out: Vec<Entry> = Vec::new();
    let mut i: usize = 0;
    assert(entries.model().take(0) =~= Seq::<crate::commit::EntryModel>::empty());
    while i < n
        invariant
            i <= n == entries@.len(),
            out.model() == valid_entries(entries.model().take(i as int)),
        decreases n - i,
    {
        assert(entries.model().take(i + 1).drop_last() =~= entries.model().take(i as int));
        assert(entries.model()[i as int] == entries@[i as int].model());
        if entries[i].is_valid() {
            let e = entries[i].duplicate();
            let ghost before = out@;
            out.push(e);
            assert(out.model() =~= before.map_values(|x: Entry| x.model()).push(e.model()));
        } else {
            host.warn(INCOMPLETE_ENTRY_WARNING);
        }
        i = i + 1;
    }
    assert(entries.model().take(n as int) =~= entries.model());
    out
}

impl Workflow {
    pub fn new() -> (r: Self) {
        Workflow
    }

    /// Runs the flow: collects the changes, adds code context, asks the model
    /// (`ai` is the client, or why none could be made), keeps the complete
    /// entries, then confirms and makes each commit. Output is not coloured.
    /// What was collected, decoded and kept, and the git calls made, are
    /// recorded in `ctx` (see `workflow_ran`; the entries kept are the
    /// complete ones).
    pub fn run(
        &self,
        opts: &Options,
        config: Config,
        git: &dyn GitBackend,
        search: &dyn SearchBackend,
        ai: Result<Box<dyn AiProvider>, AgcError>,
        ctx: &mut PipelineContext,
        host: &dyn Host,
    ) -> (r: Result<(), AgcError>)
        requires
            old(ctx).entries@.len() == 0,
            old(ctx).failure is None,
        ensures
            workflow_ran(old(ctx).model(), final(ctx).model(), r, false),
            final(ctx).model().entries.len() > 0 ==> exists|d: Option<AiResponse>|
                decodable(final(ctx).model().raw_response, d) && #[trigger] kept_from(
                    d,
                    final(ctx).model().entries,
                ),
    {
        let ghost before = ctx.model();
        let collected = collect_changes(git, ctx, host);
        if collected.is_err() {
            return collected;
        }
        if !ctx.has_changes {
            return Ok(());
        }
        let content = if ctx.untracked_files.len() > 0 {
            git.untracked_content(ctx.untracked_files.as_slice())
        } else {
            String::new()
        };
        ctx.git_info = git_info_text(
            ctx.status_short.as_str(),
            ctx.diff_cached_stat.as_str(),
            ctx.diff_stat.as_str(),
            content.as_str(),
        );
        let rg = search.rg_context(ctx.changed_files.as_slice(), opts.rg_pattern.as_str());
        let fd = search.fd_context(ctx.changed_files.as_slice(), opts.fd_pattern.as_str());
        apply_context(ctx, rg.as_str(), fd.as_str());
        assert(collected_in(before, ctx.model(), content@));
        let client = match ai {
            Ok(c) => c,
            Err(e) => {
                ctx.failure = Some(e.duplicate());
                assert(collected_in(before, ctx.model(), content@));
                return Err(e);
            },
        };
        let req = commit_request(&config, ctx.diff.as_str(), ctx.git_info.as_str(), ctx.extra_context.as_str());
        host.begin_progress(GENERATE_MESSAGE);
        let answer = client.generate(&req);
        host.end_progress(GENERATE_MESSAGE);
        let raw = match answer {
            Ok(raw) => raw,
            Err(e) => {
                ctx.failure = Some(e.duplicate());
                assert(collected_in(before, ctx.model(), content@));
                return Err(e);
            },
        };
        ctx.raw_response = raw;
        assert(collected_in(before, ctx.model(), content@));
        let decoded = match response_text(ctx.raw_response.as_str()) {
            None => None,
            Some(t) => host.decode_response(t.as_str()),
        };
        let ghost d = decoded;
        assert(decodable(ctx.raw_response@, d));
        let (entries, reason) = entries_from(decoded);
        let kept = if entries.len() == 0 {
            Vec::new()
        } else {
            if !reason.as_str().is_empty() {
                let mut line = String::from_str("\n");
                line.append(reason.as_str());
                host.say(line.as_str());
            }
            keep_valid(&entries, host)
        };
        if kept.len() == 0 {
            return Err(AgcError::Other(String::from_str(NO_ENTRY_MESSAGE)));
        }
        ctx.entries = kept;
        ctx.reason = reason;
        assert(kept_from(d, ctx.model().entries));
        assert(collected_in(before, ctx.model(), content@));
        let jobs = plan_commits(&ctx.entries, false);
        let (r, made, answers) = run_commits(&jobs, git, host, false, false);
        record_commits(ctx, made, answers);
        assert(collected_in(before, ctx.model(), content@));
        assert(kept_from(d, ctx.model().entries));
        r
    }
}

/// The entries kept from a decoded answer: its complete entries, in order.
pub open spec fn kept_from(decoded: Option<AiResponse>, kept: Seq<EntryModel>) -> bool {
    match decoded {
        Some(d) => kept == valid_entries(d.data.model()),
        None => kept.len() == 0,
    }
}

} // verus!
