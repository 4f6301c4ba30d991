//! Prompts sent to the language model, independent of any provider's transport.
use vstd::prelude::*;

use crate::ai::{Request, ScopeRequest};
use crate::model::Model;
use crate::text::{join, join_spec, views};

verus! {

/// System prompt, before the list of types.
pub const SYSTEM_HEAD: &'static str = r#"你是一个 git commit 消息生成助手。根据以下 git 信息和可用的 type/scope 分类，生成 conventional commit 消息。

可用的 Type:
"#;

/// System prompt, between the list of types and the list of scopes.
pub const SYSTEM_MID: &'static str = r#"

可用的 Scope:
"#;

/// System prompt, after the list of scopes.
pub const SYSTEM_TAIL: &'static str = r#"

输出格式: 始终返回纯 JSON 对象（不要 markdown 代码块，不要额外说明），包含以下字段:
- reason: 分析说明 (中文，说明为何选择单条或多条提交)
- data: commit 消息数组，每个元素包含以下字段:
  - type: 变更类型 (必填，从可用 Type 中选择)
  - scope: 变更范围 (必填，从可用 Scope 中选择；若未列出合适项，可自行推断)
  - message: 中文描述 (一句话概括变更内容)
  - files: 该 commit 涉及的文件路径数组 (需要 git add 的文件)
  - detail: 变更的详细描述 (markdown 列表格式，以 - 开头列出每个具体变更)

规则:
- 根据 diff 内容选择最匹配的 Type 和 Scope
- type 和 scope 为必填字段，不得为空
- 消息用中文描述变更内容
- 分析 diff 内容判断是否需要分多条 commit
- 如果 diff 包含多个独立不相关的变更，为每组独立变更输出一条 commit
- 如果所有变更是相关的、完成单一目标，只输出一条
- 只返回 JSON 对象，不要 markdown 代码块、不要额外说明

示例输出（这是唯一合法格式）:
{"reason": "本次变更中的修改紧密相关，适合作为单条提交", "data": [{"type": "Feat", "scope": "Git", "message": "添加新的 git 函数", "files": ["internal/git/git.go"], "detail": "- 新增 StatusShort 函数\n- 新增 DiffStat 函数"}]}"#;

/// The scope list offered when no scope is configured.
pub const GENERAL_SCOPE_HINT: &'static str = "- General (未配置自定义 Scope，可根据需要自行推断)\n";

/// System prompt for generating the scope list.
pub const SCOPE_SYSTEM: &'static str = r#"你是一个项目结构分析助手。根据给定的项目目录结构、git 历史中已使用的 scope 以及现有配置，生成用于 conventional commit 的 scope 分类列表。

输出格式: 始终返回纯 JSON 对象（不要 markdown 代码块，不要额外说明），包含以下字段:
- scopes: scope 列表，每个元素包含:
  - name: scope 名称（优先使用目录名/模块名，保留原大小写，去重）
  - docs: 中文说明（一句话描述该 scope 覆盖的范围）

规则:
- 从项目目录结构中提炼有意义的模块/组件名作为 scope，粒度以顶层或 src 下一层为准
- 合并 git 历史中已使用的 scope（名称相同则保留）
- 保留现有配置中的所有 scope，可补充 docs 但不要改名
- 每个 scope 只出现一次，名称去重（忽略大小写差异时保留一个）
- 通常 5-15 个 scope，避免过细或过粗
- 只返回 JSON 对象，不要 markdown 代码块、不要额外说明"#;

/// One `- item` line per item.
pub open spec fn bullets(items: Seq<Seq<char>>) -> Seq<char>
    decreases items.len(),
{
    if items.len() == 0 {
        Seq::empty()
    } else {
        bullets(items.drop_last()) + "- "@ + items.last() + "\n"@
    }
}

/// The system prompt: the fixed instructions around the list of types and
/// the list of scopes (a hint to infer scopes when none is configured).
pub open spec fn system_prompt(types: Seq<Seq<char>>, scopes: Seq<Seq<char>>) -> Seq<char> {
    SYSTEM_HEAD@ + bullets(types) + SYSTEM_MID@ + (if scopes.len() == 0 {
        GENERAL_SCOPE_HINT@
    } else {
        bullets(scopes)
    }) + SYSTEM_TAIL@
}

/// Where the bullet of item `i` starts in a bullet list: the lengths of the
/// earlier bullets (`- `, the item, a line break) added up.
pub open spec fn bullet_start(items: Seq<Seq<char>>, i: int) -> int
    decreases i,
{
    if i <= 0 {
        0
    } else {
        bullet_start(items, i - 1) + items[i - 1].len() + 3
    }
}

proof fn lemma_bullet_start_prefix(items: Seq<Seq<char>>, i: int)
    requires
        0 <= i < items.len(),
    ensures
        bullet_start(items.drop_last(), i) == bullet_start(items, i),
    decreases i,
{
    if i > 0 {
        lemma_bullet_start_prefix(items, i - 1);
    }
}

proof fn lemma_bullets_layout(items: Seq<Seq<char>>)
    ensures
        bullets(items).len() == bullet_start(items, items.len() as int),
        forall|i: int|
            0 <= i < items.len() ==> bullets(items).subrange(
                bullet_start(items, i),
                #[trigger] bullet_start(items, i + 1),
            ) == "- "@ + items[i] + "\n"@,
    decreases items.len(),
{
    reveal_strlit("- ");
    reveal_strlit("\n");
    if items.len() > 0 {
        let d = items.drop_last();
        let n = items.len() - 1;
        lemma_bullets_layout(d);
        lemma_bullet_start_prefix(items, n);
        let b = bullets(d);
        let last = "- "@ + items[n] + "\n"@;
        assert(bullets(items) == b + last);
        assert forall|i: int| 0 <= i < items.len() implies bullets(items).subrange(
            bullet_start(items, i),
            #[trigger] bullet_start(items, i + 1),
        ) == "- "@ + items[i] + "\n"@ by {
            if i < n {
                lemma_bullet_start_prefix(items, i);
                lemma_bullet_start_prefix(items, i + 1);
                assert(d[i] == items[i]);
                lemma_bullet_start_monotone(d, i + 1, n);
                lemma_bullet_start_monotone(d, 0, i);
                assert((b + last).subrange(bullet_start(items, i), bullet_start(items, i + 1))
                    =~= b.subrange(bullet_start(d, i), bullet_start(d, i + 1)));
            } else {
                assert((b + last).subrange(bullet_start(items, i), bullet_start(items, i + 1)) =~= last);
            }
        }
    }
}

proof fn lemma_bullet_start_monotone(items: Seq<Seq<char>>, i: int, j: int)
    requires
        0 <= i <= j,
    ensures
        bullet_start(items, i) <= bullet_start(items, j),
    decreases j,
{
    if i < j {
        lemma_bullet_start_monotone(items, i, j - 1);
    }
}

/// Law: the system prompt is the fixed head, then one line `- t` for every
/// type `t`, in order and nothing else, then the fixed middle part; and,
/// when scopes are configured, one line `- s` for every scope `s`, in order,
/// right after the middle part.
pub proof fn law_system_prompt_lists_every_type(types: Seq<Seq<char>>, scopes: Seq<Seq<char>>)
    ensures
        system_prompt(types, scopes).take(SYSTEM_HEAD@.len() as int) == SYSTEM_HEAD@,
        forall|i: int|
            0 <= i < types.len() ==> system_prompt(types, scopes).subrange(
                SYSTEM_HEAD@.len() + bullet_start(types, i),
                SYSTEM_HEAD@.len() + #[trigger] bullet_start(types, i + 1),
            ) == "- "@ + types[i] + "\n"@,
        system_prompt(types, scopes).subrange(
            SYSTEM_HEAD@.len() + bullet_start(types, types.len() as int),
            SYSTEM_HEAD@.len() + bullet_start(types, types.len() as int) + SYSTEM_MID@.len(),
        ) == SYSTEM_MID@,
        forall|i: int|
            0 <= i < scopes.len() ==> system_prompt(types, scopes).subrange(
                SYSTEM_HEAD@.len() + bullet_start(types, types.len() as int) + SYSTEM_MID@.len()
                    + bullet_start(scopes, i),
                SYSTEM_HEAD@.len() + bullet_start(types, types.len() as int) + SYSTEM_MID@.len()
                    + #[trigger] bullet_start(scopes, i + 1),
            ) == "- "@ + scopes[i] + "\n"@,
{
    lemma_bullets_layout(types);
    lemma_bullets_layout(scopes);
    let h = SYSTEM_HEAD@;
    let bt = bullets(types);
    let m = SYSTEM_MID@;
    let rest = (if scopes.len() == 0 {
        GENERAL_SCOPE_HINT@
    } else {
        bullets(scopes)
    }) + SYSTEM_TAIL@;
    let p = system_prompt(types, scopes);
    assert(p == h + bt + m + rest);
    assert(p.take(h.len() as int) =~= h);
    assert forall|i: int| 0 <= i < types.len() implies p.subrange(
        h.len() + bullet_start(types, i),
        h.len() + #[trigger] bullet_start(types, i + 1),
    ) == "- "@ + types[i] + "\n"@ by {
        lemma_bullet_start_monotone(types, i + 1, types.len() as int);
        lemma_bullet_start_monotone(types, 0, i);
        assert(p.subrange(h.len() + bullet_start(types, i), h.len() + bullet_start(types, i + 1))
            =~= bt.subrange(bullet_start(types, i), bullet_start(types, i + 1)));
    }
    assert(p.subrange((h.len() + bt.len()) as int, (h.len() + bt.len() + m.len()) as int) =~= m);
    if scopes.len() > 0 {
        let bs = bullets(scopes);
        assert(rest == bs + SYSTEM_TAIL@);
        assert forall|i: int| 0 <= i < scopes.len() implies p.subrange(
            h.len() + bullet_start(types, types.len() as int) + m.len() + bullet_start(scopes, i),
            h.len() + bullet_start(types, types.len() as int) + m.len() + #[trigger] bullet_start(
                scopes,
                i + 1,
            ),
        ) == "- "@ + scopes[i] + "\n"@ by {
            lemma_bullet_start_monotone(scopes, i + 1, scopes.len() as int);
            lemma_bullet_start_monotone(scopes, 0, i);
            let o = (h.len() + bt.len() + m.len()) as int;
            assert(p == (h + bt + m) + bs + SYSTEM_TAIL@);
            assert(p.subrange(o + bullet_start(scopes, i), o + bullet_start(scopes, i + 1))
                =~= bs.subrange(bullet_start(scopes, i), bullet_start(scopes, i + 1)));
        }
    }
}

/// The user prompt: the working-tree status (when known), the full diff and
/// the change context (when known).
pub open spec fn user_prompt(diff: Seq<char>, git_info: Seq<char>, extra: Seq<char>) -> Seq<char> {
    "请根据以下 git 信息生成 commit 消息:\n\n"@ + (if git_info.len() == 0 {
        Seq::empty()
    } else {
        "--- 工作区状态 ---\n"@ + git_info + "\n\n"@
    }) + "--- 完整 diff ---\n"@ + diff + (if extra.len() == 0 {
        Seq::empty()
    } else {
        "\n\n--- 变更上下文 ---\n"@ + extra
    })
}

/// The user prompt for the scope list: the directory structure, the scopes
/// used in the history and the existing file, each when present; a request
/// for a common layout when all are missing.
pub open spec fn scope_user_prompt(dirs: Seq<Seq<char>>, history: Seq<Seq<char>>, yaml: Seq<char>) -> Seq<char> {
    let content = (if dirs.len() == 0 {
        Seq::empty()
    } else {
        "--- 项目目录结构 ---\n"@ + join_spec(dirs, "\n"@) + "\n"@
    }) + (if history.len() == 0 {
        Seq::empty()
    } else {
        "\n--- git 历史中已使用的 scope ---\n"@ + join_spec(history, "\n"@) + "\n"@
    }) + (if yaml.len() == 0 {
        Seq::empty()
    } else {
        "\n--- 现有 .git-style-scope.yaml 内容（保留其中条目，不要改名） ---\n"@ + yaml
    });
    if content.len() == 0 {
        "（无输入，请根据常见项目结构生成合理的 scope 列表）"@
    } else {
        content
    }
}

/// Appends one `- item` line per item.
fn push_bullets(out: &mut String, items: &[String])
    ensures
        final(out)@ == old(out)@ + bullets(views(items@)),
{
    let n = items.len();
    let mut i: usize = 0;
    assert(views(items@).take(0) =~= Seq::<Seq<char>>::empty());
    assert(old(out)@ + Seq::<char>::empty() =~= old(out)@);
    while i < n
        invariant
            i <= n == items@.len(),
            out@ == old(out)@ + bullets(views(items@).take(i as int)),
        decreases n - i,
    {
        let ghost before = out@;
        out.append("- ");
        out.append(items[i].as_str());
        out.append("\n");
        let ghost p = views(items@);
        assert(p.take(i + 1).drop_last() =~= p.take(i as int));
        assert(p[i as int] == items@[i as int]@);
        assert(out@ =~= old(out)@ + bullets(p.take(i + 1)));
        i = i + 1;
    }
    assert(views(items@).take(n as int) =~= views(items@));
}

/// One `- item` line per item.
pub fn bullet_list(items: &[String]) -> (r: String)
    ensures
        r@ == bullets(views(items@)),
{
    let mut out = String::new();
    push_bullets(&mut out, items);
    assert(Seq::<char>::empty() + bullets(views(items@)) =~= bullets(views(items@)));
    out
}

/// Assembles the prompts sent to the language model.
pub struct PromptBuilder;

impl PromptBuilder {
    /// The system prompt with the available types and scopes.
    pub fn build_system(types: &[String], scopes: &[String]) -> (r: String)
        ensures
            r@ == system_prompt(views(types@), views(scopes@)),
    {
        let mut out = String::from_str(SYSTEM_HEAD);
        push_bullets(&mut out, types);
        out.append(SYSTEM_MID);
        if scopes.len() == 0 {
            out.append(GENERAL_SCOPE_HINT);
        } else {
            push_bullets(&mut out, scopes);
        }
        out.append(SYSTEM_TAIL);
        out
    }

    /// The user prompt with the git information, diff and context.
    pub fn build_user(req: &Request) -> (r: String)
        ensures
            r@ == user_prompt(req.diff@, req.git_info@, req.extra_context@),
    {
        let mut out = String::from_str("请根据以下 git 信息生成 commit 消息:\n\n");
        if !req.git_info.as_str().is_empty() {
            out.append("--- 工作区状态 ---\n");
            out.append(req.git_info.as_str());
            out.append("\n\n");
        }
        out.append("--- 完整 diff ---\n");
        out.append(req.diff.as_str());
        if !req.extra_context.as_str().is_empty() {
            out.append("\n\n--- 变更上下文 ---\n");
            out.append(req.extra_context.as_str());
        }
        out
    }

    /// The system prompt for generating the scope list.
    pub fn build_scope_system() -> (r: String)
        ensures
            r@ == SCOPE_SYSTEM@,
    {
        String::from_str(SCOPE_SYSTEM)
    }

    /// The user prompt for generating the scope list.
    pub fn build_scope_user(req: &ScopeRequest) -> (r: String)
        ensures
            r@ == scope_user_prompt(views(req.dirs@), views(req.history_scopes@), req.existing_yaml@),
    {
        let mut content = String::new();
        if req.dirs.len() > 0 {
            content.append("--- 项目目录结构 ---\n");
            let j = join(&req.dirs, "\n");
            content.append(j.as_str());
            content.append("\n");
        }
        if req.history_scopes.len() > 0 {
            content.append("\n--- git 历史中已使用的 scope ---\n");
            let j = join(&req.history_scopes, "\n");
            content.append(j.as_str());
            content.append("\n");
        }
        if !req.existing_yaml.as_str().is_empty() {
            content.append("\n--- 现有 .git-style-scope.yaml 内容（保留其中条目，不要改名） ---\n");
            content.append(req.existing_yaml.as_str());
        }
        if content.as_str().is_empty() {
            content.append("（无输入，请根据常见项目结构生成合理的 scope 列表）");
        }
        content
    }
}

} // verus!
