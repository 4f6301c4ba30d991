use std::cell::RefCell;
use std::sync::Arc;

use agc::ai::{AiProvider, Request, ScopeRequest};
use agc::commit::{AiResponse, Entry};
use agc::config::Config;
use agc::error::AgcError;
use agc::git::{GitBackend, GitCall};
use agc::pipeline::stages::diff::collect_from;
use agc::pipeline::stages::enrich::apply_context;
use agc::pipeline::stages::parse::apply_answer;
use agc::pipeline::stages::{ContextEnricher, GitPusher};
use agc::pipeline::{PipelineBuilder, PipelineContext};
use agc::search::SearchBackend;
use agc::ui::Host;

#[derive(Default)]
struct FakeGit {
    diff: String,
    untracked: Vec<String>,
    calls: RefCell<Vec<String>>,
}

impl GitBackend for FakeGit {
    fn diff(&self) -> Result<String, AgcError> {
        Ok(self.diff.clone())
    }
    fn changed_files(&self) -> Result<Vec<String>, AgcError> {
        Ok(vec!["src/a.rs".into()])
    }
    fn status_short(&self) -> Result<String, AgcError> {
        Ok(" M src/a.rs".into())
    }
    fn diff_stat(&self) -> Result<String, AgcError> {
        Ok(String::new())
    }
    fn diff_cached_stat(&self) -> Result<String, AgcError> {
        Err(AgcError::Other("no cache".into()))
    }
    fn ls_untracked(&self) -> Result<Vec<String>, AgcError> {
        Ok(self.untracked.clone())
    }
    fn untracked_content(&self, _paths: &[String]) -> String {
        String::new()
    }
    fn stage_all(&self) -> Result<(), AgcError> {
        self.calls.borrow_mut().push("add -A".into());
        Ok(())
    }
    fn stage_files(&self, files: &[String]) -> Result<(), AgcError> {
        self.calls.borrow_mut().push(format!("add {}", files.join(" ")));
        Ok(())
    }
    fn commit(&self, msg: &str) -> Result<(), AgcError> {
        self.calls.borrow_mut().push(format!("commit {msg}"));
        Ok(())
    }
    fn push(&self, remote: &str, branch: &str) -> Result<(), AgcError> {
        self.calls.borrow_mut().push(format!("push {remote} {branch}"));
        Ok(())
    }
}

struct FakeAi(Result<String, String>);

impl AiProvider for FakeAi {
    fn generate(&self, _req: &Request) -> Result<String, AgcError> {
        self.0.clone().map_err(AgcError::Other)
    }
    fn generate_scopes(&self, _req: &ScopeRequest) -> Result<String, AgcError> {
        Ok(String::new())
    }
}

struct FakeSearch;

impl SearchBackend for FakeSearch {
    fn rg_context(&self, _files: &[String], _pattern: &str) -> String {
        "rg".into()
    }
    fn fd_context(&self, _files: &[String], _pattern: &str) -> String {
        String::new()
    }
}

#[derive(Default)]
struct FakeHost {
    answers: RefCell<Vec<String>>,
    lines: RefCell<Vec<String>>,
    decoded: RefCell<Option<AiResponse>>,
}

impl Host for FakeHost {
    fn say(&self, line: &str) {
        self.lines.borrow_mut().push(line.to_string());
    }
    fn warn(&self, line: &str) {
        self.lines.borrow_mut().push(format!("warn:{line}"));
    }
    fn ask(&self, _prompt: &str) -> String {
        let mut a = self.answers.borrow_mut();
        if a.is_empty() {
            String::new()
        } else {
            a.remove(0)
        }
    }
    fn begin_progress(&self, _msg: &str) {}
    fn end_progress(&self, _msg: &str) {}
    fn decode_response(&self, _text: &str) -> Option<AiResponse> {
        self.decoded.borrow_mut().take()
    }
}

fn entry(t: &str, s: &str, m: &str, files: &[&str], detail: &str) -> Entry {
    Entry {
        entry_type: t.into(),
        scope: s.into(),
        message: m.into(),
        files: files.iter().map(|f| f.to_string()).collect(),
        detail: detail.into(),
    }
}

fn config() -> Config {
    Config { types: vec!["Feat".into()], scopes: vec!["Core".into()] }
}

type Builder = PipelineBuilder<FakeGit, FakeAi, FakeSearch>;

#[test]
fn build_reports_missing_parts_in_order() {
    let err = Builder::new().build().err().unwrap();
    assert_eq!(err.message(), "GitBackend 未设置");
    let err = Builder::new().with_git(Arc::new(FakeGit::default())).build().err().unwrap();
    assert_eq!(err.message(), "AiProvider 未设置");
    let err = Builder::new()
        .with_git(Arc::new(FakeGit::default()))
        .with_ai(Arc::new(FakeAi(Ok(String::new()))))
        .build()
        .err()
        .unwrap();
    assert_eq!(err.message(), "SearchBackend 未设置");
    let err = Builder::new()
        .with_git(Arc::new(FakeGit::default()))
        .with_ai(Arc::new(FakeAi(Ok(String::new()))))
        .with_search(Arc::new(FakeSearch))
        .build()
        .err()
        .unwrap();
    assert_eq!(err.message(), "Config 未设置");
}

#[test]
fn pipeline_commits_each_entry_and_pushes_when_asked() {
    let git = Arc::new(FakeGit { diff: "diff --git".into(), ..Default::default() });
    let pipeline = Builder::new()
        .with_git(git.clone())
        .with_ai(Arc::new(FakeAi(Ok("{json}".into()))))
        .with_search(Arc::new(FakeSearch))
        .with_config(config())
        .with_auto_push(Some("origin".into()))
        .build()
        .unwrap();
    let host = FakeHost::default();
    *host.decoded.borrow_mut() = Some(AiResponse {
        reason: "两处独立修改".into(),
        data: vec![
            entry("feat", "core", "新增功能", &["src/a.rs"], "- 细节"),
            entry("fix", "ui", "修复问题", &[], ""),
        ],
    });
    let mut ctx = PipelineContext::new(Some("origin".into()), true);
    pipeline.run(&mut ctx, &host).unwrap();
    assert_eq!(
        *git.calls.borrow(),
        vec![
            "add src/a.rs".to_string(),
            "commit Feat(Core): 新增功能\n\n- 细节".to_string(),
            "add -A".to_string(),
            "commit Fix(Ui): 修复问题".to_string(),
            "push origin ".to_string(),
        ]
    );
    assert!(ctx.has_changes);
    assert!(ctx.entries.is_empty());
    assert_eq!(
        log_text(&ctx),
        vec![
            "stage src/a.rs".to_string(),
            "commit Feat(Core): 新增功能\n\n- 细节".to_string(),
            "stage all".to_string(),
            "commit Fix(Ui): 修复问题".to_string(),
            "push origin ".to_string(),
        ]
    );
    assert_eq!(ctx.reason, "两处独立修改");
    assert!(ctx.answers.is_empty());
    assert_eq!(ctx.extra_context, "---\n变更文件结构上下文:\nrg");
    assert_eq!(ctx.git_info, "--- 工作区状态 ---\n M src/a.rs\n");
    let lines = host.lines.borrow();
    assert!(lines.contains(&"\n\u{1b}[1;36m--- 提交 1/2 ---\u{1b}[0m".to_string()));
    assert!(lines.contains(&"\u{1b}[32m全部提交成功\u{1b}[0m".to_string()));
    assert!(lines.contains(&"\u{1b}[32mgit push origin  成功\u{1b}[0m".to_string()));
}

#[test]
fn pipeline_without_changes_stops_quietly() {
    let git = Arc::new(FakeGit::default());
    let pipeline = Builder::new()
        .with_git(git.clone())
        .with_ai(Arc::new(FakeAi(Err("must not be called".into()))))
        .with_search(Arc::new(FakeSearch))
        .with_config(config())
        .build()
        .unwrap();
    let host = FakeHost::default();
    let mut ctx = PipelineContext::new(None, false);
    pipeline.run(&mut ctx, &host).unwrap();
    assert!(!ctx.has_changes);
    assert!(git.calls.borrow().is_empty());
    assert_eq!(*host.lines.borrow(), vec!["没有未暂存的变更".to_string()]);
}

#[test]
fn pipeline_refused_confirmation_makes_no_commit() {
    let git = Arc::new(FakeGit { untracked: vec!["new.txt".into()], ..Default::default() });
    let pipeline = Builder::new()
        .with_git(git.clone())
        .with_ai(Arc::new(FakeAi(Ok("{json}".into()))))
        .with_search(Arc::new(FakeSearch))
        .with_config(config())
        .build()
        .unwrap();
    let host = FakeHost::default();
    *host.answers.borrow_mut() = vec!["no\n".into()];
    *host.decoded.borrow_mut() =
        Some(AiResponse { reason: String::new(), data: vec![entry("docs", "readme", "更新", &[], "")] });
    let mut ctx = PipelineContext::new(None, false);
    pipeline.run(&mut ctx, &host).unwrap();
    assert!(git.calls.borrow().is_empty());
    assert_eq!(host.lines.borrow().last().unwrap(), "\u{1b}[33m已取消\u{1b}[0m");
}

#[test]
fn pipeline_confirmed_with_ok_commits() {
    let git = Arc::new(FakeGit { diff: "d".into(), ..Default::default() });
    let pipeline = Builder::new()
        .with_git(git.clone())
        .with_ai(Arc::new(FakeAi(Ok("{json}".into()))))
        .with_search(Arc::new(FakeSearch))
        .with_config(config())
        .build()
        .unwrap();
    let host = FakeHost::default();
    *host.answers.borrow_mut() = vec!["  ok \n".into()];
    *host.decoded.borrow_mut() =
        Some(AiResponse { reason: String::new(), data: vec![entry("feat", "x", "m", &[], "")] });
    let mut ctx = PipelineContext::new(None, false);
    pipeline.run(&mut ctx, &host).unwrap();
    assert_eq!(*git.calls.borrow(), vec!["add -A".to_string(), "commit Feat(X): m".to_string()]);
}

#[test]
fn pipeline_empty_answer_and_no_entries_errors() {
    let run = |answer: &str, decoded: Option<AiResponse>| {
        let pipeline = Builder::new()
            .with_git(Arc::new(FakeGit { diff: "d".into(), ..Default::default() }))
            .with_ai(Arc::new(FakeAi(Ok(answer.into()))))
            .with_search(Arc::new(FakeSearch))
            .with_config(config())
            .build()
            .unwrap();
        let host = FakeHost::default();
        *host.decoded.borrow_mut() = decoded;
        let mut ctx = PipelineContext::new(None, true);
        pipeline.run(&mut ctx, &host).err().unwrap().message()
    };
    assert_eq!(run("", None), "AI 未返回任何内容");
    assert_eq!(run("   ", None), "AI 未生成有效 commit 消息");
    assert_eq!(run("not json", None), "AI 未生成有效 commit 消息");
    assert_eq!(
        run("{}", Some(AiResponse { reason: "r".into(), data: vec![] })),
        "AI 未生成有效 commit 消息"
    );
}

#[test]
fn pipeline_provider_error_stops_the_run() {
    let git = Arc::new(FakeGit { diff: "d".into(), ..Default::default() });
    let pipeline = Builder::new()
        .with_git(git.clone())
        .with_ai(Arc::new(FakeAi(Err("API 返回空结果（无错误信息）".into()))))
        .with_search(Arc::new(FakeSearch))
        .with_config(config())
        .build()
        .unwrap();
    let host = FakeHost::default();
    let mut ctx = PipelineContext::new(None, true);
    let err = pipeline.run(&mut ctx, &host).err().unwrap();
    assert_eq!(err.message(), "API 返回空结果（无错误信息）");
    assert!(ctx.raw_response.is_empty());
    assert!(git.calls.borrow().is_empty());
}

#[test]
fn build_git_info_skips_empty_sections() {
    let mut ctx = PipelineContext::new(None, false);
    ctx.status_short = "S".into();
    ctx.diff_stat = "U".into();
    ctx.build_git_info();
    assert_eq!(ctx.git_info, "--- 工作区状态 ---\nS\n--- 未暂存变更摘要 ---\nU\n");
    ctx.diff_cached_stat = "C".into();
    ctx.build_git_info();
    assert_eq!(
        ctx.git_info,
        "--- 工作区状态 ---\nS\n--- 已暂存变更摘要 ---\nC\n--- 未暂存变更摘要 ---\nU\n"
    );
}

fn log_text(ctx: &PipelineContext) -> Vec<String> {
    ctx.git_log
        .iter()
        .map(|rec| {
            let call = match &rec.call {
                GitCall::StageFiles(f) => format!("stage {}", f.join(" ")),
                GitCall::StageAll => "stage all".to_string(),
                GitCall::Commit(m) => format!("commit {m}"),
                GitCall::Push(r, b) => format!("push {r} {b}"),
            };
            match &rec.result {
                Ok(()) => call,
                Err(e) => format!("{call} -> {}", e.message()),
            }
        })
        .collect()
}

#[test]
fn collect_from_stores_answers_and_passes_diff_error() {
    let mut ctx = PipelineContext::new(None, false);
    let r = collect_from(
        &mut ctx,
        Ok("d".into()),
        Ok(vec!["a.rs".into()]),
        Err(AgcError::Git("s".into())),
        Ok("U".into()),
        Ok(String::new()),
        Err(AgcError::Git("u".into())),
    );
    assert!(r.is_ok());
    assert_eq!(ctx.diff, "d");
    assert_eq!(ctx.changed_files, vec!["a.rs".to_string()]);
    assert!(ctx.status_short.is_empty());
    assert!(ctx.untracked_files.is_empty());
    assert!(ctx.has_changes);
    assert_eq!(ctx.git_info, "--- 未暂存变更摘要 ---\nU\n");
    let mut fresh = PipelineContext::new(None, false);
    let err = collect_from(
        &mut fresh,
        Err(AgcError::Git("no repo".into())),
        Ok(vec!["a.rs".into()]),
        Ok("S".into()),
        Ok("U".into()),
        Ok("C".into()),
        Ok(vec![]),
    )
    .err()
    .unwrap();
    assert_eq!(err.message(), "Git 操作失败: no repo");
    assert!(fresh.diff.is_empty() && fresh.changed_files.is_empty() && !fresh.has_changes);
    let mut quiet = PipelineContext::new(None, false);
    collect_from(&mut quiet, Ok(String::new()), Ok(vec![]), Ok("S".into()), Ok(String::new()), Ok(String::new()), Ok(vec![]))
        .unwrap();
    assert!(!quiet.has_changes);
    assert!(quiet.git_info.is_empty());
}

#[test]
fn apply_answer_stores_all_decoded_entries_and_reason() {
    let host = FakeHost::default();
    let mut ctx = PipelineContext::new(None, false);
    let r = apply_answer(
        &mut ctx,
        Some(AiResponse { reason: "why".into(), data: vec![entry("feat", "core", "m", &[], ""), entry("", "", "", &[], "")] }),
        &host,
    );
    assert!(r.is_ok());
    assert_eq!(ctx.entries.len(), 2);
    assert_eq!(ctx.reason, "why");
    let mut other = PipelineContext::new(None, false);
    let err = apply_answer(&mut other, None, &host).err().unwrap();
    assert_eq!(err.message(), "AI 未生成有效 commit 消息");
    assert!(other.entries.is_empty() && other.reason.is_empty());
}

#[test]
fn push_and_search_arguments() {
    let pusher = GitPusher::new(Arc::new(FakeGit::default()), "origin".into(), "main".into());
    match pusher.push_call() {
        GitCall::Push(r, b) => {
            assert_eq!(r, "origin");
            assert_eq!(b, "main");
        },
        _ => panic!("not a push"),
    }
    let enricher = ContextEnricher::new(Arc::new(FakeSearch), "rgpat".into(), "fdpat".into());
    assert_eq!(enricher.search_patterns(), ("rgpat".to_string(), "fdpat".to_string()));
    let mut ctx = PipelineContext::new(None, false);
    apply_context(&mut ctx, "", "tree");
    assert_eq!(ctx.extra_context, "---\n关联文件上下文:\ntree");
}
