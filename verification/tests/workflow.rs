use std::cell::RefCell;

use agc::ai::{AiProvider, Request, ScopeRequest};
use agc::commit::{AiResponse, Entry};
use agc::config::Config;
use agc::error::AgcError;
use agc::git::{GitBackend, GitCall};
use agc::pipeline::PipelineContext;
use agc::legacy::Options;
use agc::workflow::WorkflowBuilder;
use agc::search::SearchBackend;
use agc::ui::Host;

#[derive(Default)]
struct FakeGit {
    diff: String,
    untracked: Vec<String>,
    calls: RefCell<Vec<String>>,
    no_repo: bool,
    refuse_commit: bool,
}

impl GitBackend for FakeGit {
    fn diff(&self) -> Result<String, AgcError> {
        if self.no_repo {
            return Err(AgcError::Git("not a repository".into()));
        }
        Ok(self.diff.clone())
    }
    fn changed_files(&self) -> Result<Vec<String>, AgcError> {
        Ok(vec!["src/a.rs".into()])
    }
    fn status_short(&self) -> Result<String, AgcError> {
        Ok(" M src/a.rs".into())
    }
    fn diff_stat(&self) -> Result<String, AgcError> {
        Ok(String::new())
    }
    fn diff_cached_stat(&self) -> Result<String, AgcError> {
        Err(AgcError::Other("no cache".into()))
    }
    fn ls_untracked(&self) -> Result<Vec<String>, AgcError> {
        Ok(self.untracked.clone())
    }
    fn untracked_content(&self, _paths: &[String]) -> String {
        String::new()
    }
    fn stage_all(&self) -> Result<(), AgcError> {
        self.calls.borrow_mut().push("add -A".into());
        Ok(())
    }
    fn stage_files(&self, files: &[String]) -> Result<(), AgcError> {
        self.calls.borrow_mut().push(format!("add {}", files.join(" ")));
        Ok(())
    }
    fn commit(&self, msg: &str) -> Result<(), AgcError> {
        self.calls.borrow_mut().push(format!("commit {msg}"));
        if self.refuse_commit {
            return Err(AgcError::Git("hook refused".into()));
        }
        Ok(())
    }
    fn push(&self, remote: &str, branch: &str) -> Result<(), AgcError> {
        self.calls.borrow_mut().push(format!("push {remote} {branch}"));
        Ok(())
    }
}

struct FakeAi(Result<String, String>);

impl AiProvider for FakeAi {
    fn generate(&self, _req: &Request) -> Result<String, AgcError> {
        self.0.clone().map_err(AgcError::Other)
    }
    fn generate_scopes(&self, _req: &ScopeRequest) -> Result<String, AgcError> {
        Ok(String::new())
    }
}

struct FakeSearch;

impl SearchBackend for FakeSearch {
    fn rg_context(&self, _files: &[String], _pattern: &str) -> String {
        "rg".into()
    }
    fn fd_context(&self, _files: &[String], _pattern: &str) -> String {
        String::new()
    }
}

#[derive(Default)]
struct FakeHost {
    answers: RefCell<Vec<String>>,
    lines: RefCell<Vec<String>>,
    decoded: RefCell<Option<AiResponse>>,
}

impl Host for FakeHost {
    fn say(&self, line: &str) {
        self.lines.borrow_mut().push(line.to_string());
    }
    fn warn(&self, line: &str) {
        self.lines.borrow_mut().push(format!("warn:{line}"));
    }
    fn ask(&self, _prompt: &str) -> String {
        let mut a = self.answers.borrow_mut();
        if a.is_empty() {
            String::new()
        } else {
            a.remove(0)
        }
    }
    fn begin_progress(&self, _msg: &str) {}
    fn end_progress(&self, _msg: &str) {}
    fn decode_response(&self, _text: &str) -> Option<AiResponse> {
        self.decoded.borrow_mut().take()
    }
}

fn entry(t: &str, s: &str, m: &str, files: &[&str], detail: &str) -> Entry {
    Entry {
        entry_type: t.into(),
        scope: s.into(),
        message: m.into(),
        files: files.iter().map(|f| f.to_string()).collect(),
        detail: detail.into(),
    }
}

fn config() -> Config {
    Config { types: vec!["Feat".into()], scopes: vec!["Core".into()] }
}


fn decoded_host(entries: Vec<Entry>, answers: Vec<&str>) -> FakeHost {
    let host = FakeHost::default();
    *host.decoded.borrow_mut() = Some(AiResponse { reason: "理由".into(), data: entries });
    *host.answers.borrow_mut() = answers.into_iter().map(|a| a.to_string()).collect();
    host
}

#[test]
fn workflow_build_requires_every_part() {
    let err = WorkflowBuilder::new().build().err().unwrap();
    assert_eq!(err.message(), "GitBackend 未设置");
    let err = WorkflowBuilder::new()
        .with_git(FakeGit::default())
        .with_ai(FakeAi(Ok(String::new())))
        .with_search(FakeSearch)
        .build()
        .err()
        .unwrap();
    assert_eq!(err.message(), "Config 未设置");
}

#[test]
fn workflow_runs_confirmed_commits() {
    let workflow = WorkflowBuilder::new()
        .with_git(FakeGit { diff: "d".into(), ..Default::default() })
        .with_ai(FakeAi(Ok("{json}".into())))
        .with_search(FakeSearch)
        .with_config(config())
        .build()
        .unwrap();
    let host = decoded_host(vec![entry("feat", "core", "m", &[], "")], vec!["ok"]);
    let mut ctx = PipelineContext::new(None, false);
    workflow.run(&mut ctx, &host).unwrap();
    assert_eq!(log_text(&ctx), vec!["stage all".to_string(), "commit Feat(Core): m".to_string()]);
    assert_eq!(ctx.entries.len(), 1);
    let lines = host.lines.borrow();
    assert_eq!(lines[0], "\n\u{1b}[33m理由\u{1b}[0m");
    assert_eq!(lines.last().unwrap(), "\u{1b}[32m全部提交成功\u{1b}[0m");
}

#[test]
fn workflow_no_changes_and_no_entries() {
    let idle = WorkflowBuilder::new()
        .with_git(FakeGit::default())
        .with_ai(FakeAi(Ok("x".into())))
        .with_search(FakeSearch)
        .with_config(config())
        .build()
        .unwrap();
    let host = FakeHost::default();
    let mut ctx = PipelineContext::new(None, false);
    idle.run(&mut ctx, &host).unwrap();
    assert!(ctx.git_log.is_empty());
    assert!(!ctx.has_changes);
    assert_eq!(*host.lines.borrow(), vec!["没有未暂存的变更".to_string()]);
    let empty = WorkflowBuilder::new()
        .with_git(FakeGit { diff: "d".into(), ..Default::default() })
        .with_ai(FakeAi(Ok("   ".into())))
        .with_search(FakeSearch)
        .with_config(config())
        .build()
        .unwrap();
    let mut ctx = PipelineContext::new(None, false);
    assert_eq!(empty.run(&mut ctx, &FakeHost::default()).err().unwrap().message(), "AI 未生成有效 commit 消息");
    assert!(ctx.git_log.is_empty());
    assert!(ctx.has_changes);
}

fn options() -> Options {
    Options {
        skill_path: String::new(),
        api_key: String::new(),
        rg_pattern: String::new(),
        fd_pattern: String::new(),
        lazygit_path: String::new(),
    }
}

#[test]
fn legacy_workflow_skips_incomplete_entries_with_plain_output() {
    let git = FakeGit { diff: "d".into(), ..Default::default() };
    let host = decoded_host(
        vec![entry("feat", "core", "m", &[], ""), entry("fix", "", "n", &[], "")],
        vec!["ok"],
    );
    let ai: Box<dyn AiProvider> = Box::new(FakeAi(Ok("{json}".into())));
    let mut ctx = PipelineContext::new(None, false);
    agc::legacy::Workflow::new()
        .run(&options(), config(), &git, &FakeSearch, Ok(ai), &mut ctx, &host)
        .unwrap();
    assert_eq!(log_text(&ctx), vec!["stage all".to_string(), "commit Feat(Core): m".to_string()]);
    assert_eq!(ctx.entries.len(), 1);
    assert_eq!(*git.calls.borrow(), vec!["add -A".to_string(), "commit Feat(Core): m".to_string()]);
    let lines = host.lines.borrow();
    assert_eq!(lines[0], "\n理由");
    assert!(lines.contains(&"warn:警告: AI 返回的 entry 缺少必要字段，已跳过".to_string()));
    assert_eq!(lines.last().unwrap(), "全部提交成功");
}

#[test]
fn legacy_workflow_reports_missing_client_after_collecting() {
    let git = FakeGit { diff: "d".into(), ..Default::default() };
    let host = FakeHost::default();
    let err = agc::legacy::Workflow::new()
        .run(
            &options(),
            config(),
            &git,
            &FakeSearch,
            Err(AgcError::Other("MESSAGE_API_KEY 未设置".into())),
            &mut PipelineContext::new(None, false),
            &host,
        )
        .err()
        .unwrap();
    assert_eq!(err.message(), "MESSAGE_API_KEY 未设置");
}

fn log_text(ctx: &PipelineContext) -> Vec<String> {
    ctx.git_log
        .iter()
        .map(|rec| {
            let call = match &rec.call {
                GitCall::StageFiles(f) => format!("stage {}", f.join(" ")),
                GitCall::StageAll => "stage all".to_string(),
                GitCall::Commit(m) => format!("commit {m}"),
                GitCall::Push(r, b) => format!("push {r} {b}"),
            };
            match &rec.result {
                Ok(()) => call,
                Err(e) => format!("{call} -> {}", e.message()),
            }
        })
        .collect()
}

#[test]
fn workflow_records_answers_and_the_failing_commit() {
    let workflow = WorkflowBuilder::new()
        .with_git(FakeGit { diff: "d".into(), refuse_commit: true, ..Default::default() })
        .with_ai(FakeAi(Ok("{json}".into())))
        .with_search(FakeSearch)
        .with_config(config())
        .build()
        .unwrap();
    let host = decoded_host(
        vec![entry("feat", "core", "m", &[], ""), entry("fix", "ui", "n", &[], "")],
        vec!["ok"],
    );
    let mut ctx = PipelineContext::new(None, false);
    let err = workflow.run(&mut ctx, &host).err().unwrap();
    assert_eq!(err.message(), "Git 操作失败: hook refused");
    assert_eq!(
        log_text(&ctx),
        vec!["stage all".to_string(), "commit Feat(Core): m -> Git 操作失败: hook refused".to_string()]
    );
    assert_eq!(ctx.answers, vec!["ok".to_string()]);
}

#[test]
fn workflow_stops_at_the_first_refused_answer() {
    let workflow = WorkflowBuilder::new()
        .with_git(FakeGit { diff: "d".into(), ..Default::default() })
        .with_ai(FakeAi(Ok("{json}".into())))
        .with_search(FakeSearch)
        .with_config(config())
        .build()
        .unwrap();
    let host = decoded_host(
        vec![entry("feat", "core", "m", &[], ""), entry("fix", "ui", "n", &[], "")],
        vec!["ok", "no"],
    );
    let mut ctx = PipelineContext::new(None, false);
    workflow.run(&mut ctx, &host).unwrap();
    assert_eq!(log_text(&ctx), vec!["stage all".to_string(), "commit Feat(Core): m".to_string()]);
    assert_eq!(ctx.answers, vec!["ok".to_string(), "no".to_string()]);
}

#[test]
fn workflow_records_the_diff_failure() {
    let workflow = WorkflowBuilder::new()
        .with_git(FakeGit { no_repo: true, ..Default::default() })
        .with_ai(FakeAi(Ok("{json}".into())))
        .with_search(FakeSearch)
        .with_config(config())
        .build()
        .unwrap();
    let mut ctx = PipelineContext::new(None, false);
    let err = workflow.run(&mut ctx, &FakeHost::default()).err().unwrap();
    assert_eq!(err.message(), "Git 操作失败: not a repository");
    assert_eq!(ctx.failure.unwrap().message(), "Git 操作失败: not a repository");
    assert!(ctx.git_log.is_empty() && ctx.answers.is_empty());
}
