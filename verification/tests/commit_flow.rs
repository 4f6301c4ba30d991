use agc::commit::service::{
    commit_args, confirm_entry, format_message, is_confirmation, plan_commits, summary,
};
use agc::commit::{AiResponse, Entry};
use agc::legacy::{keep_valid, resolve_api_key};

fn entry(t: &str, s: &str, m: &str, files: &[&str], detail: &str) -> Entry {
    Entry {
        entry_type: t.into(),
        scope: s.into(),
        message: m.into(),
        files: files.iter().map(|f| f.to_string()).collect(),
        detail: detail.into(),
    }
}

#[test]
fn format_message_header_and_detail() {
    assert_eq!(format_message(&entry("Feat", "Git", "添加函数", &[], "")), "Feat(Git): 添加函数");
    assert_eq!(
        format_message(&entry("Fix", "UI", "修复", &[], "- a\n- b")),
        "Fix(UI): 修复\n\n- a\n- b"
    );
}

#[test]
fn commit_args_split_subject_and_body() {
    assert_eq!(commit_args("Feat(Git): x"), vec!["commit", "-m", "Feat(Git): x"]);
    assert_eq!(commit_args("Feat(Git): x\n\n- a\n\nb"), vec!["commit", "-m", "Feat(Git): x", "-m", "- a\n\nb"]);
    assert_eq!(commit_args("Feat(Git): x\n\n"), vec!["commit", "-m", "Feat(Git): x"]);
}

#[test]
fn commit_args_of_formatted_message_roundtrip() {
    let e = entry("Docs", "Readme", "更新说明", &[], "- 新增章节");
    let args = commit_args(&format_message(&e));
    assert_eq!(args, vec!["commit", "-m", "Docs(Readme): 更新说明", "-m", "- 新增章节"]);
}

#[test]
fn entry_validity_and_filtering() {
    assert!(entry("a", "b", "c", &[], "").is_valid());
    assert!(!entry("", "b", "c", &[], "").is_valid());
    assert!(!entry("a", "", "c", &[], "").is_valid());
    assert!(!entry("a", "b", "", &[], "").is_valid());
    let resp = AiResponse {
        reason: "why".into(),
        data: vec![entry("a", "b", "c", &[], ""), entry("", "b", "c", &[], ""), entry("x", "y", "z", &[], "")],
    };
    let (valid, reason) = resp.into_valid();
    assert_eq!(reason, "why");
    assert_eq!(valid.len(), 2);
    assert_eq!(valid[1].entry_type, "x");
}

#[test]
fn confirmation_accepts_only_ok() {
    assert!(is_confirmation("ok"));
    assert!(is_confirmation("  ok\n"));
    assert!(!is_confirmation("OK"));
    assert!(!is_confirmation("okay"));
    assert!(!is_confirmation(""));
}

#[test]
fn summary_lists_message_and_files() {
    let e = entry("Feat", "Core", "m", &["a.rs", "b.rs"], "");
    assert_eq!(summary(&e), vec!["\n生成的提交消息:", "Feat(Core): m", "\n关联文件:", "  a.rs", "  b.rs"]);
    assert_eq!(summary(&entry("Feat", "Core", "m", &[], "")), vec!["\n生成的提交消息:", "Feat(Core): m"]);
}

#[test]
fn plan_capitalizes_and_numbers_commits() {
    let entries = vec![entry("feat", "éclair", "m", &[], ""), entry("fix", "ui", "n", &["f"], "d")];
    let jobs = plan_commits(&entries, false);
    assert_eq!(jobs.len(), 2);
    assert_eq!(jobs[0].entry.entry_type, "Feat");
    assert_eq!(jobs[0].entry.scope, "Éclair");
    assert_eq!(jobs[0].message, "Feat(Éclair): m");
    assert_eq!(jobs[0].progress.as_deref(), Some("\n--- 提交 1/2 ---"));
    assert_eq!(jobs[1].progress.as_deref(), Some("\n--- 提交 2/2 ---"));
    assert_eq!(jobs[1].message, "Fix(Ui): n\n\nd");
    let single = plan_commits(&vec![entry("feat", "x", "m", &[], "")], true);
    assert!(single[0].progress.is_none());
    let many: Vec<Entry> = (0..12).map(|_| entry("a", "b", "c", &[], "")).collect();
    let jobs = plan_commits(&many, true);
    assert_eq!(jobs[11].progress.as_deref(), Some("\n\u{1b}[1;36m--- 提交 12/12 ---\u{1b}[0m"));
}

struct Scripted(std::cell::RefCell<Vec<String>>, std::cell::RefCell<Vec<String>>);

impl agc::ui::Host for Scripted {
    fn say(&self, line: &str) {
        self.1.borrow_mut().push(line.to_string());
    }
    fn warn(&self, line: &str) {
        self.1.borrow_mut().push(format!("warn:{line}"));
    }
    fn ask(&self, prompt: &str) -> String {
        self.1.borrow_mut().push(prompt.to_string());
        self.0.borrow_mut().remove(0)
    }
    fn begin_progress(&self, _msg: &str) {}
    fn end_progress(&self, _msg: &str) {}
    fn decode_response(&self, _text: &str) -> Option<AiResponse> {
        None
    }
}

#[test]
fn confirm_entry_shows_then_asks() {
    let host = Scripted(std::cell::RefCell::new(vec!["ok\n".into(), "no".into()]), Default::default());
    let e = entry("Feat", "Core", "m", &[], "");
    assert_eq!(confirm_entry(&e, &host), (true, "ok\n".to_string()));
    assert_eq!(confirm_entry(&e, &host), (false, "no".to_string()));
    let out = host.1.borrow();
    assert_eq!(out[0], "\n生成的提交消息:");
    assert_eq!(out[1], "Feat(Core): m");
    assert_eq!(out[2], "\n确认提交？回复 ok 执行: ");
}

#[test]
fn keep_valid_warns_for_each_incomplete_entry() {
    let host = Scripted(Default::default(), Default::default());
    let kept = keep_valid(
        &vec![entry("a", "b", "c", &[], ""), entry("a", "", "c", &[], ""), entry("", "", "", &[], "")],
        &host,
    );
    assert_eq!(kept.len(), 1);
    assert_eq!(host.1.borrow().len(), 2);
    assert_eq!(host.1.borrow()[0], "warn:警告: AI 返回的 entry 缺少必要字段，已跳过");
}

#[test]
fn api_key_resolution_order() {
    assert_eq!(resolve_api_key("cli", Some("env".into())).unwrap(), "cli");
    assert_eq!(resolve_api_key("", Some("env".into())).unwrap(), "env");
    assert_eq!(
        resolve_api_key("", None).err().unwrap().message(),
        "MESSAGE_API_KEY 未设置，可通过 --api-key 参数或 MESSAGE_API_KEY 环境变量设置"
    );
}
