use agc::ai::prompt::PromptBuilder;
use agc::ai::{Request, ScopeRequest};

#[test]
fn build_system_contains_types_and_scopes() {
    let prompt = PromptBuilder::build_system(&["Feat".into()], &["Git".into()]);
    assert!(prompt.contains("- Feat\n"));
    assert!(prompt.contains("- Git\n"));
}

#[test]
fn build_system_empty_scopes_uses_general_hint() {
    let prompt = PromptBuilder::build_system(&["Feat".into()], &[]);
    assert!(prompt.contains("- General"));
}

#[test]
fn build_user_contains_git_info_diff_and_context() {
    let req = Request {
        types: vec![],
        scopes: vec![],
        diff: "diff-content".into(),
        git_info: "status-content".into(),
        extra_context: "context-content".into(),
    };
    let prompt = PromptBuilder::build_user(&req);
    assert!(prompt.contains("diff-content"));
    assert!(prompt.contains("status-content"));
    assert!(prompt.contains("context-content"));
}

#[test]
fn build_user_exact_layout() {
    let req = Request {
        types: vec![],
        scopes: vec![],
        diff: "D".into(),
        git_info: "G".into(),
        extra_context: "X".into(),
    };
    assert_eq!(
        PromptBuilder::build_user(&req),
        "请根据以下 git 信息生成 commit 消息:\n\n--- 工作区状态 ---\nG\n\n--- 完整 diff ---\nD\n\n--- 变更上下文 ---\nX"
    );
    let bare = Request {
        types: vec![],
        scopes: vec![],
        diff: "D".into(),
        git_info: String::new(),
        extra_context: String::new(),
    };
    assert_eq!(
        PromptBuilder::build_user(&bare),
        "请根据以下 git 信息生成 commit 消息:\n\n--- 完整 diff ---\nD"
    );
}

#[test]
fn build_scope_user_sections_and_empty_hint() {
    let req = ScopeRequest {
        dirs: vec!["src".into(), "src/ai".into()],
        history_scopes: vec!["Core".into()],
        existing_yaml: "scopes: []\n".into(),
    };
    assert_eq!(
        PromptBuilder::build_scope_user(&req),
        "--- 项目目录结构 ---\nsrc\nsrc/ai\n\n--- git 历史中已使用的 scope ---\nCore\n\n--- 现有 .git-style-scope.yaml 内容（保留其中条目，不要改名） ---\nscopes: []\n"
    );
    let empty = ScopeRequest { dirs: vec![], history_scopes: vec![], existing_yaml: String::new() };
    assert_eq!(
        PromptBuilder::build_scope_user(&empty),
        "（无输入，请根据常见项目结构生成合理的 scope 列表）"
    );
}

#[test]
fn build_scope_system_is_the_scope_instructions() {
    let s = PromptBuilder::build_scope_system();
    assert!(s.starts_with("你是一个项目结构分析助手。"));
    assert!(s.ends_with("只返回 JSON 对象，不要 markdown 代码块、不要额外说明"));
}

#[test]
fn legacy_prompt_lists_without_general_hint() {
    let p = agc::legacy::build_legacy_system(&["Feat".into()], &[]);
    assert!(p.contains("可用的 Type:\n- Feat\n"));
    assert!(!p.contains("- General"));
    assert!(p.contains("输出格式: 始终返回 JSON 对象，包含以下字段:"));
    assert_eq!(
        agc::legacy::legacy_endpoint("https://api.deepseek.com//"),
        "https://api.deepseek.com/v1/chat/completions"
    );
    assert_eq!(
        agc::ai::openai::endpoint_url("https://x/v1/chat/completions/"),
        "https://x/v1/chat/completions"
    );
}
