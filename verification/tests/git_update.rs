use agc::git::project::{ScopeYaml, TypeScopeItem};
use agc::git::update::merge_scopes;
use agc::model::Duplicate;

fn item(name: &str, docs: Option<&str>) -> TypeScopeItem {
    TypeScopeItem { name: name.into(), docs: docs.map(|d| d.to_string()) }
}

#[test]
fn merge_keeps_existing_and_appends_new() {
    let existing = ScopeYaml { types: vec![], scopes: vec![item("Core", Some("旧说明"))] };
    let generated = vec![item("Core", None), item("Pipeline", Some("管线"))];
    let merged = merge_scopes(existing, generated, false);
    assert_eq!(merged.scopes.len(), 2);
    assert_eq!(merged.scopes[0].docs.as_deref(), Some("旧说明"));
    assert_eq!(merged.scopes[1].name, "Pipeline");
}

#[test]
fn merge_prune_replaces_and_keeps_docs_by_name() {
    let existing = ScopeYaml {
        types: vec![],
        scopes: vec![item("Core", Some("旧说明")), item("Old", Some("已删除"))],
    };
    let generated = vec![item("Core", None)];
    let merged = merge_scopes(existing, generated, true);
    assert_eq!(merged.scopes.len(), 1);
    assert_eq!(merged.scopes[0].name, "Core");
    assert_eq!(merged.scopes[0].docs.as_deref(), Some("旧说明"));
}

#[test]
fn merge_prune_existing_docs_win_on_clash() {
    let existing = ScopeYaml { types: vec![], scopes: vec![item("Core", Some("a"))] };
    let merged = merge_scopes(existing, vec![item("Core", Some("b")), item("Ui", Some("c"))], true);
    assert_eq!(merged.scopes.len(), 2);
    assert_eq!(merged.scopes[0].docs.as_deref(), Some("a"));
    assert_eq!(merged.scopes[1].docs.as_deref(), Some("c"));
}

fn names_docs(y: &ScopeYaml) -> Vec<(String, Option<String>)> {
    y.scopes.iter().map(|s| (s.name.clone(), s.docs.clone())).collect()
}

#[test]
fn merge_twice_changes_nothing() {
    for prune in [false, true] {
        let existing = ScopeYaml {
            types: vec![item("Feat", None)],
            scopes: vec![item("Core", Some("a")), item("Old", None)],
        };
        let generated = || vec![item("Core", Some("b")), item("Ui", None), item("Ui", Some("x"))];
        let once = merge_scopes(existing, generated(), prune);
        let again_input = ScopeYaml { types: once.types.duplicate(), scopes: once.scopes.duplicate() };
        let twice = merge_scopes(again_input, generated(), prune);
        assert_eq!(names_docs(&once), names_docs(&twice));
        assert_eq!(twice.types.len(), 1);
    }
}

use agc::git::update::{ScopeUpdate, plan_update, strip_code_fence, usable_scope_items, history_scopes_from_log};

fn written(update: ScopeUpdate) -> ScopeYaml {
    match update {
        ScopeUpdate::Write { yaml, .. } => yaml,
        ScopeUpdate::Unchanged => panic!("expected a write"),
    }
}

#[test]
fn run_impl_creates_file_when_missing() {
    let yaml = written(plan_update(None, vec![item("Src", Some("源码"))], false).unwrap());
    assert_eq!(yaml.types.len(), 5, "文件缺失时应使用默认 type 模板");
    assert_eq!(yaml.scopes[0].name, "Src");
}

#[test]
fn run_impl_appends_new_scopes() {
    let existing = ScopeYaml { types: vec![item("Feat", None)], scopes: vec![item("Core", Some("核心"))] };
    let generated = vec![item("Pipeline", Some("管线")), item("Core", Some(""))];
    let yaml = written(plan_update(Some(existing), generated, false).unwrap());
    assert_eq!(yaml.scopes.len(), 2);
    assert_eq!(yaml.scopes[0].docs.as_deref(), Some("核心"));
    assert_eq!(yaml.scopes[1].name, "Pipeline");
}

#[test]
fn run_impl_prune_removes_stale_scopes() {
    let existing = ScopeYaml { types: vec![item("Feat", None)], scopes: vec![item("Core", None), item("Stale", None)] };
    let yaml = written(plan_update(Some(existing), vec![item("Core", Some("核心"))], true).unwrap());
    assert_eq!(yaml.scopes.len(), 1);
    assert_eq!(yaml.scopes[0].name, "Core");
}

#[test]
fn run_impl_no_change_skips_write() {
    let existing = ScopeYaml { types: vec![item("Feat", None)], scopes: vec![item("Core", Some("核心"))] };
    let update = plan_update(Some(existing), vec![item("Core", Some("核心"))], false).unwrap();
    assert!(matches!(update, ScopeUpdate::Unchanged));
}

#[test]
fn run_impl_empty_llm_result_errors() {
    let err = plan_update(None, usable_scope_items(vec![]), false).err().unwrap();
    assert!(err.message().contains("未返回任何 scope"));
}

#[test]
fn parse_scopes_accepts_plain_and_fenced_json() {
    let plain = r#"{"scopes": [{"name": "Core", "docs": "核心"}]}"#;
    assert_eq!(strip_code_fence(plain), plain);
    let fenced = "```json\n{\"scopes\": [{\"name\": \"Ui\", \"docs\": \"界面\"}]}\n```";
    let cleaned = strip_code_fence(fenced);
    assert_eq!(cleaned, "{\"scopes\": [{\"name\": \"Ui\", \"docs\": \"界面\"}]}");
    let v: serde_json::Value = serde_json::from_str(&cleaned).unwrap();
    assert_eq!(v["scopes"][0]["name"], "Ui");
    assert!(serde_json::from_str::<serde_json::Value>(&strip_code_fence("not json")).is_err());
    assert_eq!(strip_code_fence("```\n[]\n```"), "[]");
}

#[test]
fn usable_scopes_drop_blank_and_repeated_names() {
    let items = vec![item("Core", Some("a")), item("  ", None), item("Ui", None), item("Core", Some("b"))];
    let kept = usable_scope_items(items);
    assert_eq!(kept.len(), 2);
    assert_eq!(kept[0].docs.as_deref(), Some("a"));
    assert_eq!(kept[1].name, "Ui");
}

#[test]
fn collect_history_scopes_parses_conventional_commits() {
    let log = "Feat(Core): a\nFix(Ui, Core): b\nchore: c\nDocs(Readme):d\nRefactor( Api ): e\n";
    assert_eq!(history_scopes_from_log(log), vec!["Core", "Ui", "Readme", "Api"]);
}
