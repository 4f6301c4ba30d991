use agc::git::dirs::{is_skipped_dir, sort_unique, text_lt};
use agc::git::init::{is_inside_work_tree, kept_message, should_scaffold};
use agc::git::project::{ScopeYaml, TypeScopeItem, scope_candidates, scope_file};
use agc::git::update::{ScopeUpdate, plan_update, report};
use agc::git::{UntrackedFile, exceeds_limit, is_binary, untracked_report};

fn item(name: &str, docs: Option<&str>) -> TypeScopeItem {
    TypeScopeItem { name: name.into(), docs: docs.map(|d| d.to_string()) }
}

#[test]
fn skipped_dirs_are_hidden_or_noise() {
    for name in [".git", ".idea", "node_modules", "target", "dist", "vendor", "out"] {
        assert!(is_skipped_dir(name), "{name}");
    }
    for name in ["src", "output", "targets", "docs"] {
        assert!(!is_skipped_dir(name), "{name}");
    }
}

#[test]
fn sort_unique_orders_like_string_sort() {
    let dirs: Vec<String> = ["src/b", "src", "docs", "src/a", "src", "Zeta", "é"].iter().map(|s| s.to_string()).collect();
    let mut expected = dirs.clone();
    expected.sort();
    expected.dedup();
    assert_eq!(sort_unique(dirs), expected);
    assert!(text_lt("src", "src/a"));
    assert!(!text_lt("src/a", "src"));
    assert!(!text_lt("a", "a"));
    assert!(text_lt("Z", "a"));
}

#[test]
fn untracked_report_per_kind() {
    let files = vec![
        ("big.bin".to_string(), UntrackedFile::TooLarge),
        ("gone".to_string(), UntrackedFile::Unreadable),
        ("img.png".to_string(), UntrackedFile::Binary),
        ("new.txt".to_string(), UntrackedFile::Text("hello".into())),
    ];
    assert_eq!(
        untracked_report(&files),
        "--- 未跟踪文件 (超过100KB，已跳过): big.bin ---\n--- 未跟踪文件 (二进制): img.png ---\n--- 未跟踪文件: new.txt ---\nhello\n"
    );
    assert!(exceeds_limit(102401));
    assert!(!exceeds_limit(102400));
    assert!(is_binary(&[1, 0, 2]));
    assert!(!is_binary(b"text"));
}

#[test]
fn work_tree_detection_and_scaffold_decision() {
    assert!(is_inside_work_tree(true, "true\n"));
    assert!(!is_inside_work_tree(true, "false\n"));
    assert!(!is_inside_work_tree(false, "true"));
    assert!(should_scaffold(false, false));
    assert!(should_scaffold(true, true));
    assert!(!should_scaffold(true, false));
    assert_eq!(kept_message("f.yaml"), "f.yaml 已存在，如需覆盖请添加 --force");
}

#[test]
fn scope_file_and_lookup_order() {
    assert_eq!(scope_file("/repo"), "/repo/.project/.git-style-scope.yaml");
    assert_eq!(
        scope_candidates("/repo", Some("/home/u".into())),
        vec![
            "/repo/.project/.git-style-scope.yaml",
            "/repo/.git-style-scope.yaml",
            "/home/u/.git-style-scope.yaml"
        ]
    );
    assert_eq!(scope_candidates("/repo", None).len(), 2);
}

#[test]
fn update_plan_and_report() {
    let existing = ScopeYaml { types: vec![], scopes: vec![item("Core", Some("核心")), item("Old", None)] };
    assert_eq!(plan_update(None, vec![], false).err().unwrap().message(), "LLM 未返回任何 scope");
    let same = plan_update(
        Some(ScopeYaml { types: vec![], scopes: vec![item("Core", Some("核心"))] }),
        vec![item("Core", None)],
        false,
    )
    .unwrap();
    assert!(matches!(same, ScopeUpdate::Unchanged));
    assert_eq!(report(&same), vec!["scope 已是最新，无需更新"]);
    let pruned = plan_update(Some(existing), vec![item("Core", None), item("Api", Some("接口"))], true).unwrap();
    match &pruned {
        ScopeUpdate::Write { yaml, added, removed } => {
            assert_eq!(yaml.scopes.len(), 2);
            assert_eq!(yaml.scopes[0].docs.as_deref(), Some("核心"));
            assert_eq!(added, &vec!["Api".to_string()]);
            assert_eq!(removed, &vec!["Old".to_string()]);
        }
        ScopeUpdate::Unchanged => panic!("expected a write"),
    }
    assert_eq!(
        report(&pruned),
        vec!["已更新 .project/.git-style-scope.yaml", "新增 scope: Api", "移除 scope: Old"]
    );
    let created = plan_update(None, vec![item("Core", None)], false).unwrap();
    match created {
        ScopeUpdate::Write { yaml, .. } => {
            assert_eq!(yaml.types.len(), 5);
            assert_eq!(yaml.types[0].name, "Feat");
        }
        ScopeUpdate::Unchanged => panic!("expected a write"),
    }
}
