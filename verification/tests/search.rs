use agc::search::fd::{dir_queries, fd_context_from, stem_queries};
use agc::search::merge_context;
use agc::search::rg::{DEFAULT_PATTERN, rg_args, rg_output};

fn files(v: &[&str]) -> Vec<String> {
    v.iter().map(|s| s.to_string()).collect()
}

#[test]
fn merge_context_sections() {
    assert_eq!(merge_context("", ""), "");
    assert_eq!(merge_context("R", ""), "---\n变更文件结构上下文:\nR");
    assert_eq!(merge_context("", "F"), "---\n关联文件上下文:\nF");
    assert_eq!(merge_context("R", "F"), "---\n变更文件结构上下文:\nR\n---\n关联文件上下文:\nF");
}

#[test]
fn rg_command_line() {
    assert!(rg_args(&[], "x").is_none());
    assert_eq!(
        rg_args(&files(&["a.rs"]), "").unwrap(),
        vec!["--line-number".to_string(), "-e".into(), DEFAULT_PATTERN.into(), "a.rs".into()]
    );
    assert_eq!(rg_args(&files(&["a", "b"]), "fn").unwrap(), vec!["--line-number", "-e", "fn", "a", "b"]);
    assert_eq!(rg_output("\n a:1:fn x \n"), "a:1:fn x");
}

#[test]
fn fd_queries_one_per_stem_and_directory() {
    let fs = files(&["src/a.rs", "tests/a.rs", "src/b.rs", "README"]);
    let q = stem_queries(&fs);
    assert_eq!(q.len(), 3);
    assert_eq!(q[0].file, "src/a.rs");
    assert_eq!(q[0].glob, "**/a.*");
    assert_eq!(q[1].glob, "**/b.*");
    assert_eq!(q[2].glob, "**/README.*");
    assert_eq!(dir_queries(&fs), vec!["src", "tests", ""]);
}

#[test]
fn fd_context_assembles_sections() {
    let fs = files(&["src/a.rs"]);
    let ctx = fd_context_from(
        &fs,
        Some("  x.rs\n".into()),
        &vec![Some("src/a.rs\nlib/a.h\n".into())],
        &vec![Some("src/a.rs\nsrc/b.rs\n".into())],
    );
    assert_eq!(
        ctx,
        "自定义搜索结果:\nx.rs\nsrc/a.rs 的关联文件:\nlib/a.h\nsrc/ 目录文件:\n  src/a.rs\n  src/b.rs"
    );
    assert_eq!(fd_context_from(&[], None, &vec![], &vec![]), "");
    assert_eq!(fd_context_from(&fs, None, &vec![Some("src/a.rs\n".into())], &vec![None]), "");
}

#[test]
fn fd_context_truncates_long_output() {
    let fs = files(&["d/f"]);
    let listing: String = (0..600).map(|i| format!("d/{i}\n")).collect();
    let ctx = fd_context_from(&fs, None, &vec![None], &vec![Some(listing)]);
    let lines: Vec<&str> = ctx.lines().collect();
    assert_eq!(lines.len(), 501);
    assert_eq!(lines[500], "... (已截断)");
}
