//! `agc git init`: the repository and the project scope file.
use vstd::prelude::*;

use crate::text::{str_eq, trim, trim_spec};

verus! {

/// The project scope file written by `git init` (same format as
/// `.lazygit.yaml`).
pub const SCOPE_YAML_TEMPLATE: &'static str = r#"# 项目 type/scope 定义（与 .lazygit.yaml 同格式）
type:
  - name: Feat
    docs: 新特性
  - name: Fix
    docs: 修复缺陷
  - name: Docs
    docs: 文档变更
  - name: Refactor
    docs: 重构代码
  - name: Test
    docs: 测试相关
scopes:
  - name: Core
    docs: 核心逻辑
  - name: UI
    docs: 界面相关
  - name: Build
    docs: 构建脚本
"#;

/// Printed when the directory is already inside a repository.
pub const ALREADY_REPO_MESSAGE: &'static str = "当前目录已在 git 仓库中，跳过 git init";

/// Printed after `git init` succeeded.
pub const INITIALIZED_MESSAGE: &'static str = "已初始化 git 仓库";

/// The error when `git init` fails.
pub const INIT_FAILED_MESSAGE: &'static str = "git init 失败";

/// What `git rev-parse --is-inside-work-tree` says: inside a work tree when
/// it succeeded and printed `true`.
pub fn is_inside_work_tree(success: bool, stdout: &str) -> (r: bool)
    ensures
        r == (success && trim_spec(stdout@) == "true"@),
{
    if !success {
        return false;
    }
    let t = trim(stdout);
    str_eq(t.as_str(), "true")
}

/// Whether the scope file is (re)written: when it does not exist, or with
/// `force`.
pub fn should_scaffold(present: bool, force: bool) -> (r: bool)
    ensures
        r == (!present || force),
{
    !present || force
}

/// Printed when an existing scope file is kept.
pub fn kept_message(file: &str) -> (r: String)
    ensures
        r@ == file@ + " 已存在，如需覆盖请添加 --force"@,
{
    let mut m = String::from_str(file);
    m.append(" 已存在，如需覆盖请添加 --force");
    m
}

} // verus!
