//! The project's type/scope file, `.project/.git-style-scope.yaml`.
use vstd::prelude::*;

use crate::config::paths::{path_join, path_join_spec};
use crate::model::{Duplicate, Model};
use crate::text::views;

verus! {

pub const PROJECT_DIR: &'static str = ".project";

pub const SCOPE_FILE: &'static str = ".git-style-scope.yaml";

/// The comment line written at the top of the file.
pub const FILE_HEADER: &'static str = "# 项目 type/scope 定义（与 .lazygit.yaml 同格式）\n";

/// The model of a named entry with optional documentation.
pub struct ItemModel {
    pub name: Seq<char>,
    pub docs: Option<Seq<char>>,
}

/// A type or scope with its description.
pub struct TypeScopeItem {
    pub name: String,
    pub docs: Option<String>,
}

impl Model for TypeScopeItem {
    type M = ItemModel;

    open spec fn model(&self) -> ItemModel {
        ItemModel { name: self.name@, docs: self.docs.model() }
    }
}

impl Duplicate for TypeScopeItem {
    fn duplicate(&self) -> (r: Self) {
        TypeScopeItem { name: self.name.clone(), docs: self.docs.duplicate() }
    }
}

/// The model of the scope file.
pub struct ScopeYamlModel {
    pub types: Seq<ItemModel>,
    pub scopes: Seq<ItemModel>,
}

/// The content of the scope file.
pub struct ScopeYaml {
    pub types: Vec<TypeScopeItem>,
    pub scopes: Vec<TypeScopeItem>,
}

impl Model for ScopeYaml {
    type M = ScopeYamlModel;

    open spec fn model(&self) -> ScopeYamlModel {
        ScopeYamlModel { types: self.types.model(), scopes: self.scopes.model() }
    }
}

impl Duplicate for ScopeYaml {
    fn duplicate(&self) -> (r: Self) {
        ScopeYaml { types: self.types.duplicate(), scopes: self.scopes.duplicate() }
    }
}

/// `<base>/.project/.git-style-scope.yaml`.
pub fn scope_file(base: &str) -> (r: String)
    ensures
        r@ == path_join_spec(path_join_spec(base@, PROJECT_DIR@), SCOPE_FILE@),
{
    let dir = path_join(base, PROJECT_DIR);
    path_join(dir.as_str(), SCOPE_FILE)
}

/// Where the scope file is looked for, in priority order: `.project/` under
/// the base, the base itself, then the home directory (when known).
pub open spec fn scope_candidates_spec(base: Seq<char>, home: Option<Seq<char>>) -> Seq<Seq<char>> {
    let local = seq![
        path_join_spec(path_join_spec(base, PROJECT_DIR@), SCOPE_FILE@),
        path_join_spec(base, SCOPE_FILE@),
    ];
    match home {
        Some(h) => local.push(path_join_spec(h, SCOPE_FILE@)),
        None => local,
    }
}

/// The places the scope file is read from, in priority order (it is always
/// written to the first).
pub fn scope_candidates(base: &str, home: Option<String>) -> (r: Vec<String>)
    ensures
        views(r@) == scope_candidates_spec(base@, home.model()),
{
    let mut r: Vec<String> = Vec::new();
    r.push(scope_file(base));
    r.push(path_join(base, SCOPE_FILE));
    match home {
        Some(h) => {
            r.push(path_join(h.as_str(), SCOPE_FILE));
        },
        None => {},
    }
    assert(views(r@) =~= scope_candidates_spec(base@, home.model()));
    r
}

/// The default types (same as the `git init` template), used when the file
/// is created.
pub open spec fn default_type_items() -> Seq<ItemModel> {
    seq![
        ItemModel { name: "Feat"@, docs: Some("新特性"@) },
        ItemModel { name: "Fix"@, docs: Some("修复缺陷"@) },
        ItemModel { name: "Docs"@, docs: Some("文档变更"@) },
        ItemModel { name: "Refactor"@, docs: Some("重构代码"@) },
        ItemModel { name: "Test"@, docs: Some("测试相关"@) },
    ]
}

fn item(name: &str, docs: &str) -> (r: TypeScopeItem)
    ensures
        r.model() == (ItemModel { name: name@, docs: Some(docs@) }),
{
    TypeScopeItem { name: String::from_str(name), docs: Some(String::from_str(docs)) }
}

/// The default types.
pub fn default_types() -> (r: Vec<TypeScopeItem>)
    ensures
        r.model() == default_type_items(),
{
    let mut r: Vec<TypeScopeItem> = Vec::new();
    r.push(item("Feat", "新特性"));
    r.push(item("Fix", "修复缺陷"));
    r.push(item("Docs", "文档变更"));
    r.push(item("Refactor", "重构代码"));
    r.push(item("Test", "测试相关"));
    assert(r.model() =~= default_type_items());
    r
}

} // verus!
