//! `agc init`: the AI configuration file and where it is written.
use vstd::prelude::*;

use crate::config::paths::{EnvVars, config_dir_default, config_home_spec, join_opt, path_join, path_join_spec};
use crate::error::AgcError;
use crate::model::Model;

verus! {

/// The configuration file written in the configuration directory.
pub const CONFIG_FILE: &'static str = "default.yaml";

/// The directory used when none is given and the platform has none.
pub const FALLBACK_DIR: &'static str = ".config/agc";

/// The configuration written by `init`.
pub const DEFAULT_YAML_TEMPLATE: &'static str = r#"# agc AI 配置
# use_provider 选择 providers 列表中要使用的连接配置
use_provider: deepseek
providers:
  - name: deepseek
    # kind 为协议实现类型（ProviderRegistry 注册名），默认 openai
    kind: openai
    # base_url 为完整 chat/completions 端点地址，代码不再自动拼接
    base_url: https://api.deepseek.com/v1/chat/completions
    model: deepseek-v4-flash
    # api_key 可省略，省略时回退到 MESSAGE_API_KEY 环境变量
    api_key: sk-xxx
"#;

/// The directory to initialize: the given one when not empty, else the
/// platform configuration directory, else `.config/agc`.
pub open spec fn resolve_dir_spec(path: Option<Seq<char>>, env: EnvVars) -> Seq<char> {
    match path {
        Some(p) if p.len() > 0 => p,
        _ => match join_opt(config_home_spec(env), "agc"@) {
            Some(d) => d,
            None => FALLBACK_DIR@,
        },
    }
}

/// The directory to initialize (see `resolve_dir_spec`).
pub fn resolve_dir(path: Option<String>, env: &EnvVars) -> (r: String)
    ensures
        r@ == resolve_dir_spec(path.model(), *env),
{
    match path {
        Some(p) if !p.as_str().is_empty() => p,
        _ => match config_dir_default(env) {
            Some(d) => d,
            None => String::from_str(FALLBACK_DIR),
        },
    }
}

/// `<dir>/default.yaml`.
pub fn config_file(dir: &str) -> (r: String)
    ensures
        r@ == path_join_spec(dir@, CONFIG_FILE@),
{
    path_join(dir, CONFIG_FILE)
}

/// The refusal to overwrite an existing file.
pub open spec fn exists_message(file: Seq<char>) -> Seq<char> {
    file + " 已存在，如需覆盖请添加 --force"@
}

/// Whether the file may be written: an existing file only with `force`;
/// otherwise the refusal.
pub fn check_overwrite(file: &str, present: bool, force: bool) -> (r: Result<(), AgcError>)
    ensures
        r is Ok <==> (!present || force),
        r matches Err(e) ==> (e matches AgcError::Other(m) && m@ == exists_message(file@)),
{
    if present && !force {
        let mut m = String::from_str(file);
        m.append(" 已存在，如需覆盖请添加 --force");
        Err(AgcError::Other(m))
    } else {
        Ok(())
    }
}

/// The line printed after the file is written.
pub fn created_message(file: &str) -> (r: String)
    ensures
        r@ == "已生成配置文件: "@ + file@,
{
    let mut m = String::from_str("已生成配置文件: ");
    m.append(file);
    m
}

} // verus!
