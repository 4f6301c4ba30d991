//! Configuration: type/scope lists and the AI connection, each assembled from a
//! chain of sources ordered by priority.
pub mod source;
pub mod paths;
pub mod ai;
pub mod sources;

pub use ai::{AiConfig, AiConfigLoader, FileConfig, ProviderSetting};
pub use paths::EnvVars;
pub use source::{ConfigChain, ConfigSource};
pub mod defaults;
pub mod markdown;
pub mod init;

use vstd::prelude::*;

use crate::config::source::{Preloaded, first_loaded};
use crate::config::sources::markdown::{MarkdownSource, markdown_config};
use crate::config::sources::yaml::{LazyGitConfig, YamlSource, lazygit_config};
use crate::error::AgcError;
use crate::model::{Duplicate, Model};

verus! {

/// The model of a type/scope configuration.
pub struct ConfigModel {
    pub types: Seq<Seq<char>>,
    pub scopes: Seq<Seq<char>>,
}

/// The commit types and scopes offered to the AI.
pub struct Config {
    pub types: Vec<String>,
    pub scopes: Vec<String>,
}

impl Model for Config {
    type M = ConfigModel;

    open spec fn model(&self) -> ConfigModel {
        ConfigModel { types: self.types.model(), scopes: self.scopes.model() }
    }
}

impl Duplicate for Config {
    fn duplicate(&self) -> (r: Self) {
        Config { types: self.types.duplicate(), scopes: self.scopes.duplicate() }
    }
}

impl Default for Config {
    fn default() -> (r: Self)
        ensures
            r.model().types.len() == 0,
            r.model().scopes.len() == 0,
    {
        Config { types: Vec::new(), scopes: Vec::new() }
    }
}

impl Config {
    /// Neither types nor scopes.
    pub fn is_empty(&self) -> (r: bool)
        ensures
            r == (self.types@.len() == 0 && self.scopes@.len() == 0),
    {
        self.types.len() == 0 && self.scopes.len() == 0
    }
}

/// The built-in commit types.
pub open spec fn default_type_names() -> Seq<Seq<char>> {
    seq![
        "Feat"@,
        "Fix"@,
        "Docs"@,
        "Style"@,
        "Refactor"@,
        "Perf"@,
        "Test"@,
        "Build"@,
        "CI"@,
        "Chore"@,
        "Revert"@,
    ]
}

/// The built-in configuration: the default types and no scope.
pub open spec fn default_config_model() -> ConfigModel {
    ConfigModel { types: default_type_names(), scopes: Seq::empty() }
}

/// The built-in configuration.
pub fn default_config() -> (r: Config)
    ensures
        r.model() == default_config_model(),
{
    let mut types: Vec<String> = Vec::new();
    types.push(String::from_str("Feat"));
    types.push(String::from_str("Fix"));
    types.push(String::from_str("Docs"));
    types.push(String::from_str("Style"));
    types.push(String::from_str("Refactor"));
    types.push(String::from_str("Perf"));
    types.push(String::from_str("Test"));
    types.push(String::from_str("Build"));
    types.push(String::from_str("CI"));
    types.push(String::from_str("Chore"));
    types.push(String::from_str("Revert"));
    let r = Config { types, scopes: Vec::new() };
    assert(r.model().types =~= default_type_names());
    assert(r.model().scopes =~= Seq::<Seq<char>>::empty());
    r
}

/// The application configuration (facade): every configuration domain of the
/// project in one value.
pub struct AppConfig {
    pub types: Vec<String>,
    pub scopes: Vec<String>,
    pub ai: AiConfig,
}

/// The standard type/scope chain: `.lazygit.yaml` > SKILL.md > built-in
/// defaults. The two files' configurations are given as their sources loaded
/// them.
pub fn default_chain(yaml: Option<Config>, markdown: Option<Config>) -> (c: ConfigChain<Config, Preloaded<Config>>)
    ensures
        c.loads() == seq![yaml.model(), markdown.model(), Some(default_config_model())],
{
    let ghost y = yaml.model();
    let ghost m = markdown.model();
    let mut sources: Vec<Preloaded<Config>> = Vec::new();
    sources.push(Preloaded(yaml));
    sources.push(Preloaded(markdown));
    sources.push(Preloaded(Some(default_config())));
    let c = ConfigChain::new(sources);
    assert(c.loads() =~= seq![y, m, Some(default_config_model())]);
    c
}

impl AppConfig {
    /// Types and scopes from the first source of the standard chain that has
    /// them, and the AI connection from `ai`.
    pub fn load(
        yaml: Option<Config>,
        markdown: Option<Config>,
        ai: AiConfigLoader,
        file_config: Option<FileConfig>,
        env: &EnvVars,
    ) -> (r: Result<AppConfig, AgcError>)
        ensures
            ({
                let base = crate::config::source::first_loaded(
                    seq![yaml.model(), markdown.model(), Some(default_config_model())],
                ).unwrap();
                match r {
                    Ok(a) => a.types.model() == base.types && a.scopes.model() == base.scopes
                        && crate::config::ai::build_spec(file_config.model(), ai.spec_api_key(), *env)
                        == Ok::<crate::config::ai::AiConfigModel, Seq<char>>(a.ai.model()),
                    Err(e) => e matches AgcError::Other(m) && crate::config::ai::build_spec(
                        file_config.model(),
                        ai.spec_api_key(),
                        *env,
                    ) == Err::<crate::config::ai::AiConfigModel, Seq<char>>(m@),
                }
            }),
    {
        let ghost loads = seq![yaml.model(), markdown.model(), Some(default_config_model())];
        let chain = default_chain(yaml, markdown);
        proof {
            reveal_with_fuel(crate::config::source::first_loaded, 4);
            assert(loads.drop_first().drop_first().drop_first() =~= Seq::<Option<ConfigModel>>::empty());
            assert(crate::config::source::first_loaded(loads) is Some);
        }
        let base = match chain.first() {
            Some(c) => c,
            None => Config::default(),
        };
        match ai.build(file_config, env) {
            Ok(ai) => Ok(AppConfig { types: base.types, scopes: base.scopes, ai }),
            Err(e) => Err(e),
        }
    }
}

/// What `.lazygit.yaml` gives, from its parsed content (`None` when it could
/// not be read or parsed).
pub open spec fn yaml_loaded(yaml: Option<LazyGitConfig>) -> Option<ConfigModel> {
    match yaml {
        Some(p) => lazygit_config(p.types.model(), p.scopes.model()),
        None => None,
    }
}

/// What SKILL.md gives: nothing without a path or when it could not be read.
pub open spec fn skill_loaded(path: Seq<char>, text: Option<String>) -> Option<ConfigModel> {
    if path.len() == 0 {
        None
    } else {
        match text {
            Some(d) => markdown_config(d@),
            None => None,
        }
    }
}

/// The types and scopes from the first of `.lazygit.yaml`, SKILL.md and the
/// built-in defaults that has types.
pub fn load(skill_path: &str, yaml: Option<LazyGitConfig>, skill_text: Option<String>) -> (r: (
    Vec<String>,
    Vec<String>,
))
    ensures
        ({
            let base = first_loaded(
                seq![
                    yaml_loaded(yaml),
                    skill_loaded(skill_path@, skill_text),
                    Some(default_config_model()),
                ],
            ).unwrap();
            r.0.model() == base.types && r.1.model() == base.scopes
        }),
{
    let ghost loads = seq![
        yaml_loaded(yaml),
        skill_loaded(skill_path@, skill_text),
        Some(default_config_model()),
    ];
    proof {
        reveal_with_fuel(first_loaded, 4);
        assert(loads.drop_first().drop_first().drop_first() =~= Seq::<Option<ConfigModel>>::empty());
    }
    match YamlSource::from_parsed(yaml) {
        Some(c) => return (c.types, c.scopes),
        None => {},
    }
    let md = MarkdownSource::new(skill_path);
    match md.from_text(skill_text) {
        Some(c) => return (c.types, c.scopes),
        None => {},
    }
    let d = default_config();
    (d.types, d.scopes)
}

} // verus!
