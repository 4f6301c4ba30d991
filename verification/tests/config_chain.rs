use agc::config::sources::ai_builtin::{DEFAULT_BASE_URL, DEFAULT_MODEL};
use agc::config::sources::{AiEnvSource, AiFileSource};
use agc::config::sources::yaml::LazyGitConfig;
use agc::config::{AiConfigLoader, ConfigSource, EnvVars, FileConfig, ProviderSetting};

fn setting(name: &str) -> ProviderSetting {
    ProviderSetting { name: name.into(), kind: None, api_key: None, model: None, base_url: None }
}

fn file(use_provider: Option<&str>, providers: Vec<ProviderSetting>) -> FileConfig {
    FileConfig {
        use_provider: use_provider.map(|s| s.to_string()),
        providers,
        provider: None,
        api_key: None,
        model: None,
        base_url: None,
    }
}

/// What the file source loads for a parsed `default.yaml`.
fn loaded(parsed: FileConfig) -> Option<FileConfig> {
    AiFileSource::from_parsed(Some(parsed))
}

#[test]
fn build_selects_provider_by_use_provider() {
    let mut deepseek = setting("deepseek");
    deepseek.base_url = Some("https://api.deepseek.com/v1/chat/completions".into());
    deepseek.model = Some("deepseek-v4-flash".into());
    deepseek.api_key = Some("file-key".into());
    let mut other = setting("opencode-go");
    other.base_url = Some("https://opencode.ai/zen/go/v1/chat/completions".into());
    other.model = Some("deepseek-v4-flash".into());
    other.api_key = Some("other-key".into());
    let cfg = AiConfigLoader::new()
        .build(loaded(file(Some("deepseek"), vec![deepseek, other])), &EnvVars::empty())
        .unwrap();
    assert_eq!(cfg.provider, "openai");
    assert_eq!(cfg.api_key.as_deref(), Some("file-key"));
    assert_eq!(cfg.model, "deepseek-v4-flash");
    assert_eq!(cfg.base_url, "https://api.deepseek.com/v1/chat/completions");
}

#[test]
fn build_uses_kind_as_provider_impl() {
    let mut custom = setting("custom");
    custom.kind = Some("anthropic".into());
    custom.base_url = Some("https://example.com/v1".into());
    let cfg = AiConfigLoader::new()
        .build(loaded(file(Some("custom"), vec![custom])), &EnvVars::empty())
        .unwrap();
    assert_eq!(cfg.provider, "anthropic");
}

#[test]
fn build_cli_api_key_overrides_selected() {
    let mut deepseek = setting("deepseek");
    deepseek.api_key = Some("file-key".into());
    let cfg = AiConfigLoader::new()
        .with_api_key(Some("cli-key".into()))
        .build(loaded(file(Some("deepseek"), vec![deepseek])), &EnvVars::empty())
        .unwrap();
    assert_eq!(cfg.api_key.as_deref(), Some("cli-key"));
}

#[test]
fn build_unknown_use_provider_errors() {
    let err = AiConfigLoader::new()
        .build(loaded(file(Some("ghost"), vec![setting("deepseek")])), &EnvVars::empty())
        .err()
        .unwrap();
    assert!(err.message().contains("ghost"));
    assert!(err.message().contains("deepseek"));
}

#[test]
fn build_legacy_flat_config_normalized() {
    let mut flat = file(None, vec![]);
    flat.provider = Some("openai".into());
    flat.api_key = Some("flat-key".into());
    let cfg = AiConfigLoader::new().build(loaded(flat), &EnvVars::empty()).unwrap();
    assert_eq!(cfg.api_key.as_deref(), Some("flat-key"));
}

#[test]
fn build_falls_back_to_env_and_defaults() {
    let mut env = EnvVars::empty();
    env.message_api_key = Some("env-key".into());
    env.ai_provider = Some("env-provider".into());
    // The configuration directory exists but holds no default.yaml.
    let cfg = AiConfigLoader::new().build(AiFileSource::from_parsed(None), &env).unwrap();
    assert_eq!(cfg.api_key.as_deref(), Some("env-key"));
    assert_eq!(cfg.provider, "openai");
    assert_eq!(cfg.model, DEFAULT_MODEL);
    assert_eq!(cfg.base_url, DEFAULT_BASE_URL);
}

#[test]
fn file_use_provider_wins_over_environment() {
    let mut env = EnvVars::empty();
    env.ai_provider = Some("env-provider".into());
    env.openai_model = Some("env-model".into());
    let mut deepseek = setting("deepseek");
    deepseek.model = Some("file-model".into());
    let cfg = AiConfigLoader::new()
        .build(loaded(file(Some("deepseek"), vec![deepseek])), &env)
        .unwrap();
    assert_eq!(cfg.model, "file-model");
    // Without a file `use_provider`, the environment's selection applies.
    let cfg = AiConfigLoader::new().build(loaded(file(None, vec![setting("deepseek")])), &env).unwrap();
    assert_eq!(cfg.model, "env-model");
}

#[test]
fn same_named_settings_layer_field_by_field() {
    // The file names the environment's connection and sets only its model:
    // the key comes from the environment, the model from the file.
    let mut env = EnvVars::empty();
    env.message_api_key = Some("env-key".into());
    env.openai_model = Some("env-model".into());
    let mut openai = setting("openai");
    openai.model = Some("file-model".into());
    let cfg = AiConfigLoader::new().build(loaded(file(None, vec![openai])), &env).unwrap();
    assert_eq!(cfg.provider, "openai");
    assert_eq!(cfg.model, "file-model");
    assert_eq!(cfg.api_key.as_deref(), Some("env-key"));
    assert_eq!(cfg.base_url, DEFAULT_BASE_URL);
}

#[test]
fn load_reads_env_vars() {
    let mut env = EnvVars::empty();
    env.message_api_key = Some("env-key".into());
    env.ai_provider = Some("env-provider".into());
    let cfg: FileConfig = AiEnvSource::new(&env).load().unwrap();
    assert_eq!(cfg.providers.len(), 1);
    assert_eq!(cfg.providers[0].name, "env-provider");
    assert_eq!(cfg.providers[0].api_key.as_deref(), Some("env-key"));
    assert!(cfg.providers[0].model.is_none());
}

#[test]
fn load_default_provider_name_is_openai() {
    let mut env = EnvVars::empty();
    env.message_api_key = Some("env-key".into());
    let cfg: FileConfig = AiEnvSource::new(&env).load().unwrap();
    assert_eq!(cfg.providers[0].name, "openai");
}

#[test]
fn load_no_env_returns_none() {
    let cfg: Option<FileConfig> = AiEnvSource::new(&EnvVars::empty()).load();
    assert!(cfg.is_none());
}

#[test]
fn load_reads_providers_list() {
    let mut deepseek = setting("deepseek");
    deepseek.api_key = Some("file-key".into());
    let cfg = loaded(file(Some("deepseek"), vec![deepseek])).unwrap();
    assert_eq!(cfg.use_provider.as_deref(), Some("deepseek"));
    assert_eq!(cfg.providers.len(), 1);
    assert_eq!(cfg.providers[0].name, "deepseek");
    assert_eq!(cfg.providers[0].api_key.as_deref(), Some("file-key"));
}

#[test]
fn load_normalizes_legacy_flat_structure() {
    let mut flat = file(None, vec![]);
    flat.provider = Some("custom".into());
    flat.api_key = Some("file-key".into());
    let cfg = loaded(flat).unwrap();
    assert_eq!(cfg.providers.len(), 1);
    assert_eq!(cfg.providers[0].name, "custom");
    assert_eq!(cfg.providers[0].api_key.as_deref(), Some("file-key"));
    assert_eq!(cfg.use_provider.as_deref(), Some("custom"));
}

#[test]
fn type_lists_come_from_first_source_that_has_types() {
    let yaml = LazyGitConfig { types: Some(vec!["Feat".into()]), scopes: Some(vec!["Core".into()]) };
    let (types, scopes) = agc::config::load("", Some(yaml), None);
    assert_eq!(types, vec!["Feat"]);
    assert_eq!(scopes, vec!["Core"]);
    let no_types = LazyGitConfig { types: Some(vec![]), scopes: Some(vec!["Core".into()]) };
    let skill = "| 类型 | 说明 |\n| `feat` | 新特性 |\n| ` fix ` | 修复 |\n".to_string();
    let (types, scopes) = agc::config::load("SKILL.md", Some(no_types), Some(skill.clone()));
    assert_eq!(types, vec!["Feat", "Fix"]);
    assert!(scopes.is_empty());
    // Without a SKILL.md path its text is not used.
    let (types, _) = agc::config::load("", None, Some(skill));
    assert_eq!(types.len(), 11);
    assert_eq!(types[0], "Feat");
    assert_eq!(types[10], "Revert");
}
