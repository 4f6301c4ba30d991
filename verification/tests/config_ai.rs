use agc::config::sources::ai_builtin::{DEFAULT_BASE_URL, DEFAULT_MODEL, DEFAULT_PROVIDER};
use agc::config::sources::ai_file::DEFAULT_CONFIG_FILE;
use agc::config::sources::{AiBuiltinSource, AiFileSource};
use agc::config::{AiConfigLoader, ConfigSource, EnvVars, FileConfig, ProviderSetting};

#[test]
fn build_missing_dir_uses_defaults() {
    // The directory does not exist, so no file content reaches the loader.
    let cfg = AiConfigLoader::new()
        .with_config_dir(Some("C:/nonexistent/agc-dir".into()))
        .build(None, &EnvVars::empty())
        .unwrap();
    assert_eq!(cfg.provider, DEFAULT_PROVIDER);
    assert_eq!(cfg.model, DEFAULT_MODEL);
    assert_eq!(cfg.base_url, DEFAULT_BASE_URL);
}

#[test]
fn load_returns_builtin_defaults() {
    let cfg: FileConfig = AiBuiltinSource.load().unwrap();
    assert_eq!(cfg.use_provider.as_deref(), Some(DEFAULT_PROVIDER));
    assert_eq!(cfg.providers.len(), 1);
    assert_eq!(cfg.providers[0].name, DEFAULT_PROVIDER);
    assert_eq!(cfg.providers[0].kind.as_deref(), Some(DEFAULT_PROVIDER));
    assert_eq!(cfg.providers[0].model.as_deref(), Some(DEFAULT_MODEL));
    assert_eq!(cfg.providers[0].base_url.as_deref(), Some(DEFAULT_BASE_URL));
    assert!(cfg.providers[0].api_key.is_none());
}

#[test]
fn load_missing_dir_returns_none() {
    let source = AiFileSource::new(Some("C:/nonexistent/agc-dir".into()), None);
    assert!(source.config_path().is_some());
    // Nothing can be read there.
    assert!(AiFileSource::from_parsed(None).is_none());
}

#[test]
fn config_path_joins_default_yaml() {
    let source = AiFileSource::new(Some("C:/custom/dir".into()), None);
    assert_eq!(
        std::path::PathBuf::from(source.config_path().unwrap()),
        std::path::Path::new("C:/custom/dir").join(DEFAULT_CONFIG_FILE)
    );
}

fn setting(name: &str, key: Option<&str>, model: Option<&str>) -> ProviderSetting {
    ProviderSetting {
        name: name.into(),
        kind: None,
        api_key: key.map(|k| k.to_string()),
        model: model.map(|m| m.to_string()),
        base_url: None,
    }
}

#[test]
fn build_selects_use_provider_and_cli_key_wins() {
    let file = FileConfig {
        use_provider: Some("deepseek".into()),
        providers: vec![setting("deepseek", Some("file-key"), Some("m1")), setting("other", Some("k2"), None)],
        provider: None,
        api_key: None,
        model: None,
        base_url: None,
    };
    let mut env = EnvVars::empty();
    env.message_api_key = Some("env-key".into());
    let cfg = AiConfigLoader::new()
        .with_api_key(Some("cli-key".into()))
        .build(Some(file), &env)
        .unwrap();
    assert_eq!(cfg.provider, "openai");
    assert_eq!(cfg.api_key.as_deref(), Some("cli-key"));
    assert_eq!(cfg.model, "m1");
    assert_eq!(cfg.base_url, DEFAULT_BASE_URL);
}

#[test]
fn build_unknown_use_provider_lists_available() {
    let file = FileConfig {
        use_provider: Some("missing".into()),
        providers: vec![setting("deepseek", None, None)],
        provider: None,
        api_key: None,
        model: None,
        base_url: None,
    };
    let err = AiConfigLoader::new().build(Some(file), &EnvVars::empty()).err().unwrap();
    let msg = err.message();
    assert!(msg.contains("use_provider 'missing' 未在 providers 中定义"));
    assert!(msg.contains("deepseek"));
}
