use agc::ai::{AiProvider, ProviderRegistry, Request, ScopeRequest};
use agc::config::AiConfig;
use agc::error::AgcError;

struct MockProvider;

impl AiProvider for MockProvider {
    fn generate(&self, _req: &Request) -> Result<String, AgcError> {
        Ok("mock".into())
    }

    fn generate_scopes(&self, _req: &ScopeRequest) -> Result<String, AgcError> {
        Ok("mock".into())
    }
}

type Factory = fn(AiConfig) -> Result<Box<dyn AiProvider>, AgcError>;

fn openai_factory(_config: AiConfig) -> Result<Box<dyn AiProvider>, AgcError> {
    Err(AgcError::Other("no network in tests".into()))
}

fn mock_factory(_config: AiConfig) -> Result<Box<dyn AiProvider>, AgcError> {
    Ok(Box::new(MockProvider))
}

fn registry() -> ProviderRegistry<Factory> {
    ProviderRegistry::new(openai_factory as Factory)
}

fn config(provider: &str) -> AiConfig {
    AiConfig {
        provider: provider.into(),
        api_key: None,
        model: "m".into(),
        base_url: "u".into(),
    }
}

#[test]
fn create_dispatches_to_registered_factory() {
    let mut registry = registry();
    registry.register("mock", mock_factory as Factory);

    let provider = match registry.create("mock", config("mock")) {
        Ok(p) => p,
        Err(_) => panic!("mock provider should be created"),
    };
    assert_eq!(
        provider
            .generate(&Request {
                types: vec![],
                scopes: vec![],
                diff: String::new(),
                git_info: String::new(),
                extra_context: String::new(),
            })
            .unwrap(),
        "mock"
    );
}

#[test]
fn create_unknown_provider_errors() {
    let registry = registry();
    let result = registry.create("unknown", config("unknown"));
    assert!(result.is_err());
}

#[test]
fn default_registry_has_openai() {
    let registry = registry();
    assert!(registry.contains("openai"));
}

#[test]
fn unknown_provider_error_names_the_provider() {
    let registry = registry();
    match registry.create("anthropic", config("anthropic")) {
        Err(e) => assert_eq!(e.message(), "未知的 AI provider: anthropic"),
        Ok(_) => panic!("unknown provider must fail"),
    }
}

#[test]
fn register_replaces_existing_factory() {
    let mut registry = registry();
    registry.register("openai", mock_factory as Factory);
    assert!(registry.contains("openai"));
    assert!(registry.create("openai", config("openai")).is_ok());
    assert!(!registry.contains("mock"));
}
