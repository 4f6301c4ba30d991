//! Built-in AI defaults (the last resort of the chain, always present).
use vstd::prelude::*;

use crate::config::ai::{FileConfig, FileModel, ProviderSetting, SettingModel};
use crate::config::source::ConfigSource;
use crate::model::Model;

verus! {

pub const DEFAULT_PROVIDER: &'static str = "openai";

pub const DEFAULT_MODEL: &'static str = "deepseek-v4-flash";

/// Full chat/completions endpoint (not assembled by the code).
pub const DEFAULT_BASE_URL: &'static str = "https://api.deepseek.com/v1/chat/completions";

/// The built-in connection: provider `openai`, kind `openai`, the default model
/// and endpoint, no key.
pub open spec fn builtin_model() -> FileModel {
    FileModel {
        use_provider: Some(DEFAULT_PROVIDER@),
        providers: seq![
            SettingModel {
                name: DEFAULT_PROVIDER@,
                kind: Some(DEFAULT_PROVIDER@),
                api_key: None,
                model: Some(DEFAULT_MODEL@),
                base_url: Some(DEFAULT_BASE_URL@),
            },
        ],
        provider: None,
        api_key: None,
        model: None,
        base_url: None,
    }
}

/// Built-in default AI configuration (fallback source, always loads).
pub struct AiBuiltinSource;

impl ConfigSource<FileConfig> for AiBuiltinSource {
    open spec fn spec_load(&self) -> Option<FileModel> {
        Some(builtin_model())
    }

    fn load(&self) -> (r: Option<FileConfig>) {
        let mut providers: Vec<ProviderSetting> = Vec::new();
        providers.push(
            ProviderSetting {
                name: String::from_str(DEFAULT_PROVIDER),
                kind: Some(String::from_str(DEFAULT_PROVIDER)),
                api_key: None,
                model: Some(String::from_str(DEFAULT_MODEL)),
                base_url: Some(String::from_str(DEFAULT_BASE_URL)),
            },
        );
        let r = FileConfig {
            use_provider: Some(String::from_str(DEFAULT_PROVIDER)),
            providers,
            provider: None,
            api_key: None,
            model: None,
            base_url: None,
        };
        assert(r.providers.model() =~= builtin_model().providers);
        Some(r)
    }
}

} // verus!
