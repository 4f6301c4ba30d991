//! AI settings from environment variables (legacy names): a single connection
//! named by `AI_PROVIDER` (default `openai`).
use vstd::prelude::*;

use crate::config::ai::{FileConfig, FileModel, ProviderSetting, SettingModel};
use crate::config::paths::EnvVars;
use crate::config::source::ConfigSource;
use crate::model::{Duplicate, Model};

verus! {

/// What the environment source loads: nothing when none of `MESSAGE_API_KEY`,
/// `AI_PROVIDER`, `OPENAI_MODEL`, `OPENAI_BASE_URL` is set; else one connection
/// named by `AI_PROVIDER` (default `openai`) selected by `AI_PROVIDER`.
pub open spec fn env_load(env: EnvVars) -> Option<FileModel> {
    if env.message_api_key is None && env.ai_provider is None && env.openai_model is None
        && env.openai_base_url is None {
        None
    } else {
        Some(
            FileModel {
                use_provider: env.ai_provider.model(),
                providers: seq![
                    SettingModel {
                        name: match env.ai_provider {
                            Some(p) => p@,
                            None => "openai"@,
                        },
                        kind: None,
                        api_key: env.message_api_key.model(),
                        model: env.openai_model.model(),
                        base_url: env.openai_base_url.model(),
                    },
                ],
                provider: None,
                api_key: None,
                model: None,
                base_url: None,
            },
        )
    }
}

/// Environment AI source; holds the variables' values as read by the caller.
pub struct AiEnvSource {
    api_key: Option<String>,
    provider: Option<String>,
    model: Option<String>,
    base_url: Option<String>,
}

impl AiEnvSource {
    /// The source over `MESSAGE_API_KEY`, `AI_PROVIDER`, `OPENAI_MODEL` and
    /// `OPENAI_BASE_URL` of `env`.
    pub fn new(env: &EnvVars) -> (r: Self)
        ensures
            r.spec_load() == env_load(*env),
    {
        AiEnvSource {
            api_key: env.message_api_key.duplicate(),
            provider: env.ai_provider.duplicate(),
            model: env.openai_model.duplicate(),
            base_url: env.openai_base_url.duplicate(),
        }
    }
}

impl ConfigSource<FileConfig> for AiEnvSource {
    closed spec fn spec_load(&self) -> Option<FileModel> {
        if self.api_key is None && self.provider is None && self.model is None && self.base_url is None {
            None
        } else {
            Some(
                FileModel {
                    use_provider: self.provider.model(),
                    providers: seq![
                        SettingModel {
                            name: match self.provider {
                                Some(p) => p@,
                                None => "openai"@,
                            },
                            kind: None,
                            api_key: self.api_key.model(),
                            model: self.model.model(),
                            base_url: self.base_url.model(),
                        },
                    ],
                    provider: None,
                    api_key: None,
                    model: None,
                    base_url: None,
                },
            )
        }
    }

    fn load(&self) -> (r: Option<FileConfig>) {
        if self.api_key.is_none() && self.provider.is_none() && self.model.is_none()
            && self.base_url.is_none() {
            return None;
        }
        let name = match &self.provider {
            Some(p) => p.clone(),
            None => String::from_str("openai"),
        };
        let mut providers: Vec<ProviderSetting> = Vec::new();
        providers.push(
            ProviderSetting {
                name,
                kind: None,
                api_key: self.api_key.duplicate(),
                model: self.model.duplicate(),
                base_url: self.base_url.duplicate(),
            },
        );
        let r = FileConfig {
            use_provider: self.provider.duplicate(),
            providers,
            provider: None,
            api_key: None,
            model: None,
            base_url: None,
        };
        assert(r.providers.model() =~= self.spec_load().unwrap().providers);
        Some(r)
    }
}

} // verus!
