//! AI settings from `default.yaml` in the configuration directory.
use vstd::prelude::*;

use crate::config::ai::{FileConfig, FileModel, ProviderSetting, SettingModel};
use crate::config::paths::{path_join, path_join_spec};
use crate::model::{Duplicate, Model};

verus! {

pub const DEFAULT_CONFIG_FILE: &'static str = "default.yaml";

/// `default.yaml` in the configuration directory. A missing file loads nothing;
/// a file that does not parse is skipped with a warning.
pub struct AiFileSource {
    dir: Option<String>,
}

impl AiFileSource {
    pub closed spec fn spec_dir(&self) -> Option<Seq<char>> {
        self.dir.model()
    }

    /// The directory given (when not empty), else the platform default.
    pub fn new(config_dir: Option<String>, default_dir: Option<String>) -> (r: Self)
        ensures
            r.spec_dir() == (match config_dir {
                Some(d) if d@.len() > 0 => Some(d@),
                _ => default_dir.model(),
            }),
    {
        let dir = match config_dir {
            Some(d) if !d.as_str().is_empty() => Some(d),
            _ => default_dir,
        };
        AiFileSource { dir }
    }

    /// `<dir>/default.yaml`.
    pub fn config_path(&self) -> (r: Option<String>)
        ensures
            r.model() == (match self.spec_dir() {
                Some(d) => Some(path_join_spec(d, DEFAULT_CONFIG_FILE@)),
                None => None,
            }),
    {
        match &self.dir {
            Some(d) => Some(path_join(d.as_str(), DEFAULT_CONFIG_FILE)),
            None => None,
        }
    }

    /// What the source loads from the file's parsed content (`None` when the
    /// file is missing or does not parse): the content, normalized.
    pub fn from_parsed(parsed: Option<FileConfig>) -> (r: Option<FileConfig>)
        ensures
            r.model() == (match parsed.model() {
                Some(c) => Some(normalize_spec(c)),
                None => None,
            }),
    {
        match parsed {
            Some(c) => Some(normalize(c)),
            None => None,
        }
    }
}

/// Legacy flat layout: with no `providers` but a flat `provider`, one
/// connection is made of the flat fields, and `use_provider` defaults to it.
pub open spec fn normalize_spec(c: FileModel) -> FileModel {
    if c.providers.len() == 0 && c.provider is Some {
        FileModel {
            providers: seq![
                SettingModel {
                    name: c.provider.unwrap(),
                    kind: None,
                    api_key: c.api_key,
                    model: c.model,
                    base_url: c.base_url,
                },
            ],
            use_provider: if c.use_provider is None {
                c.provider
            } else {
                c.use_provider
            },
            ..c
        }
    } else {
        c
    }
}

/// Turns the legacy flat layout into a single connection.
pub fn normalize(cfg: FileConfig) -> (r: FileConfig)
    ensures
        r.model() == normalize_spec(cfg.model()),
{
    let mut cfg = cfg;
    if cfg.providers.len() == 0 {
        if let Some(name) = &cfg.provider {
            let setting = ProviderSetting {
                name: name.clone(),
                kind: None,
                api_key: cfg.api_key.duplicate(),
                model: cfg.model.duplicate(),
                base_url: cfg.base_url.duplicate(),
            };
            let ghost sm = setting.model();
            cfg.providers.push(setting);
            assert(cfg.providers.model() =~= seq![sm]);
            if cfg.use_provider.is_none() {
                cfg.use_provider = cfg.provider.duplicate();
            }
        }
    }
    cfg
}

} // verus!
