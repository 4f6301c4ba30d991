//! Built-in type/scope configuration (the fallback source, always loads).
use vstd::prelude::*;

use crate::config::{Config, ConfigModel, default_config, default_config_model};
use crate::config::source::ConfigSource;

verus! {

/// Built-in type/scope configuration.
pub struct DefaultsSource;

impl ConfigSource<Config> for DefaultsSource {
    open spec fn spec_load(&self) -> Option<ConfigModel> {
        Some(default_config_model())
    }

    fn load(&self) -> (r: Option<Config>) {
        Some(default_config())
    }
}

} // verus!
