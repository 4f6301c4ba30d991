//! Built-in type/scope configuration.
use vstd::prelude::*;

use crate::config::{Config, default_config, default_config_model};
use crate::model::Model;

verus! {

/// Loader of the built-in configuration.
pub struct DefaultsLoader;

impl DefaultsLoader {
    /// The built-in types, no scope.
    pub fn load(&self) -> (r: Config)
        ensures
            r.model() == default_config_model(),
    {
        default_config()
    }
}

} // verus!
