//! Default configuration and data directories (XDG layout), computed from a
//! snapshot of the environment.
use vstd::prelude::*;

use crate::model::Model;
use crate::text::{ends_with_spec, starts_with_spec, strip_prefix};

verus! {

/// The environment variables the library consults, read once by the caller.
pub struct EnvVars {
    /// The platform is not a Unix one (the directories then come from
    /// `USERPROFILE` and `APPDATA`).
    pub windows: bool,
    pub xdg_config_home: Option<String>,
    pub xdg_data_home: Option<String>,
    pub home: Option<String>,
    pub userprofile: Option<String>,
    pub appdata: Option<String>,
    pub message_api_key: Option<String>,
    pub ai_provider: Option<String>,
    pub openai_model: Option<String>,
    pub openai_base_url: Option<String>,
}

impl EnvVars {
    /// An environment where none of the variables is set.
    pub fn empty() -> (r: EnvVars)
        ensures
            !r.windows,
            r.xdg_config_home is None,
            r.xdg_data_home is None,
            r.home is None,
            r.userprofile is None,
            r.appdata is None,
            r.message_api_key is None,
            r.ai_provider is None,
            r.openai_model is None,
            r.openai_base_url is None,
    {
        EnvVars {
            windows: false,
            xdg_config_home: None,
            xdg_data_home: None,
            home: None,
            userprofile: None,
            appdata: None,
            message_api_key: None,
            ai_provider: None,
            openai_model: None,
            openai_base_url: None,
        }
    }
}

/// `Path::join` on `/`-separated paths: an absolute `rel` replaces `base`,
/// otherwise one separator stands between them.
pub open spec fn path_join_spec(base: Seq<char>, rel: Seq<char>) -> Seq<char> {
    if starts_with_spec(rel, "/"@) || base.len() == 0 {
        rel
    } else if ends_with_spec(base, "/"@) {
        base + rel
    } else {
        base + "/"@ + rel
    }
}

/// Joins `rel` onto `base` as `Path::join` does on `/`-separated paths.
pub fn path_join(base: &str, rel: &str) -> (r: String)
    ensures
        r@ == path_join_spec(base@, rel@),
{
    if strip_prefix(rel, "/").is_some() || base.is_empty() {
        return String::from_str(rel);
    }
    let mut r = String::from_str(base);
    if crate::text::strip_suffix(base, "/").is_none() {
        r.append("/");
    }
    r.append(rel);
    r
}

/// A variable's value when it is set and not empty.
pub open spec fn non_empty(v: Option<String>) -> Option<Seq<char>> {
    match v {
        Some(s) => if s@.len() > 0 { Some(s@) } else { None },
        None => None,
    }
}

/// `$XDG_CONFIG_HOME`, or `$HOME/.config`; off Unix, `$XDG_CONFIG_HOME`,
/// `%USERPROFILE%/.config`, or `%APPDATA%`.
pub open spec fn config_home_spec(env: EnvVars) -> Option<Seq<char>> {
    match non_empty(env.xdg_config_home) {
        Some(x) => Some(x),
        None => if !env.windows {
            match non_empty(env.home) {
                Some(h) => Some(path_join_spec(h, ".config"@)),
                None => None,
            }
        } else {
            match non_empty(env.userprofile) {
                Some(h) => Some(path_join_spec(h, ".config"@)),
                None => non_empty(env.appdata),
            }
        },
    }
}

/// `$XDG_DATA_HOME`, or `$HOME/.local/share`; off Unix, `%APPDATA%`.
pub open spec fn data_home_spec(env: EnvVars) -> Option<Seq<char>> {
    if env.windows {
        non_empty(env.appdata)
    } else {
        match non_empty(env.xdg_data_home) {
            Some(x) => Some(x),
            None => match non_empty(env.home) {
                Some(h) => Some(path_join_spec(path_join_spec(h, ".local"@), "share"@)),
                None => None,
            },
        }
    }
}

/// `rel` joined onto a directory that may be missing.
pub open spec fn join_opt(dir: Option<Seq<char>>, rel: Seq<char>) -> Option<Seq<char>> {
    match dir {
        Some(d) => Some(path_join_spec(d, rel)),
        None => None,
    }
}

fn non_empty_value(v: &Option<String>) -> (r: Option<String>)
    ensures
        r.model() == non_empty(*v),
{
    match v {
        Some(s) => if s.as_str().is_empty() {
            None
        } else {
            Some(s.clone())
        },
        None => None,
    }
}

/// The platform configuration directory: `$XDG_CONFIG_HOME/agc` or
/// `~/.config/agc` (see `config_home_spec` off Unix).
pub fn config_dir_default(env: &EnvVars) -> (r: Option<String>)
    ensures
        r.model() == join_opt(config_home_spec(*env), "agc"@),
{
    let home = match non_empty_value(&env.xdg_config_home) {
        Some(x) => x,
        None => if !env.windows {
            match non_empty_value(&env.home) {
                Some(h) => path_join(h.as_str(), ".config"),
                None => return None,
            }
        } else {
            match non_empty_value(&env.userprofile) {
                Some(h) => path_join(h.as_str(), ".config"),
                None => match non_empty_value(&env.appdata) {
                    Some(a) => a,
                    None => return None,
                },
            }
        },
    };
    Some(path_join(home.as_str(), "agc"))
}

/// The platform data directory: `$XDG_DATA_HOME/agc` or `~/.local/share/agc`
/// (`%APPDATA%/agc` off Unix).
pub fn data_dir_default(env: &EnvVars) -> (r: Option<String>)
    ensures
        r.model() == join_opt(data_home_spec(*env), "agc"@),
{
    if env.windows {
        return match non_empty_value(&env.appdata) {
            Some(a) => Some(path_join(a.as_str(), "agc")),
            None => None,
        };
    }
    let home = match non_empty_value(&env.xdg_data_home) {
        Some(x) => x,
        None => match non_empty_value(&env.home) {
            Some(h) => {
                let local = path_join(h.as_str(), ".local");
                path_join(local.as_str(), "share")
            },
            None => return None,
        },
    };
    Some(path_join(home.as_str(), "agc"))
}

} // verus!
