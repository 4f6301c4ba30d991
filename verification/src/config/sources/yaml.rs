//! Types and scopes from a `.lazygit.yaml` file.
use vstd::prelude::*;

use crate::config::{Config, ConfigModel};
use crate::model::{Duplicate, Model};

verus! {

/// The parts of `.lazygit.yaml` the library reads: the names under `type`
/// and `scopes`.
pub struct LazyGitConfig {
    pub types: Option<Vec<String>>,
    pub scopes: Option<Vec<String>>,
}

/// A missing list read as an empty one.
pub open spec fn or_empty(v: Option<Seq<Seq<char>>>) -> Seq<Seq<char>> {
    match v {
        Some(s) => s,
        None => Seq::empty(),
    }
}

/// What a YAML source loads from a parsed file: its types and scopes, nothing
/// when it lists no type.
pub open spec fn lazygit_config(types: Option<Seq<Seq<char>>>, scopes: Option<Seq<Seq<char>>>) -> Option<ConfigModel> {
    if or_empty(types).len() == 0 {
        None
    } else {
        Some(ConfigModel { types: or_empty(types), scopes: or_empty(scopes) })
    }
}

/// Law: a file that lists at least one type gives a configuration whose types
/// are exactly the names under `type` and whose scopes are exactly the names
/// under `scopes` (all of them, in order; none when the key is absent); a file
/// that lists no type gives nothing.
pub proof fn law_yaml_lists_taken_whole(types: Option<Seq<Seq<char>>>, scopes: Option<Seq<Seq<char>>>)
    ensures
        (types matches Some(t) && t.len() > 0) ==> (lazygit_config(types, scopes) matches Some(c) && c.types
            == types->0 && c.types.len() == types->0.len() && (scopes matches Some(s) ==> c.scopes == s
            && c.scopes.len() == s.len() && forall|i: int|
            0 <= i < s.len() ==> #[trigger] c.scopes[i] == s[i]) && (scopes is None ==> c.scopes.len()
            == 0)),
        !(types matches Some(t) && t.len() > 0) ==> lazygit_config(types, scopes) is None,
{
}

/// Loads types and scopes from `.lazygit.yaml`.
pub struct YamlSource {
    path: String,
}

impl YamlSource {
    pub closed spec fn spec_path(&self) -> Seq<char> {
        self.path@
    }

    /// The given path, `.lazygit.yaml` when it is empty.
    pub fn new(path: &str) -> (r: Self)
        ensures
            r.spec_path() == (if path@.len() == 0 {
                ".lazygit.yaml"@
            } else {
                path@
            }),
    {
        YamlSource {
            path: if path.is_empty() {
                String::from_str(".lazygit.yaml")
            } else {
                String::from_str(path)
            },
        }
    }

    /// The file to read.
    pub fn path(&self) -> (r: String)
        ensures
            r@ == self.spec_path(),
    {
        self.path.clone()
    }

    /// What the source loads from the parsed file (`None` when it cannot be
    /// read or parsed).
    pub fn from_parsed(parsed: Option<LazyGitConfig>) -> (r: Option<Config>)
        ensures
            r.model() == (match parsed {
                Some(p) => lazygit_config(p.types.model(), p.scopes.model()),
                None => None,
            }),
    {
        match parsed {
            None => None,
            Some(p) => {
                let types = match p.types {
                    Some(t) => t,
                    None => Vec::new(),
                };
                let scopes = match p.scopes {
                    Some(s) => s,
                    None => Vec::new(),
                };
                if types.len() == 0 {
                    return None;
                }
                let r = Config { types, scopes };
                assert(r.model().scopes =~= or_empty(p.scopes.model()));
                Some(r)
            },
        }
    }
}

} // verus!
