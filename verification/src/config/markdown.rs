//! Commit types from a SKILL.md file (loader form).
use vstd::prelude::*;

use crate::config::Config;
use crate::config::sources::markdown::{markdown_config, types_from_markdown};
use crate::model::Model;

verus! {

/// Loads the types of a SKILL.md file.
pub struct MarkdownLoader {
    path: String,
}

impl MarkdownLoader {
    pub closed spec fn spec_path(&self) -> Seq<char> {
        self.path@
    }

    pub fn new(path: &str) -> (r: Self)
        ensures
            r.spec_path() == path@,
    {
        MarkdownLoader { path: String::from_str(path) }
    }

    /// The file to read.
    pub fn path(&self) -> (r: String)
        ensures
            r@ == self.spec_path(),
    {
        self.path.clone()
    }

    /// The configuration found in the file's text (`None` when the path is
    /// empty or the file cannot be read).
    pub fn load(&self, data: Option<String>) -> (r: Option<Config>)
        ensures
            r.model() == (if self.spec_path().len() == 0 {
                None
            } else {
                match data {
                    Some(d) => markdown_config(d@),
                    None => None,
                }
            }),
    {
        if self.path.as_str().is_empty() {
            return None;
        }
        match data {
            Some(d) => types_from_markdown(d.as_str()),
            None => None,
        }
    }
}

} // verus!
