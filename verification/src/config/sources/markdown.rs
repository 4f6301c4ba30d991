//! Commit types from the markdown tables of a SKILL.md file.
use vstd::prelude::*;

use crate::config::{Config, ConfigModel};
use crate::model::Model;
use crate::text::{
    TYPE_CELL_PATTERN,
    capitalize,
    capitalize_spec,
    keep_nonempty,
    regex_all_group1,
    regex_captures_all,
    trim,
    trim_spec,
    views,
};

verus! {

/// The type names in a markdown text: every back-quoted table cell, trimmed and
/// capitalized, the empty ones dropped.
pub open spec fn markdown_type_names(data: Seq<char>) -> Seq<Seq<char>> {
    keep_nonempty(
        regex_all_group1(TYPE_CELL_PATTERN@, data).map_values(
            |c: Seq<char>| capitalize_spec(trim_spec(c)),
        ),
    )
}

/// What a markdown source loads from a text: the types found, no scope;
/// nothing when no type is found.
pub open spec fn markdown_config(data: Seq<char>) -> Option<ConfigModel> {
    if markdown_type_names(data).len() == 0 {
        None
    } else {
        Some(ConfigModel { types: markdown_type_names(data), scopes: Seq::empty() })
    }
}

/// Extracts the type configuration from a SKILL.md text.
pub fn types_from_markdown(data: &str) -> (r: Option<Config>)
    ensures
        r.model() == markdown_config(data@),
{
    let cells = regex_captures_all(TYPE_CELL_PATTERN, data);
    let ghost mapped = regex_all_group1(TYPE_CELL_PATTERN@, data@).map_values(
        |c: Seq<char>| capitalize_spec(trim_spec(c)),
    );
    let n = cells.len();
    let mut types: Vec<String> = Vec::new();
    let mut i: usize = 0;
    assert(mapped.take(0) =~= Seq::<Seq<char>>::empty());
    while i < n
        invariant
            i <= n == cells@.len(),
            views(cells@) == regex_all_group1(TYPE_CELL_PATTERN@, data@),
            mapped == regex_all_group1(TYPE_CELL_PATTERN@, data@).map_values(
                |c: Seq<char>| capitalize_spec(trim_spec(c)),
            ),
            views(types@) == keep_nonempty(mapped.take(i as int)),
        decreases n - i,
    {
        let t = trim(cells[i].as_str());
        let c = capitalize(t.as_str());
        assert(views(cells@)[i as int] == cells@[i as int]@);
        assert(mapped[i as int] == c@);
        assert(mapped.take(i + 1).drop_last() =~= mapped.take(i as int));
        if !c.as_str().is_empty() {
            let ghost before = types@;
            types.push(c);
            assert(views(types@) =~= views(before).push(c@));
        }
        i = i + 1;
    }
    assert(mapped.take(n as int) =~= mapped);
    if types.len() == 0 {
        return None;
    }
    let r = Config { types, scopes: Vec::new() };
    assert(r.model().scopes =~= Seq::<Seq<char>>::empty());
    assert(r.model().types =~= views(r.types@));
    Some(r)
}

/// Loads types from the markdown tables of a SKILL.md file.
pub struct MarkdownSource {
    path: String,
}

impl MarkdownSource {
    pub closed spec fn spec_path(&self) -> Seq<char> {
        self.path@
    }

    pub fn new(path: &str) -> (r: Self)
        ensures
            r.spec_path() == path@,
    {
        MarkdownSource { path: String::from_str(path) }
    }

    /// The file to read.
    pub fn path(&self) -> (r: String)
        ensures
            r@ == self.spec_path(),
    {
        self.path.clone()
    }

    /// What the source loads: nothing when no path is configured or the file
    /// cannot be read (`data` is `None`), else the types found in the text.
    pub fn from_text(&self, data: Option<String>) -> (r: Option<Config>)
        ensures
            r.model() == (if self.spec_path().len() == 0 {
                None
            } else {
                match data {
                    Some(d) => markdown_config(d@),
                    None => None,
                }
            }),
    {
        if self.path.as_str().is_empty() {
            return None;
        }
        match data {
            Some(d) => types_from_markdown(d.as_str()),
            None => None,
        }
    }
}

} // verus!
