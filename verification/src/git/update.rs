//! Updating the project's scope list from the model's proposal: reading the
//! proposal, merging it into the existing file, and deciding what to write.
use vstd::prelude::*;

use crate::error::AgcError;
use crate::git::project::{ItemModel, ScopeYaml, ScopeYamlModel, TypeScopeItem, default_type_items, default_types};
use crate::model::{Duplicate, Model};
use crate::text::{
    HISTORY_SCOPE_PATTERN,
    ends_with_spec,
    join,
    join_spec,
    lines,
    lines_spec,
    regex_captures_first,
    regex_first_group1,
    split_on,
    split_spec,
    starts_with_spec,
    strip_prefix,
    strip_suffix,
    trim,
    trim_spec,
    views,
};

verus! {

/// Directories sent to the model at most (the rest is cut, to bound the prompt).
pub const MAX_DIRS_INPUT: usize = 200;

/// Some entry of `s` is named `n`.
pub open spec fn has_name(s: Seq<ItemModel>, n: Seq<char>) -> bool {
    exists|k: int| 0 <= k < s.len() && (#[trigger] s[k]).name == n
}

/// The docs of the last entry named `n` that has docs.
pub open spec fn existing_doc(s: Seq<ItemModel>, n: Seq<char>) -> Option<Seq<char>>
    decreases s.len(),
{
    if s.len() == 0 {
        None
    } else if s.last().name == n && s.last().docs is Some {
        s.last().docs
    } else {
        existing_doc(s.drop_last(), n)
    }
}

/// A generated entry keeps the docs of the existing entry of the same name
/// when that entry has docs; otherwise its own.
pub open spec fn fill_doc(g: ItemModel, existing: Seq<ItemModel>) -> ItemModel {
    if existing_doc(existing, g.name) is Some {
        ItemModel { name: g.name, docs: existing_doc(existing, g.name) }
    } else {
        g
    }
}

/// `acc` followed by the entries of `gen` whose name is not there yet, in
/// order.
pub open spec fn append_new(acc: Seq<ItemModel>, gen: Seq<ItemModel>) -> Seq<ItemModel>
    decreases gen.len(),
{
    if gen.len() == 0 {
        acc
    } else {
        let r = append_new(acc, gen.drop_last());
        if has_name(r, gen.last().name) {
            r
        } else {
            r.push(gen.last())
        }
    }
}

/// The generated entries with their docs filled from the existing ones.
pub open spec fn filled(gen: Seq<ItemModel>, existing: Seq<ItemModel>) -> Seq<ItemModel> {
    gen.map_values(|g: ItemModel| fill_doc(g, existing))
}

/// Merge of the existing file and the model's entries: by default the existing
/// scopes stay and new names are appended; with `prune` the generated list is
/// taken (first of each name), keeping the existing docs by name. The types
/// stay.
pub open spec fn merge_scopes_spec(existing: ScopeYamlModel, gen: Seq<ItemModel>, prune: bool) -> ScopeYamlModel {
    ScopeYamlModel {
        types: existing.types,
        scopes: if prune {
            append_new(Seq::empty(), filled(gen, existing.scopes))
        } else {
            append_new(existing.scopes, gen)
        },
    }
}

/// Whether an entry of `v` is named `name`.
pub fn has_name_in(v: &Vec<TypeScopeItem>, name: &String) -> (r: bool)
    ensures
        r == has_name(v.model(), name@),
{
    let n = v.len();
    let mut i: usize = 0;
    while i < n
        invariant
            i <= n == v@.len(),
            forall|k: int| 0 <= k < i ==> (#[trigger] v.model()[k]).name != name@,
        decreases n - i,
    {
        assert(v.model()[i as int] == v@[i as int].model());
        if v[i].name == *name {
            return true;
        }
        i = i + 1;
    }
    false
}

/// The docs of the last entry named `name` that has docs.
pub fn doc_of(v: &Vec<TypeScopeItem>, name: &String) -> (r: Option<String>)
    ensures
        r.model() == existing_doc(v.model(), name@),
{
    let n = v.len();
    let mut found: Option<String> = None;
    let mut i: usize = 0;
    assert(v.model().take(0) =~= Seq::<ItemModel>::empty());
    while i < n
        invariant
            i <= n == v@.len(),
            found.model() == existing_doc(v.model().take(i as int), name@),
        decreases n - i,
    {
        assert(v.model().take(i + 1).drop_last() =~= v.model().take(i as int));
        assert(v.model()[i as int] == v@[i as int].model());
        if v[i].name == *name && v[i].docs.is_some() {
            found = v[i].docs.duplicate();
        }
        i = i + 1;
    }
    assert(v.model().take(n as int) =~= v.model());
    found
}

/// Merges the existing file with the model's entries (see `merge_scopes_spec`).
pub fn merge_scopes(existing: ScopeYaml, generated: Vec<TypeScopeItem>, prune: bool) -> (r: ScopeYaml)
    ensures
        r.model() == merge_scopes_spec(existing.model(), generated.model(), prune),
{
    let ghost gen = if prune {
        filled(generated.model(), existing.scopes.model())
    } else {
        generated.model()
    };
    let ghost start = if prune {
        Seq::<ItemModel>::empty()
    } else {
        existing.scopes.model()
    };
    let mut merged: Vec<TypeScopeItem> = if prune {
        Vec::new()
    } else {
        existing.scopes.duplicate()
    };
    assert(merged.model() =~= start);
    let n = generated.len();
    let mut i: usize = 0;
    assert(gen.take(0) =~= Seq::<ItemModel>::empty());
    while i < n
        invariant
            i <= n == generated@.len(),
            gen.len() == n,
            gen == (if prune {
                filled(generated.model(), existing.scopes.model())
            } else {
                generated.model()
            }),
            merged.model() == append_new(start, gen.take(i as int)),
        decreases n - i,
    {
        let mut g = generated[i].duplicate();
        assert(generated.model()[i as int] == generated@[i as int].model());
        if prune {
            let d = doc_of(&existing.scopes, &g.name);
            if d.is_some() {
                g.docs = d;
            }
        }
        assert(gen[i as int] == g.model());
        assert(gen.take(i + 1).drop_last() =~= gen.take(i as int));
        if !has_name_in(&merged, &g.name) {
            let ghost before = merged.model();
            let ghost gm = g.model();
            merged.push(g);
            assert(merged.model() =~= before.push(gm));
        }
        i = i + 1;
    }
    assert(gen.take(n as int) =~= gen);
    ScopeYaml { types: existing.types, scopes: merged }
}

/// Whether two files list the same scopes (names and docs) in the same order.
pub fn scopes_equal(a: &ScopeYaml, b: &ScopeYaml) -> (r: bool)
    ensures
        r == (a.scopes.model() == b.scopes.model()),
{
    let n = a.scopes.len();
    if n != b.scopes.len() {
        assert(a.scopes.model().len() != b.scopes.model().len());
        return false;
    }
    let mut i: usize = 0;
    while i < n
        invariant
            i <= n == a.scopes@.len() == b.scopes@.len(),
            forall|k: int| 0 <= k < i ==> a.scopes.model()[k] == b.scopes.model()[k],
        decreases n - i,
    {
        let x = &a.scopes[i];
        let y = &b.scopes[i];
        assert(a.scopes.model()[i as int] == x.model());
        assert(b.scopes.model()[i as int] == y.model());
        let same_docs = match (&x.docs, &y.docs) {
            (Some(dx), Some(dy)) => *dx == *dy,
            (None, None) => true,
            _ => false,
        };
        if !(x.name == y.name && same_docs) {
            return false;
        }
        i = i + 1;
    }
    assert(a.scopes.model() =~= b.scopes.model());
    true
}

/// The entries whose name is not blank.
pub open spec fn keep_named(s: Seq<ItemModel>) -> Seq<ItemModel>
    decreases s.len(),
{
    if s.len() == 0 {
        s
    } else if trim_spec(s.last().name).len() == 0 {
        keep_named(s.drop_last())
    } else {
        keep_named(s.drop_last()).push(s.last())
    }
}

/// The model's scopes as used: blank names dropped, the first of each name
/// kept.
pub open spec fn usable_scopes(s: Seq<ItemModel>) -> Seq<ItemModel> {
    append_new(Seq::empty(), keep_named(s))
}

/// Drops blank names and repeated names from the model's scope list.
pub fn usable_scope_items(items: Vec<TypeScopeItem>) -> (r: Vec<TypeScopeItem>)
    ensures
        r.model() == usable_scopes(items.model()),
{
    let n = items.len();
    let mut out: Vec<TypeScopeItem> = Vec::new();
    let mut i: usize = 0;
    assert(items.model().take(0) =~= Seq::<ItemModel>::empty());
    assert(out.model() =~= Seq::<ItemModel>::empty());
    while i < n
        invariant
            i <= n == items@.len(),
            out.model() == append_new(Seq::empty(), keep_named(items.model().take(i as int))),
        decreases n - i,
    {
        assert(items.model().take(i + 1).drop_last() =~= items.model().take(i as int));
        assert(items.model()[i as int] == items@[i as int].model());
        let t = trim(items[i].name.as_str());
        let ghost pre = items.model().take(i as int);
        let ghost cur = items.model().take(i + 1);
        assert(cur.last() == items@[i as int].model());
        if !t.as_str().is_empty() {
            assert(keep_named(cur) == keep_named(pre).push(items@[i as int].model()));
            assert(keep_named(cur).drop_last() =~= keep_named(pre));
            if !has_name_in(&out, &items[i].name) {
                let g = items[i].duplicate();
                let ghost before = out.model();
                out.push(g);
                assert(out.model() =~= before.push(g.model()));
            }
        } else {
            assert(keep_named(cur) == keep_named(pre));
        }
        i = i + 1;
    }
    assert(items.model().take(n as int) =~= items.model());
    out
}

/// The model's answer without a markdown code fence around it: trimmed; when
/// it starts with ```` ```json ```` (or ```` ``` ````) and ends with ```` ``` ````,
/// the trimmed inside.
pub open spec fn unfenced(raw: Seq<char>) -> Seq<char> {
    let t = trim_spec(raw);
    let inner = if starts_with_spec(t, "```json"@) {
        Some(t.skip("```json"@.len() as int))
    } else if starts_with_spec(t, "```"@) {
        Some(t.skip("```"@.len() as int))
    } else {
        None
    };
    match inner {
        Some(x) => if ends_with_spec(x, "```"@) {
            trim_spec(x.take(x.len() - "```"@.len()))
        } else {
            t
        },
        None => t,
    }
}

/// Removes a markdown code fence around the model's JSON answer.
pub fn strip_code_fence(raw: &str) -> (r: String)
    ensures
        r@ == unfenced(raw@),
{
    let t = trim(raw);
    let inner = match strip_prefix(t.as_str(), "```json") {
        Some(x) => Some(x),
        None => strip_prefix(t.as_str(), "```"),
    };
    match inner {
        Some(x) => match strip_suffix(x.as_str(), "```") {
            Some(y) => trim(y.as_str()),
            None => t,
        },
        None => t,
    }
}

/// The scopes named in one history subject: the text inside `type(...)`,
/// split at commas and trimmed.
pub open spec fn subject_scopes(line: Seq<char>) -> Seq<Seq<char>> {
    match regex_first_group1(HISTORY_SCOPE_PATTERN@, line) {
        Some(c) => split_spec(c, ',').map_values(|p: Seq<char>| trim_spec(p)),
        None => Seq::empty(),
    }
}

/// The scopes named in a sequence of subjects, in order.
pub open spec fn all_subject_scopes(lines: Seq<Seq<char>>) -> Seq<Seq<char>>
    decreases lines.len(),
{
    if lines.len() == 0 {
        Seq::empty()
    } else {
        all_subject_scopes(lines.drop_last()) + subject_scopes(lines.last())
    }
}

/// The non-empty texts, first occurrence of each kept, in order.
pub open spec fn distinct_nonempty(s: Seq<Seq<char>>) -> Seq<Seq<char>>
    decreases s.len(),
{
    if s.len() == 0 {
        s
    } else {
        let r = distinct_nonempty(s.drop_last());
        if s.last().len() == 0 || r.contains(s.last()) {
            r
        } else {
            r.push(s.last())
        }
    }
}

/// The scopes used in a `git log --format=%s` output: every
/// `type(scope, ...):` subject's scopes, once each, in order of appearance.
pub open spec fn history_scopes_spec(log: Seq<char>) -> Seq<Seq<char>> {
    distinct_nonempty(all_subject_scopes(lines_spec(log)))
}

fn contains_text(v: &Vec<String>, s: &String) -> (r: bool)
    ensures
        r == views(v@).contains(s@),
{
    let n = v.len();
    let mut i: usize = 0;
    while i < n
        invariant
            i <= n == v@.len(),
            forall|k: int| 0 <= k < i ==> views(v@)[k] != s@,
        decreases n - i,
    {
        if v[i] == *s {
            assert(views(v@)[i as int] == s@);
            return true;
        }
        i = i + 1;
    }
    false
}

/// Extracts the scopes used in the commit history from `git log --format=%s`.
pub fn history_scopes_from_log(log: &str) -> (r: Vec<String>)
    ensures
        views(r@) == history_scopes_spec(log@),
{
    let ls = lines(log);
    let ghost l = lines_spec(log@);
    let n = ls.len();
    let mut out: Vec<String> = Vec::new();
    let mut i: usize = 0;
    assert(l.take(0) =~= Seq::<Seq<char>>::empty());
    assert(views(out@) =~= Seq::<Seq<char>>::empty());
    while i < n
        invariant
            i <= n == ls@.len(),
            l == views(ls@),
            views(out@) == distinct_nonempty(all_subject_scopes(l.take(i as int))),
        decreases n - i,
    {
        let ghost line = l[i as int];
        assert(line == ls@[i as int]@);
        assert(l.take(i + 1).drop_last() =~= l.take(i as int));
        let ghost prefix = all_subject_scopes(l.take(i as int));
        let ghost pieces = subject_scopes(line);
        assert(all_subject_scopes(l.take(i + 1)) == prefix + pieces);
        match regex_captures_first(HISTORY_SCOPE_PATTERN, ls[i].as_str()) {
            None => {
                assert(pieces =~= Seq::<Seq<char>>::empty());
                assert(prefix + pieces =~= prefix);
            },
            Some(c) => {
                let parts = split_on(c.as_str(), ',');
                let m = parts.len();
                let mut j: usize = 0;
                assert(pieces.len() == m);
                assert(prefix + pieces.take(0) =~= prefix);
                while j < m
                    invariant
                        j <= m == parts@.len() == pieces.len(),
                        pieces == split_spec(c@, ',').map_values(|p: Seq<char>| trim_spec(p)),
                        views(parts@) == split_spec(c@, ','),
                        views(out@) == distinct_nonempty(prefix + pieces.take(j as int)),
                    decreases m - j,
                {
                    let p = trim(parts[j].as_str());
                    assert(views(parts@)[j as int] == parts@[j as int]@);
                    assert(pieces[j as int] == p@);
                    assert((prefix + pieces.take(j + 1)).drop_last() =~= prefix + pieces.take(j as int));
                    assert((prefix + pieces.take(j + 1)).last() == p@);
                    if !p.as_str().is_empty() && !contains_text(&out, &p) {
                        let ghost before = out@;
                        out.push(p);
                        assert(views(out@) =~= views(before).push(p@));
                    }
                    j = j + 1;
                }
                assert(pieces.take(m as int) =~= pieces);
            },
        }
        i = i + 1;
    }
    assert(l.take(n as int) =~= l);
    out
}

/// At most `MAX_DIRS_INPUT` directories, and whether some were cut.
pub fn limit_dirs(dirs: Vec<String>) -> (r: (Vec<String>, bool))
    ensures
        r.1 == (dirs@.len() > MAX_DIRS_INPUT),
        r.0@ == (if r.1 {
            dirs@.take(MAX_DIRS_INPUT as int)
        } else {
            dirs@
        }),
{
    let mut dirs = dirs;
    let truncated = dirs.len() > MAX_DIRS_INPUT;
    if truncated {
        dirs.truncate(MAX_DIRS_INPUT);
    }
    (dirs, truncated)
}

/// What an update does to the scope file.
pub enum ScopeUpdate {
    /// The scopes are already current; nothing is written.
    Unchanged,
    /// The file to write, with the names added and removed.
    Write { yaml: ScopeYaml, added: Vec<String>, removed: Vec<String> },
}

/// The names of the entries of `s` that `other` does not name, in order.
pub open spec fn names_missing_from(s: Seq<ItemModel>, other: Seq<ItemModel>) -> Seq<Seq<char>>
    decreases s.len(),
{
    if s.len() == 0 {
        Seq::empty()
    } else if has_name(other, s.last().name) {
        names_missing_from(s.drop_last(), other)
    } else {
        names_missing_from(s.drop_last(), other).push(s.last().name)
    }
}

fn names_missing(s: &Vec<TypeScopeItem>, other: &Vec<TypeScopeItem>) -> (r: Vec<String>)
    ensures
        views(r@) == names_missing_from(s.model(), other.model()),
{
    let n = s.len();
    let mut out: Vec<String> = Vec::new();
    let mut i: usize = 0;
    assert(s.model().take(0) =~= Seq::<ItemModel>::empty());
    assert(views(out@) =~= Seq::<Seq<char>>::empty());
    while i < n
        invariant
            i <= n == s@.len(),
            views(out@) == names_missing_from(s.model().take(i as int), other.model()),
        decreases n - i,
    {
        assert(s.model().take(i + 1).drop_last() =~= s.model().take(i as int));
        assert(s.model()[i as int] == s@[i as int].model());
        if !has_name_in(other, &s[i].name) {
            let nm = s[i].name.clone();
            let ghost before = out@;
            out.push(nm);
            assert(views(out@) =~= views(before).push(nm@));
        }
        i = i + 1;
    }
    assert(s.model().take(n as int) =~= s.model());
    out
}

/// The file the update starts from: the existing one, or the default types
/// and no scope.
pub open spec fn base_file(existing: Option<ScopeYamlModel>) -> ScopeYamlModel {
    match existing {
        Some(e) => e,
        None => ScopeYamlModel { types: default_type_items(), scopes: Seq::empty() },
    }
}

/// The message when the model proposes no scope.
pub const NO_SCOPES_MESSAGE: &'static str = "LLM 未返回任何 scope";

/// Decides the update of the scope file from the existing file (if any) and
/// the model's usable scopes: an error when there is none; nothing to do when
/// the merged scopes equal the existing ones; else the file to write and the
/// names added and removed.
pub fn plan_update(existing: Option<ScopeYaml>, generated: Vec<TypeScopeItem>, prune: bool) -> (r: Result<ScopeUpdate, AgcError>)
    ensures
        generated@.len() == 0 <==> (r matches Err(AgcError::Other(m)) && m@ == NO_SCOPES_MESSAGE@),
        generated@.len() > 0 ==> ({
            let base = base_file(existing.model());
            let fin = merge_scopes_spec(base, generated.model(), prune);
            match r {
                Ok(ScopeUpdate::Unchanged) => fin.scopes == base.scopes,
                Ok(ScopeUpdate::Write { yaml, added, removed }) => fin.scopes != base.scopes
                    && yaml.model() == fin
                    && views(added@) == names_missing_from(fin.scopes, base.scopes)
                    && views(removed@) == names_missing_from(base.scopes, fin.scopes),
                Err(_) => false,
            }
        }),
{
    if generated.len() == 0 {
        return Err(AgcError::Other(String::from_str(NO_SCOPES_MESSAGE)));
    }
    let base = match existing {
        Some(e) => e,
        None => {
            let b = ScopeYaml { types: default_types(), scopes: Vec::new() };
            assert(b.scopes.model() =~= Seq::<ItemModel>::empty());
            b
        },
    };
    let fin = merge_scopes(base.duplicate(), generated, prune);
    if scopes_equal(&base, &fin) {
        return Ok(ScopeUpdate::Unchanged);
    }
    let removed = names_missing(&base.scopes, &fin.scopes);
    let added = names_missing(&fin.scopes, &base.scopes);
    Ok(ScopeUpdate::Write { yaml: fin, added, removed })
}

/// Printed when the directory list was cut.
pub const TRUNCATED_NOTE: &'static str = "(目录数量超过 200 个，已截断后提交 LLM)";

/// Printed when the scopes are already current.
pub const UP_TO_DATE_MESSAGE: &'static str = "scope 已是最新，无需更新";

/// Printed after the file was written.
pub const UPDATED_MESSAGE: &'static str = "已更新 .project/.git-style-scope.yaml";

/// `label` and the names joined with `, `, when there are names.
pub open spec fn names_line(label: Seq<char>, names: Seq<Seq<char>>) -> Seq<Seq<char>> {
    if names.len() == 0 {
        Seq::empty()
    } else {
        seq![label + join_spec(names, ", "@)]
    }
}

/// The lines reported after an update (the file is written before the
/// `Write` lines are shown).
pub open spec fn report_spec(update: ScopeUpdate) -> Seq<Seq<char>> {
    match update {
        ScopeUpdate::Unchanged => seq![UP_TO_DATE_MESSAGE@],
        ScopeUpdate::Write { yaml, added, removed } => seq![UPDATED_MESSAGE@] + names_line(
            "新增 scope: "@,
            views(added@),
        ) + names_line("移除 scope: "@, views(removed@)),
    }
}

fn push_names_line(out: &mut Vec<String>, label: &str, names: &Vec<String>)
    ensures
        views(final(out)@) == views(old(out)@) + names_line(label@, views(names@)),
{
    if names.len() > 0 {
        let mut line = String::from_str(label);
        line.append(join(names, ", ").as_str());
        let ghost before = views(out@);
        out.push(line);
        assert(views(out@) =~= before + names_line(label@, views(names@)));
    } else {
        assert(views(out@) =~= views(old(out)@) + names_line(label@, views(names@)));
    }
}

/// The lines reported after an update.
pub fn report(update: &ScopeUpdate) -> (r: Vec<String>)
    ensures
        views(r@) == report_spec(*update),
{
    let mut r: Vec<String> = Vec::new();
    match update {
        ScopeUpdate::Unchanged => {
            r.push(String::from_str(UP_TO_DATE_MESSAGE));
            assert(views(r@) =~= report_spec(*update));
        },
        ScopeUpdate::Write { yaml, added, removed } => {
            r.push(String::from_str(UPDATED_MESSAGE));
            assert(views(r@) =~= seq![UPDATED_MESSAGE@]);
            push_names_line(&mut r, "新增 scope: ", added);
            push_names_line(&mut r, "移除 scope: ", removed);
        },
    }
    r
}

/// Names in `s` are pairwise distinct.
pub open spec fn names_distinct(s: Seq<ItemModel>) -> bool {
    forall|i: int, j: int| 0 <= i < j < s.len() ==> (#[trigger] s[i]).name != (#[trigger] s[j]).name
}

proof fn lemma_append_new_prefix(acc: Seq<ItemModel>, gen: Seq<ItemModel>)
    ensures
        append_new(acc, gen).len() >= acc.len(),
        append_new(acc, gen).take(acc.len() as int) == acc,
    decreases gen.len(),
{
    if gen.len() > 0 {
        lemma_append_new_prefix(acc, gen.drop_last());
        let r = append_new(acc, gen.drop_last());
        if !has_name(r, gen.last().name) {
            assert(r.push(gen.last()).take(acc.len() as int) =~= r.take(acc.len() as int));
        }
    }
}

proof fn lemma_append_new_covers(acc: Seq<ItemModel>, gen: Seq<ItemModel>, n: Seq<char>)
    requires
        has_name(acc, n) || exists|k: int| 0 <= k < gen.len() && (#[trigger] gen[k]).name == n,
    ensures
        has_name(append_new(acc, gen), n),
    decreases gen.len(),
{
    if gen.len() > 0 {
        let r = append_new(acc, gen.drop_last());
        if has_name(acc, n) || exists|k: int| 0 <= k < gen.len() - 1 && (#[trigger] gen.drop_last()[k]).name == n {
            if !has_name(acc, n) {
                let k = choose|k: int| 0 <= k < gen.len() - 1 && (#[trigger] gen.drop_last()[k]).name == n;
                assert(gen.drop_last()[k] == gen[k]);
            }
            lemma_append_new_covers(acc, gen.drop_last(), n);
            if !has_name(r, gen.last().name) {
                let k = choose|k: int| 0 <= k < r.len() && (#[trigger] r[k]).name == n;
                assert(r.push(gen.last())[k] == r[k]);
            }
        } else {
            let k = choose|k: int| 0 <= k < gen.len() && (#[trigger] gen[k]).name == n;
            if k < gen.len() - 1 {
                assert(gen.drop_last()[k] == gen[k]);
            }
            assert(k == gen.len() - 1);
            if !has_name(r, gen.last().name) {
                assert(r.push(gen.last())[r.len() as int] == gen.last());
            }
        }
    }
}

proof fn lemma_append_new_from(acc: Seq<ItemModel>, gen: Seq<ItemModel>, k: int)
    requires
        acc.len() <= k < append_new(acc, gen).len(),
    ensures
        exists|j: int| 0 <= j < gen.len() && append_new(acc, gen)[k] == #[trigger] gen[j],
    decreases gen.len(),
{
    lemma_append_new_prefix(acc, gen.drop_last());
    if gen.len() > 0 {
        let r = append_new(acc, gen.drop_last());
        if k < r.len() {
            lemma_append_new_from(acc, gen.drop_last(), k);
            let j = choose|j: int| 0 <= j < gen.len() - 1 && r[k] == #[trigger] gen.drop_last()[j];
            assert(gen.drop_last()[j] == gen[j]);
            if !has_name(r, gen.last().name) {
                assert(r.push(gen.last())[k] == r[k]);
            }
        } else {
            assert(append_new(acc, gen)[k] == gen[gen.len() - 1]);
        }
    }
}

proof fn lemma_append_new_distinct(acc: Seq<ItemModel>, gen: Seq<ItemModel>)
    requires
        names_distinct(acc),
    ensures
        names_distinct(append_new(acc, gen)),
    decreases gen.len(),
{
    if gen.len() > 0 {
        lemma_append_new_distinct(acc, gen.drop_last());
        let r = append_new(acc, gen.drop_last());
        if !has_name(r, gen.last().name) {
            let s = r.push(gen.last());
            assert forall|i: int, j: int| 0 <= i < j < s.len() implies (#[trigger] s[i]).name != (#[trigger] s[j]).name by {
                if j == r.len() {
                    assert(s[i] == r[i]);
                } else {
                    assert(s[i] == r[i] && s[j] == r[j]);
                }
            }
        }
    }
}

proof fn lemma_append_new_noop(acc: Seq<ItemModel>, gen: Seq<ItemModel>)
    requires
        forall|j: int| 0 <= j < gen.len() ==> has_name(acc, (#[trigger] gen[j]).name),
    ensures
        append_new(acc, gen) == acc,
    decreases gen.len(),
{
    if gen.len() > 0 {
        assert forall|j: int| 0 <= j < gen.len() - 1 implies has_name(acc, (#[trigger] gen.drop_last()[j]).name) by {
            assert(gen.drop_last()[j] == gen[j]);
        }
        lemma_append_new_noop(acc, gen.drop_last());
        assert(has_name(acc, gen[gen.len() - 1].name));
    }
}

proof fn lemma_append_new_names(acc: Seq<ItemModel>, gen: Seq<ItemModel>, n: Seq<char>)
    requires
        has_name(append_new(acc, gen), n),
    ensures
        has_name(acc, n) || exists|k: int| 0 <= k < gen.len() && (#[trigger] gen[k]).name == n,
    decreases gen.len(),
{
    if gen.len() > 0 {
        let r = append_new(acc, gen.drop_last());
        let a = append_new(acc, gen);
        let k = choose|k: int| 0 <= k < a.len() && (#[trigger] a[k]).name == n;
        if k < r.len() {
            assert(a[k] == r[k]);
            lemma_append_new_names(acc, gen.drop_last(), n);
            if !has_name(acc, n) {
                let j = choose|j: int| 0 <= j < gen.len() - 1 && (#[trigger] gen.drop_last()[j]).name == n;
                assert(gen.drop_last()[j] == gen[j]);
            }
        } else {
            assert(a[k] == gen[gen.len() - 1]);
        }
    }
}

/// `i` is the first position of its name in `gen`.
pub open spec fn first_of_name(gen: Seq<ItemModel>, i: int) -> bool {
    &&& 0 <= i < gen.len()
    &&& forall|j: int| 0 <= j < i ==> (#[trigger] gen[j]).name != gen[i].name
}

proof fn lemma_append_new_agree(acc: Seq<ItemModel>, g1: Seq<ItemModel>, g2: Seq<ItemModel>)
    requires
        g1.len() == g2.len(),
        forall|i: int| 0 <= i < g1.len() ==> (#[trigger] g1[i]).name == g2[i].name,
        forall|i: int| #[trigger] first_of_name(g1, i) && !has_name(acc, g1[i].name) ==> g1[i] == g2[i],
    ensures
        append_new(acc, g1) == append_new(acc, g2),
    decreases g1.len(),
{
    if g1.len() > 0 {
        let d1 = g1.drop_last();
        let d2 = g2.drop_last();
        assert forall|i: int| 0 <= i < d1.len() implies (#[trigger] d1[i]).name == d2[i].name by {
            assert(d1[i] == g1[i] && d2[i] == g2[i]);
        }
        assert forall|i: int| #[trigger] first_of_name(d1, i) && !has_name(acc, d1[i].name) implies d1[i]
            == d2[i] by {
            assert(d1[i] == g1[i] && d2[i] == g2[i]);
            assert forall|j: int| 0 <= j < i implies (#[trigger] g1[j]).name != g1[i].name by {
                assert(d1[j] == g1[j]);
            }
            assert(first_of_name(g1, i));
        }
        lemma_append_new_agree(acc, d1, d2);
        let r = append_new(acc, d1);
        let last = g1.len() - 1;
        if !has_name(r, g1[last].name) {
            assert(!has_name(acc, g1[last].name)) by {
                if has_name(acc, g1[last].name) {
                    lemma_append_new_covers(acc, d1, g1[last].name);
                }
            }
            assert forall|j: int| 0 <= j < last implies (#[trigger] g1[j]).name != g1[last].name by {
                if g1[j].name == g1[last].name {
                    assert(d1[j] == g1[j]);
                    lemma_append_new_covers(acc, d1, g1[last].name);
                }
            }
            assert(first_of_name(g1, last));
        }
    }
}

proof fn lemma_append_new_keeps_first(acc: Seq<ItemModel>, gen: Seq<ItemModel>, i: int)
    requires
        first_of_name(gen, i),
        !has_name(acc, gen[i].name),
    ensures
        exists|k: int| 0 <= k < append_new(acc, gen).len() && #[trigger] append_new(acc, gen)[k] == gen[i],
    decreases gen.len(),
{
    let d = gen.drop_last();
    let r = append_new(acc, d);
    let last = gen.len() - 1;
    if i < last {
        assert(d[i] == gen[i]);
        assert forall|j: int| 0 <= j < i implies (#[trigger] d[j]).name != d[i].name by {
            assert(d[j] == gen[j]);
        }
        lemma_append_new_keeps_first(acc, d, i);
        let k = choose|k: int| 0 <= k < r.len() && #[trigger] r[k] == d[i];
        if !has_name(r, gen[last].name) {
            assert(r.push(gen[last])[k] == r[k]);
        }
        assert(append_new(acc, gen)[k] == gen[i]);
    } else {
        if has_name(r, gen[i].name) {
            lemma_append_new_names(acc, d, gen[i].name);
            let j = choose|j: int| 0 <= j < d.len() && (#[trigger] d[j]).name == gen[i].name;
            assert(d[j] == gen[j]);
        }
        assert(append_new(acc, gen)[r.len() as int] == gen[i]);
    }
}

proof fn lemma_existing_doc_unique(s: Seq<ItemModel>, k: int)
    requires
        names_distinct(s),
        0 <= k < s.len(),
    ensures
        existing_doc(s, s[k].name) == s[k].docs,
    decreases s.len(),
{
    let d = s.drop_last();
    if k < s.len() - 1 {
        assert(d[k] == s[k]);
        assert(s.last().name != s[k].name);
        assert forall|i: int, j: int| 0 <= i < j < d.len() implies (#[trigger] d[i]).name != (#[trigger] d[j]).name by {
            assert(d[i] == s[i] && d[j] == s[j]);
        }
        lemma_existing_doc_unique(d, k);
    } else if s.last().docs is None {
        lemma_existing_doc_absent(d, s[k].name);
    }
}

proof fn lemma_existing_doc_absent(s: Seq<ItemModel>, n: Seq<char>)
    requires
        forall|i: int| 0 <= i < s.len() ==> (#[trigger] s[i]).name != n,
    ensures
        existing_doc(s, n) is None,
    decreases s.len(),
{
    if s.len() > 0 {
        let d = s.drop_last();
        assert forall|i: int| 0 <= i < d.len() implies (#[trigger] d[i]).name != n by {
            assert(d[i] == s[i]);
        }
        lemma_existing_doc_absent(d, n);
    }
}

/// Law: merging the model's proposal into an already merged list again
/// changes nothing: the same types, and the same scopes (names and docs) in
/// the same order, with or without `prune`.
pub proof fn law_merge_idempotent(existing: ScopeYamlModel, gen: Seq<ItemModel>, prune: bool)
    ensures
        merge_scopes_spec(merge_scopes_spec(existing, gen, prune), gen, prune) == merge_scopes_spec(
            existing,
            gen,
            prune,
        ),
{
    let m = merge_scopes_spec(existing, gen, prune);
    if !prune {
        assert forall|j: int| 0 <= j < gen.len() implies has_name(m.scopes, (#[trigger] gen[j]).name) by {
            lemma_append_new_covers(existing.scopes, gen, gen[j].name);
        }
        lemma_append_new_noop(m.scopes, gen);
    } else {
        let f1 = filled(gen, existing.scopes);
        let r = m.scopes;
        let f2 = filled(gen, r);
        lemma_append_new_distinct(Seq::empty(), f1);
        assert forall|i: int| 0 <= i < f1.len() implies (#[trigger] f1[i]).name == f2[i].name by {}
        assert forall|i: int| #[trigger] first_of_name(f1, i) && !has_name(Seq::<ItemModel>::empty(), f1[i].name)
            implies f1[i] == f2[i] by {
            lemma_append_new_keeps_first(Seq::empty(), f1, i);
            let k = choose|k: int| 0 <= k < r.len() && #[trigger] r[k] == f1[i];
            lemma_existing_doc_unique(r, k);
            assert(existing_doc(r, gen[i].name) == f1[i].docs);
        }
        lemma_append_new_agree(Seq::empty(), f1, f2);
    }
}

/// Law: without `prune` the existing scopes stay, unchanged and first, and the
/// types stay.
pub proof fn law_merge_keeps_existing(existing: ScopeYamlModel, gen: Seq<ItemModel>)
    ensures
        merge_scopes_spec(existing, gen, false).types == existing.types,
        merge_scopes_spec(existing, gen, false).scopes.len() >= existing.scopes.len(),
        merge_scopes_spec(existing, gen, false).scopes.take(existing.scopes.len() as int)
            == existing.scopes,
{
    lemma_append_new_prefix(existing.scopes, gen);
}

/// Law: every name the model proposes is in the merged list, whether or not
/// `prune` is set; without `prune`, so is every existing name.
pub proof fn law_merge_covers_generated(existing: ScopeYamlModel, gen: Seq<ItemModel>, prune: bool, n: Seq<char>)
    requires
        (exists|k: int| 0 <= k < gen.len() && (#[trigger] gen[k]).name == n) || (!prune && has_name(
            existing.scopes,
            n,
        )),
    ensures
        has_name(merge_scopes_spec(existing, gen, prune).scopes, n),
{
    if prune {
        let f = filled(gen, existing.scopes);
        let k = choose|k: int| 0 <= k < gen.len() && (#[trigger] gen[k]).name == n;
        assert(f[k].name == n);
        lemma_append_new_covers(Seq::empty(), f, n);
    } else {
        lemma_append_new_covers(existing.scopes, gen, n);
    }
}

/// Law: each name occurs once in the merged list (given distinct existing
/// names when `prune` is not set).
pub proof fn law_merge_names_distinct(existing: ScopeYamlModel, gen: Seq<ItemModel>, prune: bool)
    requires
        !prune ==> names_distinct(existing.scopes),
    ensures
        names_distinct(merge_scopes_spec(existing, gen, prune).scopes),
{
    if prune {
        lemma_append_new_distinct(Seq::empty(), filled(gen, existing.scopes));
    } else {
        lemma_append_new_distinct(existing.scopes, gen);
    }
}

/// Law: with `prune`, every scope of the result is one the model proposed,
/// carrying the existing docs of its name whenever the existing scope of that
/// name has docs.
pub proof fn law_prune_takes_generated(existing: ScopeYamlModel, gen: Seq<ItemModel>, k: int)
    requires
        0 <= k < merge_scopes_spec(existing, gen, true).scopes.len(),
    ensures
        exists|j: int|
            0 <= j < gen.len() && merge_scopes_spec(existing, gen, true).scopes[k] == fill_doc(
                #[trigger] gen[j],
                existing.scopes,
            ),
{
    let f = filled(gen, existing.scopes);
    lemma_append_new_from(Seq::empty(), f, k);
    let j = choose|j: int| 0 <= j < f.len() && append_new(Seq::empty(), f)[k] == #[trigger] f[j];
    assert(f[j] == fill_doc(gen[j], existing.scopes));
}

/// Law: without `prune`, a proposal that names only existing scopes leaves the
/// scopes as they are, so the update writes nothing.
pub proof fn law_merge_known_names_unchanged(existing: ScopeYamlModel, gen: Seq<ItemModel>)
    requires
        forall|j: int| 0 <= j < gen.len() ==> has_name(existing.scopes, (#[trigger] gen[j]).name),
    ensures
        merge_scopes_spec(existing, gen, false).scopes == existing.scopes,
{
    lemma_append_new_noop(existing.scopes, gen);
}

/// The trimmed comma-separated pieces of a scope text.
pub open spec fn comma_pieces(c: Seq<char>) -> Seq<Seq<char>> {
    split_spec(c, ',').map_values(|p: Seq<char>| trim_spec(p))
}

/// Law: a subject whose scope text has no comma names that text, trimmed.
pub proof fn law_subject_single_scope(line: Seq<char>, c: Seq<char>)
    requires
        regex_first_group1(HISTORY_SCOPE_PATTERN@, line) == Some(c),
        !c.contains(','),
    ensures
        subject_scopes(line) == seq![trim_spec(c)],
{
    crate::text::law_split_without_separator(c, ',');
    assert(seq![c].map_values(|p: Seq<char>| trim_spec(p)) =~= seq![trim_spec(c)]);
}

/// Law: a subject whose scope text is `a,b` names the scopes of `a`, then
/// those of `b`: every comma-separated piece counts, in order.
pub proof fn law_subject_scopes_at_comma(line: Seq<char>, a: Seq<char>, b: Seq<char>)
    requires
        regex_first_group1(HISTORY_SCOPE_PATTERN@, line) == Some(a + seq![','] + b),
    ensures
        subject_scopes(line) == comma_pieces(a) + comma_pieces(b),
{
    crate::text::law_split_at_separator(a, b, ',');
    let x = split_spec(a, ',');
    let y = split_spec(b, ',');
    assert((x + y).map_values(|p: Seq<char>| trim_spec(p)) =~= x.map_values(|p: Seq<char>| trim_spec(p))
        + y.map_values(|p: Seq<char>| trim_spec(p)));
}

proof fn lemma_field_in_split(c: Seq<char>, pre: Seq<char>, f: Seq<char>, post: Seq<char>)
    requires
        c == pre + f + post,
        pre.len() == 0 || pre.last() == ',',
        post.len() == 0 || post[0] == ',',
        !f.contains(','),
    ensures
        split_spec(c, ',').contains(f),
{
    let tail = f + post;
    let st = split_spec(tail, ',');
    crate::text::law_split_without_separator(f, ',');
    if post.len() == 0 {
        assert(tail =~= f);
    } else {
        let q = post.skip(1);
        assert(tail =~= f + seq![','] + q);
        crate::text::law_split_at_separator(f, q, ',');
    }
    assert(st[0] == f);
    if pre.len() == 0 {
        assert(c =~= tail);
        assert(split_spec(c, ',')[0] == f);
    } else {
        let p0 = pre.drop_last();
        assert(c =~= p0 + seq![','] + tail);
        crate::text::law_split_at_separator(p0, tail, ',');
        let sp = split_spec(p0, ',');
        assert(split_spec(c, ',')[sp.len() as int] == f);
    }
}

/// Law: every whole comma-separated piece `f` of a subject's scope text
/// (`pre` ends at a comma or is empty, `post` starts at one or is empty) is
/// named by the subject, trimmed.
pub proof fn law_subject_names_every_piece(
    line: Seq<char>,
    c: Seq<char>,
    pre: Seq<char>,
    f: Seq<char>,
    post: Seq<char>,
)
    requires
        regex_first_group1(HISTORY_SCOPE_PATTERN@, line) == Some(c),
        c == pre + f + post,
        pre.len() == 0 || pre.last() == ',',
        post.len() == 0 || post[0] == ',',
        !f.contains(','),
    ensures
        subject_scopes(line).contains(trim_spec(f)),
{
    lemma_field_in_split(c, pre, f, post);
    let sp = split_spec(c, ',');
    let k = choose|k: int| 0 <= k < sp.len() && sp[k] == f;
    assert(subject_scopes(line)[k] == trim_spec(f));
}

proof fn lemma_all_subject_scopes_has(lines: Seq<Seq<char>>, k: int, x: Seq<char>)
    requires
        0 <= k < lines.len(),
        subject_scopes(lines[k]).contains(x),
    ensures
        all_subject_scopes(lines).contains(x),
    decreases lines.len(),
{
    let d = lines.drop_last();
    let a = all_subject_scopes(d);
    let t = subject_scopes(lines.last());
    assert(all_subject_scopes(lines) == a + t);
    if k < lines.len() - 1 {
        assert(d[k] == lines[k]);
        lemma_all_subject_scopes_has(d, k, x);
        let j = choose|j: int| 0 <= j < a.len() && a[j] == x;
        assert((a + t)[j] == x);
    } else {
        let j = choose|j: int| 0 <= j < t.len() && t[j] == x;
        assert((a + t)[a.len() + j] == x);
    }
}

proof fn lemma_distinct_nonempty_has(s: Seq<Seq<char>>, x: Seq<char>)
    requires
        s.contains(x),
        x.len() > 0,
    ensures
        distinct_nonempty(s).contains(x),
    decreases s.len(),
{
    let d = s.drop_last();
    let r = distinct_nonempty(d);
    if s.last() == x {
        if !r.contains(x) {
            assert(r.push(x)[r.len() as int] == x);
        }
    } else {
        let k = choose|k: int| 0 <= k < s.len() && s[k] == x;
        assert(k < s.len() - 1);
        assert(d[k] == x);
        lemma_distinct_nonempty_has(d, x);
        if !(s.last().len() == 0 || r.contains(s.last())) {
            let j = choose|j: int| 0 <= j < r.len() && r[j] == x;
            assert(r.push(s.last())[j] == x);
        }
    }
}

proof fn lemma_distinct_nonempty_props(s: Seq<Seq<char>>)
    ensures
        forall|i: int, j: int|
            0 <= i < j < distinct_nonempty(s).len() ==> distinct_nonempty(s)[i] != distinct_nonempty(s)[j],
        forall|i: int| 0 <= i < distinct_nonempty(s).len() ==> (#[trigger] distinct_nonempty(s)[i]).len() > 0,
    decreases s.len(),
{
    if s.len() > 0 {
        lemma_distinct_nonempty_props(s.drop_last());
        let r = distinct_nonempty(s.drop_last());
        if !(s.last().len() == 0 || r.contains(s.last())) {
            let t = r.push(s.last());
            assert forall|i: int, j: int| 0 <= i < j < t.len() implies t[i] != t[j] by {
                if j == r.len() {
                    assert(t[i] == r[i]);
                    assert(r.contains(r[i]));
                } else {
                    assert(t[i] == r[i] && t[j] == r[j]);
                }
            }
            assert forall|i: int| 0 <= i < t.len() implies (#[trigger] t[i]).len() > 0 by {
                if i < r.len() {
                    assert(t[i] == r[i]);
                }
            }
        }
    }
}

/// Law: the scopes taken from a git history are non-empty and each appears
/// once; and every trimmed, non-empty, whole comma-separated piece `f` of the
/// scope text of any subject line is among them.
pub proof fn law_history_scopes_cover_every_piece(
    log: Seq<char>,
    k: int,
    c: Seq<char>,
    pre: Seq<char>,
    f: Seq<char>,
    post: Seq<char>,
)
    requires
        0 <= k < lines_spec(log).len(),
        regex_first_group1(HISTORY_SCOPE_PATTERN@, lines_spec(log)[k]) == Some(c),
        c == pre + f + post,
        pre.len() == 0 || pre.last() == ',',
        post.len() == 0 || post[0] == ',',
        !f.contains(','),
        trim_spec(f).len() > 0,
    ensures
        history_scopes_spec(log).contains(trim_spec(f)),
        forall|i: int, j: int|
            0 <= i < j < history_scopes_spec(log).len() ==> history_scopes_spec(log)[i]
                != history_scopes_spec(log)[j],
        forall|i: int|
            0 <= i < history_scopes_spec(log).len() ==> (#[trigger] history_scopes_spec(log)[i]).len() > 0,
{
    law_subject_names_every_piece(lines_spec(log)[k], c, pre, f, post);
    lemma_all_subject_scopes_has(lines_spec(log), k, trim_spec(f));
    lemma_distinct_nonempty_has(all_subject_scopes(lines_spec(log)), trim_spec(f));
    lemma_distinct_nonempty_props(all_subject_scopes(lines_spec(log)));
}

} // verus!
