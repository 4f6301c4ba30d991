//! fd context: files related to the changed ones (same stem) and the files of
//! their directories.
use vstd::prelude::*;

use crate::model::Model;
use crate::text::{join, join_spec, lines, lines_spec, str_eq, trim, trim_spec, views};

verus! {

/// Printed (on the error output) when the tool is not installed.
pub const FD_MISSING_HINT: &'static str = "建议安装 fd (fd-find) 以获得更精准的 commit 消息";

/// Context lines kept at most.
pub const MAX_CONTEXT_LINES: usize = 500;

/// What `Path::file_stem` gives for a path (empty when none), as text.
pub uninterp spec fn path_stem(p: Seq<char>) -> Seq<char>;

/// What `Path::parent` gives for a path, as text.
pub uninterp spec fn path_parent(p: Seq<char>) -> Option<Seq<char>>;

/// Calls `std::path::Path::file_stem` (empty when it has none) and converts
/// the result lossily to text; the contract says only that the result is the
/// named function of the path.
#[verifier::external_body]
fn file_stem(p: &str) -> (r: String)
    ensures
        r@ == path_stem(p@),
{
    std::path::Path::new(p).file_stem().unwrap_or_default().to_string_lossy().to_string()
}

/// Calls `std::path::Path::parent` and converts the result lossily to text;
/// the contract says only that the result is the named function of the path.
#[verifier::external_body]
fn parent_dir(p: &str) -> (r: Option<String>)
    ensures
        r.model() == path_parent(p@),
{
    std::path::Path::new(p).parent().map(|d| d.to_string_lossy().to_string())
}

/// The section of a custom `fd` search, when it found something.
pub fn custom_section(output: &str) -> (r: Option<String>)
    ensures
        match r {
            Some(s) => trim_spec(output@).len() > 0 && s@ == "自定义搜索结果:\n"@ + trim_spec(output@),
            None => trim_spec(output@).len() == 0,
        },
{
    let t = trim(output);
    if t.as_str().is_empty() {
        None
    } else {
        let mut s = String::from_str("自定义搜索结果:\n");
        s.append(t.as_str());
        Some(s)
    }
}

/// One search for files with the same stem as a changed file.
pub struct StemQuery {
    pub file: String,
    pub glob: String,
}

/// The glob for a stem: `**/<stem>.*`.
pub open spec fn stem_glob(stem: Seq<char>) -> Seq<char> {
    "**/"@ + stem + ".*"@
}

/// Some file before position `k` has the same stem as file `k`.
pub open spec fn stem_seen(files: Seq<Seq<char>>, k: int) -> bool {
    exists|j: int| 0 <= j < k && path_stem(#[trigger] files[j]) == path_stem(files[k])
}

/// One query per stem, for the first file that has it, in order.
pub open spec fn stem_queries_spec(files: Seq<Seq<char>>) -> Seq<(Seq<char>, Seq<char>)>
    decreases files.len(),
{
    if files.len() == 0 {
        Seq::empty()
    } else {
        let r = stem_queries_spec(files.drop_last());
        if stem_seen(files, files.len() - 1) {
            r
        } else {
            r.push((files.last(), stem_glob(path_stem(files.last()))))
        }
    }
}

/// The same-stem searches to run for the changed files.
pub fn stem_queries(files: &[String]) -> (r: Vec<StemQuery>)
    ensures
        r@.map_values(|q: StemQuery| (q.file@, q.glob@)) == stem_queries_spec(views(files@)),
{
    let ghost fs = views(files@);
    let n = files.len();
    let mut seen: Vec<String> = Vec::new();
    let mut out: Vec<StemQuery> = Vec::new();
    let mut i: usize = 0;
    assert(fs.take(0) =~= Seq::<Seq<char>>::empty());
    assert(out@.map_values(|q: StemQuery| (q.file@, q.glob@)) =~= Seq::<(Seq<char>, Seq<char>)>::empty());
    while i < n
        invariant
            i <= n == files@.len(),
            fs == views(files@),
            seen@.len() == i,
            forall|k: int| 0 <= k < i ==> (#[trigger] seen@[k])@ == path_stem(fs[k]),
            out@.map_values(|q: StemQuery| (q.file@, q.glob@)) == stem_queries_spec(fs.take(i as int)),
        decreases n - i,
    {
        let stem = file_stem(files[i].as_str());
        assert(fs[i as int] == files@[i as int]@);
        let mut found = false;
        let mut j: usize = 0;
        while j < i
            invariant
                j <= i < n,
                seen@.len() == i,
                found == exists|k: int| 0 <= k < j && path_stem(fs[k]) == stem@,
                forall|k: int| 0 <= k < i ==> (#[trigger] seen@[k])@ == path_stem(fs[k]),
            decreases i - j,
        {
            if seen[j] == stem {
                found = true;
            }
            j = j + 1;
        }
        let ghost t = fs.take(i + 1);
        assert(t.drop_last() =~= fs.take(i as int));
        assert(stem_seen(t, i as int) == found) by {
            if found {
                let k = choose|k: int| 0 <= k < i && path_stem(fs[k]) == stem@;
                assert(t[k] == fs[k]);
            }
            if stem_seen(t, i as int) {
                let k = choose|k: int| 0 <= k < i && path_stem(#[trigger] t[k]) == path_stem(t[i as int]);
                assert(t[k] == fs[k]);
            }
        }
        if !found {
            let mut glob = String::from_str("**/");
            glob.append(stem.as_str());
            glob.append(".*");
            let q = StemQuery { file: files[i].clone(), glob };
            let ghost before = out@;
            out.push(q);
            assert(out@.map_values(|q: StemQuery| (q.file@, q.glob@)) =~= before.map_values(
                |q: StemQuery| (q.file@, q.glob@),
            ).push((q.file@, q.glob@)));
        }
        seen.push(stem);
        i = i + 1;
    }
    assert(fs.take(n as int) =~= fs);
    out
}

/// The lines whose trimmed text differs from `file`.
pub open spec fn other_lines(file: Seq<char>, ls: Seq<Seq<char>>) -> Seq<Seq<char>>
    decreases ls.len(),
{
    if ls.len() == 0 {
        ls
    } else if trim_spec(ls.last()) == file {
        other_lines(file, ls.drop_last())
    } else {
        other_lines(file, ls.drop_last()).push(ls.last())
    }
}

/// The related-files section for a changed file, when `fd` found others.
pub fn related_section(file: &str, output: &str) -> (r: Option<String>)
    ensures
        match r {
            Some(s) => other_lines(file@, lines_spec(output@)).len() > 0 && s@ == file@
                + " 的关联文件:\n"@ + join_spec(other_lines(file@, lines_spec(output@)), "\n"@),
            None => other_lines(file@, lines_spec(output@)).len() == 0,
        },
{
    let ls = lines(output);
    let ghost l = views(ls@);
    let n = ls.len();
    let mut related: Vec<String> = Vec::new();
    let mut i: usize = 0;
    assert(l.take(0) =~= Seq::<Seq<char>>::empty());
    assert(views(related@) =~= Seq::<Seq<char>>::empty());
    while i < n
        invariant
            i <= n == ls@.len(),
            l == views(ls@),
            views(related@) == other_lines(file@, l.take(i as int)),
        decreases n - i,
    {
        assert(l.take(i + 1).drop_last() =~= l.take(i as int));
        assert(l[i as int] == ls@[i as int]@);
        let t = trim(ls[i].as_str());
        if !str_eq(t.as_str(), file) {
            let c = ls[i].clone();
            let ghost before = related@;
            related.push(c);
            assert(views(related@) =~= views(before).push(c@));
        }
        i = i + 1;
    }
    assert(l.take(n as int) =~= l);
    if related.len() == 0 {
        return None;
    }
    let mut s = String::from_str(file);
    s.append(" 的关联文件:\n");
    let j = join(&related, "\n");
    s.append(j.as_str());
    Some(s)
}

/// The directory searched for a changed file: its parent, `.` when it has
/// none.
pub open spec fn dir_of(file: Seq<char>) -> Seq<char> {
    match path_parent(file) {
        Some(d) => d,
        None => "."@,
    }
}

/// The directories of the changed files, each once, in order.
pub open spec fn dir_queries_spec(files: Seq<Seq<char>>) -> Seq<Seq<char>>
    decreases files.len(),
{
    if files.len() == 0 {
        Seq::empty()
    } else {
        let r = dir_queries_spec(files.drop_last());
        if r.contains(dir_of(files.last())) {
            r
        } else {
            r.push(dir_of(files.last()))
        }
    }
}

/// The directories whose files are listed.
pub fn dir_queries(files: &[String]) -> (r: Vec<String>)
    ensures
        views(r@) == dir_queries_spec(views(files@)),
{
    let ghost fs = views(files@);
    let n = files.len();
    let mut out: Vec<String> = Vec::new();
    let mut i: usize = 0;
    assert(fs.take(0) =~= Seq::<Seq<char>>::empty());
    assert(views(out@) =~= Seq::<Seq<char>>::empty());
    while i < n
        invariant
            i <= n == files@.len(),
            fs == views(files@),
            views(out@) == dir_queries_spec(fs.take(i as int)),
        decreases n - i,
    {
        assert(fs.take(i + 1).drop_last() =~= fs.take(i as int));
        assert(fs[i as int] == files@[i as int]@);
        let d = match parent_dir(files[i].as_str()) {
            Some(p) => p,
            None => String::from_str("."),
        };
        let mut found = false;
        let m = out.len();
        let mut j: usize = 0;
        while j < m
            invariant
                j <= m == out@.len(),
                found == exists|k: int| 0 <= k < j && views(out@)[k] == d@,
            decreases m - j,
        {
            assert(views(out@)[j as int] == out@[j as int]@);
            if out[j] == d {
                found = true;
            }
            j = j + 1;
        }
        assert(found == views(out@).contains(d@)) by {
            if views(out@).contains(d@) {
                let k = choose|k: int| 0 <= k < views(out@).len() && views(out@)[k] == d@;
            }
        }
        if !found {
            let ghost before = out@;
            out.push(d);
            assert(views(out@) =~= views(before).push(d@));
        }
        i = i + 1;
    }
    assert(fs.take(n as int) =~= fs);
    out
}

/// The directory-listing lines of `fd`'s output, indented by two spaces.
pub open spec fn indented(ls: Seq<Seq<char>>) -> Seq<Seq<char>> {
    ls.map_values(|l: Seq<char>| "  "@ + l)
}

/// The directory section, when the directory has files.
pub fn dir_section(dir: &str, output: &str) -> (r: Option<String>)
    ensures
        match r {
            Some(s) => lines_spec(output@).len() > 0 && s@ == dir@ + "/ 目录文件:\n"@ + join_spec(
                indented(lines_spec(output@)),
                "\n"@,
            ),
            None => lines_spec(output@).len() == 0,
        },
{
    let ls = lines(output);
    let n = ls.len();
    if n == 0 {
        return None;
    }
    let mut items: Vec<String> = Vec::new();
    let mut i: usize = 0;
    let ghost l = views(ls@);
    assert(views(items@) =~= indented(l.take(0)));
    while i < n
        invariant
            i <= n == ls@.len(),
            l == views(ls@),
            views(items@) == indented(l.take(i as int)),
        decreases n - i,
    {
        let mut s = String::from_str("  ");
        s.append(ls[i].as_str());
        let ghost before = items@;
        items.push(s);
        assert(l[i as int] == ls@[i as int]@);
        assert(views(items@) =~= views(before).push(s@));
        assert(l.take(i + 1) =~= l.take(i as int).push(l[i as int]));
        assert(indented(l.take(i + 1)) =~= indented(l.take(i as int)).push("  "@ + l[i as int]));
        i = i + 1;
    }
    assert(l.take(n as int) =~= l);
    let mut s = String::from_str(dir);
    s.append("/ 目录文件:\n");
    let j = join(&items, "\n");
    s.append(j.as_str());
    Some(s)
}

/// The context limited to `MAX_CONTEXT_LINES` lines, marked when cut.
pub open spec fn truncate_spec(text: Seq<char>) -> Seq<char> {
    let ls = lines_spec(text);
    if ls.len() > MAX_CONTEXT_LINES {
        join_spec(ls.take(MAX_CONTEXT_LINES as int), "\n"@) + "\n... (已截断)"@
    } else {
        text
    }
}

/// Joins the sections and limits the result to `MAX_CONTEXT_LINES` lines.
pub fn assemble_context(sections: &Vec<String>) -> (r: String)
    ensures
        r@ == truncate_spec(join_spec(views(sections@), "\n"@)),
{
    let result = join(sections, "\n");
    let mut ls = lines(result.as_str());
    if ls.len() > MAX_CONTEXT_LINES {
        let ghost all = views(ls@);
        ls.truncate(MAX_CONTEXT_LINES);
        assert(views(ls@) =~= all.take(MAX_CONTEXT_LINES as int));
        let mut out = join(&ls, "\n");
        out.append("\n... (已截断)");
        out
    } else {
        result
    }
}

/// The output found for query `k`, when there is one.
pub open spec fn output_at(outs: Seq<Option<Seq<char>>>, k: int) -> Option<Seq<char>> {
    if 0 <= k < outs.len() {
        outs[k]
    } else {
        None
    }
}

/// The related-files sections of the same-stem searches, in order, with the
/// output of search `k` at `outs[k]`.
pub open spec fn related_part(queries: Seq<(Seq<char>, Seq<char>)>, outs: Seq<Option<Seq<char>>>) -> Seq<
    Seq<char>,
>
    decreases queries.len(),
{
    if queries.len() == 0 {
        Seq::empty()
    } else {
        let prev = related_part(queries.drop_last(), outs);
        let file = queries.last().0;
        match output_at(outs, queries.len() - 1) {
            Some(o) => {
                let others = other_lines(file, lines_spec(o));
                if others.len() > 0 {
                    prev.push(file + " 的关联文件:\n"@ + join_spec(others, "\n"@))
                } else {
                    prev
                }
            },
            None => prev,
        }
    }
}

/// The directory sections, in order, with the listing of directory `k` at
/// `outs[k]`.
pub open spec fn dir_part(dirs: Seq<Seq<char>>, outs: Seq<Option<Seq<char>>>) -> Seq<Seq<char>>
    decreases dirs.len(),
{
    if dirs.len() == 0 {
        Seq::empty()
    } else {
        let prev = dir_part(dirs.drop_last(), outs);
        match output_at(outs, dirs.len() - 1) {
            Some(o) => if lines_spec(o).len() > 0 {
                prev.push(dirs.last() + "/ 目录文件:\n"@ + join_spec(indented(lines_spec(o)), "\n"@))
            } else {
                prev
            },
            None => prev,
        }
    }
}

/// The fd context: nothing without changed files; else the custom search
/// section, the same-stem sections and the directory sections, joined and
/// limited to `MAX_CONTEXT_LINES` lines.
pub open spec fn fd_context_spec(
    files: Seq<Seq<char>>,
    custom: Option<Seq<char>>,
    stem_outs: Seq<Option<Seq<char>>>,
    dir_outs: Seq<Option<Seq<char>>>,
) -> Seq<char> {
    if files.len() == 0 {
        Seq::empty()
    } else {
        let custom_part = match custom {
            Some(o) if trim_spec(o).len() > 0 => seq!["自定义搜索结果:\n"@ + trim_spec(o)],
            _ => Seq::empty(),
        };
        let sections = custom_part + related_part(stem_queries_spec(files), stem_outs) + dir_part(
            dir_queries_spec(files),
            dir_outs,
        );
        truncate_spec(join_spec(sections, "\n"@))
    }
}

/// Builds the fd context from the outputs of the searches: `custom` is the
/// output of the custom search (when a pattern is given and it ran),
/// `stem_outputs[k]` that of `stem_queries(changed_files)[k]` and
/// `dir_outputs[k]` that of the listing of `dir_queries(changed_files)[k]`
/// (`None` when it did not run).
pub fn fd_context_from(
    changed_files: &[String],
    custom: Option<String>,
    stem_outputs: &Vec<Option<String>>,
    dir_outputs: &Vec<Option<String>>,
) -> (r: String)
    ensures
        r@ == fd_context_spec(views(changed_files@), custom.model(), stem_outputs.model(), dir_outputs.model()),
{
    if changed_files.len() == 0 {
        return String::new();
    }
    let mut sections: Vec<String> = Vec::new();
    let ghost expected = match custom.model() {
        Some(o) if trim_spec(o).len() > 0 => seq!["自定义搜索结果:\n"@ + trim_spec(o)],
        _ => Seq::<Seq<char>>::empty(),
    };
    match custom {
        Some(o) => match custom_section(o.as_str()) {
            Some(sec) => {
                sections.push(sec);
                assert(views(sections@) =~= seq![sec@]);
            },
            None => {
                assert(views(sections@) =~= Seq::<Seq<char>>::empty());
            },
        },
        None => {
            assert(views(sections@) =~= Seq::<Seq<char>>::empty());
        },
    }
    let ghost custom_part = views(sections@);
    assert(custom_part == expected);
    let queries = stem_queries(changed_files);
    let ghost qs = queries@.map_values(|q: StemQuery| (q.file@, q.glob@));
    let ghost souts = stem_outputs.model();
    let n = queries.len();
    let mut i: usize = 0;
    assert(qs.take(0) =~= Seq::<(Seq<char>, Seq<char>)>::empty());
    assert(views(sections@) =~= custom_part + related_part(qs.take(0), souts));
    while i < n
        invariant
            i <= n == queries@.len(),
            qs == queries@.map_values(|q: StemQuery| (q.file@, q.glob@)),
            souts == stem_outputs.model(),
            views(sections@) == custom_part + related_part(qs.take(i as int), souts),
        decreases n - i,
    {
        assert(qs.take(i + 1).drop_last() =~= qs.take(i as int));
        assert(qs.take(i + 1).last() == qs[i as int]);
        let ghost before = views(sections@);
        if i < stem_outputs.len() {
            assert(souts[i as int] == stem_outputs@[i as int].model());
            match &stem_outputs[i] {
                Some(o) => match related_section(queries[i].file.as_str(), o.as_str()) {
                    Some(sec) => {
                        sections.push(sec);
                        assert(views(sections@) =~= before.push(sec@));
                    },
                    None => {},
                },
                None => {},
            }
        }
        i = i + 1;
    }
    assert(qs.take(n as int) =~= qs);
    let ghost with_related = views(sections@);
    let dirs = dir_queries(changed_files);
    let ghost ds = views(dirs@);
    let ghost douts = dir_outputs.model();
    let m = dirs.len();
    let mut j: usize = 0;
    assert(ds.take(0) =~= Seq::<Seq<char>>::empty());
    assert(views(sections@) =~= with_related + dir_part(ds.take(0), douts));
    while j < m
        invariant
            j <= m == dirs@.len(),
            ds == views(dirs@),
            douts == dir_outputs.model(),
            views(sections@) == with_related + dir_part(ds.take(j as int), douts),
        decreases m - j,
    {
        assert(ds.take(j + 1).drop_last() =~= ds.take(j as int));
        assert(ds.take(j + 1).last() == ds[j as int]);
        assert(ds[j as int] == dirs@[j as int]@);
        let ghost before = views(sections@);
        if j < dir_outputs.len() {
            assert(douts[j as int] == dir_outputs@[j as int].model());
            match &dir_outputs[j] {
                Some(o) => match dir_section(dirs[j].as_str(), o.as_str()) {
                    Some(sec) => {
                        sections.push(sec);
                        assert(views(sections@) =~= before.push(sec@));
                    },
                    None => {},
                },
                None => {},
            }
        }
        j = j + 1;
    }
    assert(ds.take(m as int) =~= ds);
    assert(views(sections@) =~= custom_part + related_part(qs, souts) + dir_part(ds, douts));
    assemble_context(&sections)
}

} // verus!
