//! Directory history, most recently used first.
use vstd::prelude::*;

use crate::config::paths::{EnvVars, path_join, path_join_spec};
use crate::model::{Duplicate, Model};
use crate::text::{
    contains,
    contains_spec,
    decimal,
    decimal_spec,
    lines,
    lines_spec,
    lowercase_of,
    to_chars,
    to_lowercase,
    trim,
    trim_spec,
    views,
};

verus! {

/// Where the history is kept: `$XDG_DATA_HOME/agc/history`, or
/// `~/.local/share/agc/history`; `~/.agc_history` as fallback; off Unix,
/// `.agc_history` in the working directory.
pub open spec fn history_path_spec(env: EnvVars) -> Seq<char> {
    if env.windows {
        ".agc_history"@
    } else {
        unix_history_path(env)
    }
}

/// The history file's location on Unix.
pub open spec fn unix_history_path(env: EnvVars) -> Seq<char> {
    let data = match env.xdg_data_home {
        Some(x) => Some(x@),
        None => match env.home {
            Some(h) => Some(path_join_spec(path_join_spec(h@, ".local"@), "share"@)),
            None => None,
        },
    };
    match data {
        Some(d) => path_join_spec(path_join_spec(d, "agc"@), "history"@),
        None => match env.home {
            Some(h) => path_join_spec(h@, ".agc_history"@),
            None => ".agc_history"@,
        },
    }
}

/// The position of the first occurrence of `x` in `s`.
pub open spec fn first_index(s: Seq<Seq<char>>, x: Seq<char>) -> Option<int>
    decreases s.len(),
{
    if s.len() == 0 {
        None
    } else if s[0] == x {
        Some(0)
    } else {
        match first_index(s.drop_first(), x) {
            Some(i) => Some(i + 1),
            None => None,
        }
    }
}

proof fn lemma_first_index(s: Seq<Seq<char>>, x: Seq<char>, i: int)
    requires
        0 <= i <= s.len(),
        forall|j: int| 0 <= j < i ==> s[j] != x,
    ensures
        i < s.len() && s[i] == x ==> first_index(s, x) == Some(i),
        i == s.len() ==> first_index(s, x) is None,
    decreases i,
{
    if i > 0 {
        let t = s.drop_first();
        assert forall|j: int| 0 <= j < i - 1 implies t[j] != x by {
            assert(t[j] == s[j + 1]);
        }
        lemma_first_index(t, x, i - 1);
    }
}

/// The entries after `p` is used: `p` first, then the other entries in their
/// order (its earlier occurrence, if any, removed).
pub open spec fn add_spec(entries: Seq<Seq<char>>, p: Seq<char>) -> Seq<Seq<char>> {
    match first_index(entries, p) {
        Some(i) => seq![p] + entries.remove(i),
        None => seq![p] + entries,
    }
}

/// The entries whose lower-cased text contains the lower-cased pattern, in
/// order.
pub open spec fn filter_spec(entries: Seq<Seq<char>>, pattern: Seq<char>) -> Seq<Seq<char>>
    decreases entries.len(),
{
    if entries.len() == 0 {
        entries
    } else if contains_spec(lowercase_of(entries.last()), lowercase_of(pattern)) {
        filter_spec(entries.drop_last(), pattern).push(entries.last())
    } else {
        filter_spec(entries.drop_last(), pattern)
    }
}

/// The file content: one entry per line.
pub open spec fn file_text(entries: Seq<Seq<char>>) -> Seq<char>
    decreases entries.len(),
{
    if entries.len() == 0 {
        Seq::empty()
    } else {
        file_text(entries.drop_last()) + entries.last() + "\n"@
    }
}

/// The non-empty lines of a text.
pub open spec fn nonempty_lines(t: Seq<char>) -> Seq<Seq<char>> {
    crate::text::keep_nonempty(lines_spec(t))
}

/// Line `k` (from 0) of the numbered list.
pub open spec fn menu_item(k: int, option: Seq<char>) -> Seq<char> {
    "  "@ + decimal_spec((k + 1) as nat) + ". "@ + option
}

/// The numbered list of options.
pub open spec fn menu_lines_spec(options: Seq<Seq<char>>) -> Seq<Seq<char>> {
    seq!["\n匹配到多个目录，请选择："@] + Seq::new(options.len(), |k: int| menu_item(k, options[k]))
}

/// What the history selector does with the matching directories.
pub enum Selection {
    /// Nothing to choose from.
    Nothing,
    /// The only candidate.
    Single(String),
    /// Several candidates: ask the user (fzf, else a numbered list).
    Ask,
}

/// Directory history, most recently used first.
pub struct History {
    entries: Vec<String>,
    file_path: String,
}

impl History {
    pub closed spec fn spec_entries(&self) -> Seq<Seq<char>> {
        views(self.entries@)
    }

    pub closed spec fn spec_file_path(&self) -> Seq<char> {
        self.file_path@
    }

    /// The history file's location for an environment.
    pub fn resolve_path(env: &EnvVars) -> (r: String)
        ensures
            r@ == history_path_spec(*env),
    {
        if env.windows {
            return String::from_str(".agc_history");
        }
        let data = match &env.xdg_data_home {
            Some(x) => Some(x.clone()),
            None => match &env.home {
                Some(h) => {
                    let l = path_join(h.as_str(), ".local");
                    Some(path_join(l.as_str(), "share"))
                },
                None => None,
            },
        };
        match data {
            Some(d) => {
                let a = path_join(d.as_str(), "agc");
                path_join(a.as_str(), "history")
            },
            None => match &env.home {
                Some(h) => path_join(h.as_str(), ".agc_history"),
                None => String::from_str(".agc_history"),
            },
        }
    }

    /// The history read from its file: the non-empty lines (`contents` is
    /// `None` when the file is missing or unreadable).
    pub fn from_contents(file_path: String, contents: Option<String>) -> (r: History)
        ensures
            r.spec_file_path() == file_path@,
            r.spec_entries() == (match contents {
                Some(c) => nonempty_lines(c@),
                None => Seq::empty(),
            }),
    {
        let mut entries: Vec<String> = Vec::new();
        match contents {
            None => {
                assert(views(entries@) =~= Seq::<Seq<char>>::empty());
            },
            Some(c) => {
                let ls = lines(c.as_str());
                let n = ls.len();
                let mut i: usize = 0;
                assert(views(ls@).take(0) =~= Seq::<Seq<char>>::empty());
                assert(views(entries@) =~= Seq::<Seq<char>>::empty());
                while i < n
                    invariant
                        i <= n == ls@.len(),
                        views(entries@) == crate::text::keep_nonempty(views(ls@).take(i as int)),
                    decreases n - i,
                {
                    let ghost p = views(ls@);
                    assert(p.take(i + 1).drop_last() =~= p.take(i as int));
                    assert(p[i as int] == ls@[i as int]@);
                    if !ls[i].as_str().is_empty() {
                        let e = ls[i].clone();
                        let ghost before = entries@;
                        entries.push(e);
                        assert(views(entries@) =~= views(before).push(e@));
                    }
                    i = i + 1;
                }
                assert(views(ls@).take(n as int) =~= views(ls@));
            },
        }
        History { entries, file_path }
    }

    /// The entries, most recent first.
    pub fn entries(&self) -> (r: Vec<String>)
        ensures
            views(r@) == self.spec_entries(),
    {
        let r = self.entries.duplicate();
        assert(views(r@) =~= r.model());
        assert(views(self.entries@) =~= self.entries.model());
        r
    }

    /// The history file.
    pub fn file_path(&self) -> (r: String)
        ensures
            r@ == self.spec_file_path(),
    {
        self.file_path.clone()
    }

    /// Records the use of directory `path` (canonical form): moved to the
    /// front if present, inserted at the front otherwise.
    pub fn add(&mut self, path: String)
        ensures
            final(self).spec_entries() == add_spec(old(self).spec_entries(), path@),
            final(self).spec_file_path() == old(self).spec_file_path(),
            entries_distinct(old(self).spec_entries()) ==> entries_distinct(final(self).spec_entries()),
    {
        let ghost e = views(self.entries@);
        let ghost added = add_spec(e, path@);
        proof {
            if entries_distinct(e) {
                law_add_distinct(e, path@);
            }
        }
        assert(entries_distinct(e) ==> entries_distinct(added));
        let n = self.entries.len();
        let mut i: usize = 0;
        while i < n
            invariant
                i <= n == self.entries@.len(),
                e == views(self.entries@),
                *self == *old(self),
                added == add_spec(e, path@),
                entries_distinct(e) ==> entries_distinct(added),
                forall|j: int| 0 <= j < i ==> e[j] != path@,
            decreases n - i,
        {
            if self.entries[i] == path {
                proof {
                    lemma_first_index(e, path@, i as int);
                }
                let entry = self.entries.remove(i);
                self.entries.insert(0, entry);
                assert(views(self.entries@) =~= seq![path@] + e.remove(i as int));
                return;
            }
            i = i + 1;
        }
        proof {
            lemma_first_index(e, path@, n as int);
        }
        let ghost p = path@;
        self.entries.insert(0, path);
        assert(views(self.entries@) =~= seq![p] + e);
    }

    /// The entries containing `pattern`, ignoring case, most recent first.
    pub fn filter(&self, pattern: &str) -> (r: Vec<String>)
        ensures
            views(r@) == filter_spec(self.spec_entries(), pattern@),
    {
        let lower = to_lowercase(pattern);
        let n = self.entries.len();
        let mut out: Vec<String> = Vec::new();
        let mut i: usize = 0;
        let ghost e = views(self.entries@);
        assert(e.take(0) =~= Seq::<Seq<char>>::empty());
        assert(views(out@) =~= Seq::<Seq<char>>::empty());
        while i < n
            invariant
                i <= n == self.entries@.len(),
                e == views(self.entries@),
                lower@ == lowercase_of(pattern@),
                views(out@) == filter_spec(e.take(i as int), pattern@),
            decreases n - i,
        {
            assert(e.take(i + 1).drop_last() =~= e.take(i as int));
            assert(e[i as int] == self.entries@[i as int]@);
            let l = to_lowercase(self.entries[i].as_str());
            if contains(l.as_str(), lower.as_str()) {
                let c = self.entries[i].clone();
                let ghost before = out@;
                out.push(c);
                assert(views(out@) =~= views(before).push(c@));
            }
            i = i + 1;
        }
        assert(e.take(n as int) =~= e);
        out
    }

    /// What `save` writes: one entry per line.
    pub fn file_contents(&self) -> (r: String)
        ensures
            r@ == file_text(self.spec_entries()),
    {
        let mut out = String::new();
        let n = self.entries.len();
        let mut i: usize = 0;
        let ghost e = views(self.entries@);
        assert(e.take(0) =~= Seq::<Seq<char>>::empty());
        while i < n
            invariant
                i <= n == self.entries@.len(),
                e == views(self.entries@),
                out@ == file_text(e.take(i as int)),
            decreases n - i,
        {
            assert(e.take(i + 1).drop_last() =~= e.take(i as int));
            assert(e[i as int] == self.entries@[i as int]@);
            out.append(self.entries[i].as_str());
            out.append("\n");
            i = i + 1;
        }
        assert(e.take(n as int) =~= e);
        out
    }

    /// How to pick among matching directories: none, the only one, or ask.
    pub fn select_fzf(options: &[String]) -> (r: Selection)
        ensures
            options@.len() == 0 <==> r is Nothing,
            options@.len() == 1 <==> (r matches Selection::Single(s) && s@ == options@[0]@),
            options@.len() > 1 <==> r is Ask,
    {
        if options.len() == 0 {
            Selection::Nothing
        } else if options.len() == 1 {
            Selection::Single(options[0].clone())
        } else {
            Selection::Ask
        }
    }

    /// The choice read from fzf's output: the trimmed text, if not empty.
    pub fn fzf_choice(output: &str) -> (r: Option<String>)
        ensures
            match r {
                Some(s) => s@ == trim_spec(output@) && s@.len() > 0,
                None => trim_spec(output@).len() == 0,
            },
    {
        let t = trim(output);
        if t.as_str().is_empty() {
            None
        } else {
            Some(t)
        }
    }

    /// The numbered list shown when fzf is not available: a heading, then
    /// `  k. option` for each option.
    pub fn menu_lines(options: &[String]) -> (r: Vec<String>)
        ensures
            views(r@) == menu_lines_spec(views(options@)),
    {
        let mut r: Vec<String> = Vec::new();
        r.push(String::from_str("\n匹配到多个目录，请选择："));
        let n = options.len();
        let mut i: usize = 0;
        let ghost o = views(options@);
        while i < n
            invariant
                i <= n == options@.len(),
                o == views(options@),
                views(r@) == seq!["\n匹配到多个目录，请选择："@] + Seq::new(
                    i as nat,
                    |k: int| menu_item(k, o[k]),
                ),
            decreases n - i,
        {
            let mut line = String::from_str("  ");
            line.append(decimal(i + 1).as_str());
            line.append(". ");
            line.append(options[i].as_str());
            let ghost before = views(r@);
            r.push(line);
            assert(o[i as int] == options@[i as int]@);
            assert(views(r@) =~= before.push(line@));
            assert(Seq::new((i + 1) as nat, |k: int| menu_item(k, o[k])) =~= Seq::new(
                i as nat,
                |k: int| menu_item(k, o[k]),
            ).push(menu_item(i as int, o[i as int])));
            i = i + 1;
        }
        r
    }

    /// The question after the numbered list.
    pub fn menu_prompt(count: usize) -> (r: String)
        ensures
            r@ == "输入序号 (1-"@ + decimal_spec(count as nat) + "): "@,
    {
        let mut r = String::from_str("输入序号 (1-");
        r.append(decimal(count).as_str());
        r.append("): ");
        r
    }

    /// The option chosen by number (1-based) in the user's input.
    pub fn pick_by_number(options: &[String], input: &str) -> (r: Option<String>)
        ensures
            match parse_usize_spec(trim_spec(input@)) {
                Some(k) => if 1 <= k <= options@.len() {
                    r matches Some(s) && s@ == options@[k - 1]@
                } else {
                    r is None
                },
                None => r is None,
            },
    {
        let t = trim(input);
        match parse_usize(t.as_str()) {
            Some(k) => if k >= 1 && k <= options.len() {
                Some(options[k - 1].clone())
            } else {
                None
            },
            None => None,
        }
    }
}

/// The value of a string of decimal digits.
pub open spec fn digits_value(d: Seq<char>) -> nat
    decreases d.len(),
{
    if d.len() == 0 {
        0
    } else {
        10 * digits_value(d.drop_last()) + ((d.last() as u32 - 48) as nat)
    }
}

pub open spec fn is_digit(c: char) -> bool {
    48 <= c as u32 && c as u32 <= 57
}

/// The text after an optional leading `+`.
pub open spec fn unsigned_digits(s: Seq<char>) -> Seq<char> {
    if s.len() > 0 && s[0] == '+' {
        s.drop_first()
    } else {
        s
    }
}

/// What `str::parse::<usize>` accepts: an optional `+`, then at least one
/// decimal digit, the value within `usize`.
pub open spec fn parse_usize_spec(s: Seq<char>) -> Option<nat> {
    let d = unsigned_digits(s);
    if d.len() > 0 && (forall|k: int| 0 <= k < d.len() ==> is_digit(#[trigger] d[k])) && digits_value(d)
        <= usize::MAX {
        Some(digits_value(d))
    } else {
        None
    }
}

proof fn lemma_digits_monotone(d: Seq<char>, j: int)
    requires
        0 <= j <= d.len(),
        forall|k: int| 0 <= k < d.len() ==> is_digit(#[trigger] d[k]),
    ensures
        digits_value(d.take(j)) <= digits_value(d),
    decreases d.len() - j,
{
    if j < d.len() {
        let t = d.drop_last();
        assert forall|k: int| 0 <= k < t.len() implies is_digit(#[trigger] t[k]) by {
            assert(t[k] == d[k]);
        }
        lemma_digits_monotone(t, j);
        assert(t.take(j) =~= d.take(j));
    } else {
        assert(d.take(j) =~= d);
    }
}

/// `str::parse::<usize>`.
pub fn parse_usize(s: &str) -> (r: Option<usize>)
    ensures
        r.model() == (match parse_usize_spec(s@) {
            Some(v) => Some(v as int),
            None => None,
        }),
{
    let v = to_chars(s);
    let start: usize = if v.len() > 0 && v[0] == '+' {
        1
    } else {
        0
    };
    let ghost d = unsigned_digits(s@);
    assert(d =~= v@.skip(start as int));
    if start == v.len() {
        return None;
    }
    let mut acc: u128 = 0;
    let mut i: usize = start;
    assert(d.take(0) =~= Seq::<char>::empty());
    while i < v.len()
        invariant
            start <= i <= v@.len(),
            v@ == s@,
            d == v@.skip(start as int),
            d == unsigned_digits(s@),
            forall|k: int| 0 <= k < i - start ==> is_digit(#[trigger] d[k]),
            acc == digits_value(d.take(i - start)),
            acc <= usize::MAX,
        decreases v@.len() - i,
    {
        let c = v[i];
        assert(d[i - start] == c);
        let u = c as u32;
        if !(u >= 48 && u <= 57) {
            assert(!is_digit(d[i - start]));
            return None;
        }
        assert(d.take(i - start + 1).drop_last() =~= d.take(i - start));
        assert(d.take(i - start + 1).last() == c);
        let digit = (u - 48) as u128;
        acc = acc * 10 + digit;
        assert(acc == digits_value(d.take(i - start + 1)));
        if acc > usize::MAX as u128 {
            proof {
                if forall|k: int| 0 <= k < d.len() ==> is_digit(#[trigger] d[k]) {
                    lemma_digits_monotone(d, i - start + 1);
                }
            }
            return None;
        }
        i = i + 1;
    }
    assert(d.take(i - start) =~= d);
    Some(acc as usize)
}

/// No entry occurs twice.
pub open spec fn entries_distinct(s: Seq<Seq<char>>) -> bool {
    forall|i: int, j: int| 0 <= i < j < s.len() ==> s[i] != s[j]
}

proof fn lemma_first_index_props(s: Seq<Seq<char>>, x: Seq<char>)
    ensures
        first_index(s, x) matches Some(i) ==> 0 <= i < s.len() && s[i] == x,
        first_index(s, x) is None ==> forall|j: int| 0 <= j < s.len() ==> s[j] != x,
    decreases s.len(),
{
    if s.len() > 0 {
        lemma_first_index_props(s.drop_first(), x);
        if s[0] != x {
            if first_index(s.drop_first(), x) is None {
                assert forall|j: int| 0 <= j < s.len() implies s[j] != x by {
                    if j > 0 {
                        assert(s[j] == s.drop_first()[j - 1]);
                    }
                }
            }
        }
    }
}

/// Law: the directory just used comes first.
pub proof fn law_add_puts_first(entries: Seq<Seq<char>>, p: Seq<char>)
    ensures
        add_spec(entries, p).len() >= 1,
        add_spec(entries, p)[0] == p,
{
    lemma_first_index_props(entries, p);
}

/// Law: using the same directory again changes nothing.
pub proof fn law_add_idempotent(entries: Seq<Seq<char>>, p: Seq<char>)
    ensures
        add_spec(add_spec(entries, p), p) == add_spec(entries, p),
{
    lemma_first_index_props(entries, p);
    let a = add_spec(entries, p);
    assert(first_index(a, p) == Some(0int));
    assert(seq![p] + a.remove(0) =~= a);
}

/// Law: a history without repeated entries keeps that property, and holds the
/// directory just used exactly once.
pub proof fn law_add_distinct(entries: Seq<Seq<char>>, p: Seq<char>)
    requires
        entries_distinct(entries),
    ensures
        entries_distinct(add_spec(entries, p)),
        forall|j: int| 0 < j < add_spec(entries, p).len() ==> add_spec(entries, p)[j] != p,
{
    lemma_first_index_props(entries, p);
    let a = add_spec(entries, p);
    match first_index(entries, p) {
        Some(i) => {
            let r = entries.remove(i);
            assert forall|j: int| 0 <= j < r.len() implies r[j] != p by {
                if j < i {
                    assert(r[j] == entries[j]);
                } else {
                    assert(r[j] == entries[j + 1]);
                }
            }
            assert forall|x: int, y: int| 0 <= x < y < a.len() implies a[x] != a[y] by {
                if x > 0 {
                    let rx = if x - 1 < i { x - 1 } else { x };
                    let ry = if y - 1 < i { y - 1 } else { y };
                    assert(a[x] == entries[rx]);
                    assert(a[y] == entries[ry]);
                } else {
                    assert(a[y] == r[y - 1]);
                }
            }
            assert forall|j: int| 0 < j < a.len() implies a[j] != p by {
                assert(a[j] == r[j - 1]);
            }
        },
        None => {
            assert forall|x: int, y: int| 0 <= x < y < a.len() implies a[x] != a[y] by {
                if x > 0 {
                    assert(a[x] == entries[x - 1] && a[y] == entries[y - 1]);
                } else {
                    assert(a[y] == entries[y - 1]);
                }
            }
            assert forall|j: int| 0 < j < a.len() implies a[j] != p by {
                assert(a[j] == entries[j - 1]);
            }
        },
    }
}

/// Keeps the entries other than `p`.
pub open spec fn other_than(p: Seq<char>) -> spec_fn(Seq<char>) -> bool {
    |e: Seq<char>| e != p
}

proof fn lemma_filter_keeps_all(s: Seq<Seq<char>>, p: Seq<char>)
    requires
        forall|j: int| 0 <= j < s.len() ==> s[j] != p,
    ensures
        s.filter(other_than(p)) == s,
    decreases s.len(),
{
    reveal(Seq::filter);
    if s.len() > 0 {
        lemma_filter_keeps_all(s.drop_last(), p);
        assert(s.drop_last().push(s.last()) =~= s);
    }
}

/// Law: in a history without repeated entries, recording directory `p` puts
/// it first, followed by every other entry in its order; the length grows by
/// one exactly when `p` was not there, and no entry is repeated.
#[verifier::spinoff_prover]
pub proof fn law_add_moves_to_front(entries: Seq<Seq<char>>, p: Seq<char>)
    requires
        entries_distinct(entries),
    ensures
        add_spec(entries, p) == seq![p] + entries.filter(other_than(p)),
        add_spec(entries, p).len() == (if entries.contains(p) {
            entries.len() as int
        } else {
            entries.len() + 1int
        }),
        entries_distinct(add_spec(entries, p)),
{
    lemma_first_index_props(entries, p);
    law_add_distinct(entries, p);
    match first_index(entries, p) {
        Some(i) => {
            let a = entries.take(i);
            let b = entries.skip(i + 1);
            assert(entries =~= a + seq![p] + b);
            assert forall|j: int| 0 <= j < a.len() implies a[j] != p by {
                assert(a[j] == entries[j]);
            }
            assert forall|j: int| 0 <= j < b.len() implies b[j] != p by {
                assert(b[j] == entries[i + 1 + j]);
            }
            lemma_filter_keeps_all(a, p);
            lemma_filter_keeps_all(b, p);
            Seq::filter_distributes_over_add(a + seq![p], b, other_than(p));
            Seq::filter_distributes_over_add(a, seq![p], other_than(p));
            assert(seq![p].drop_last() =~= Seq::<Seq<char>>::empty());
            assert(seq![p].filter(other_than(p)) =~= Seq::<Seq<char>>::empty()) by {
                reveal(Seq::filter);
                let one = seq![p];
                let none = one.drop_last();
                assert(none.len() == 0);
                assert(none.filter(other_than(p)) == none);
                assert(!(other_than(p))(one.last()));
                assert(one.filter(other_than(p)) == none.filter(other_than(p)));
            }
            assert(entries.remove(i) =~= a + b);
            assert(entries.filter(other_than(p)) =~= a + b);
            assert(entries.contains(p));
        },
        None => {
            lemma_filter_keeps_all(entries, p);
            assert(!entries.contains(p));
        },
    }
}

/// Whether `e` matches `pattern`, ignoring case: its lower-cased text
/// contains the lower-cased pattern.
pub open spec fn matches_ignoring_case(pattern: Seq<char>) -> spec_fn(Seq<char>) -> bool {
    |e: Seq<char>| contains_spec(lowercase_of(e), lowercase_of(pattern))
}

/// Law: filtering keeps exactly the entries whose lower-cased text contains
/// the lower-cased pattern, in their order; so an entry is kept for a pattern
/// whatever the case of either.
pub proof fn law_filter_ignores_case(entries: Seq<Seq<char>>, pattern: Seq<char>)
    ensures
        filter_spec(entries, pattern) == entries.filter(matches_ignoring_case(pattern)),
        forall|e: Seq<char>|
            #[trigger] filter_spec(entries, pattern).contains(e) <==> entries.contains(e)
                && contains_spec(lowercase_of(e), lowercase_of(pattern)),
    decreases entries.len(),
{
    reveal(Seq::filter);
    if entries.len() > 0 {
        law_filter_ignores_case(entries.drop_last(), pattern);
    }
    let f = entries.filter(matches_ignoring_case(pattern));
    assert forall|e: Seq<char>| f.contains(e) <==> entries.contains(e) && contains_spec(
        lowercase_of(e),
        lowercase_of(pattern),
    ) by {
        if f.contains(e) {
            entries.lemma_filter_contains_rev(matches_ignoring_case(pattern), e);
        }
        if entries.contains(e) && contains_spec(lowercase_of(e), lowercase_of(pattern)) {
            let k = choose|k: int| 0 <= k < entries.len() && entries[k] == e;
            entries.lemma_filter_contains(matches_ignoring_case(pattern), k);
        }
    }
}

/// An entry that a history file stores and reads back as it is: not empty,
/// without a line break, not ending in a carriage return.
pub open spec fn storable(e: Seq<char>) -> bool {
    e.len() > 0 && !e.contains('\n') && e.last() != '\r'
}

proof fn lemma_split_append(s: Seq<char>, t: Seq<char>, sep: char)
    requires
        !t.contains(sep),
    ensures
        crate::text::split_spec(s + t, sep) == crate::text::split_spec(s, sep).update(
            crate::text::split_spec(s, sep).len() - 1,
            crate::text::split_spec(s, sep).last() + t,
        ),
    decreases t.len(),
{
    crate::text::lemma_split_nonempty(s, sep);
    let r0 = crate::text::split_spec(s, sep);
    if t.len() == 0 {
        assert(s + t =~= s);
        assert(r0.last() + t =~= r0.last());
        assert(r0.update(r0.len() - 1, r0.last()) =~= r0);
    } else {
        let td = t.drop_last();
        assert(!td.contains(sep)) by {
            if td.contains(sep) {
                let k = choose|k: int| 0 <= k < td.len() && td[k] == sep;
                assert(t[k] == sep);
            }
        }
        lemma_split_append(s, td, sep);
        assert((s + t).drop_last() =~= s + td);
        assert((s + t).last() == t.last());
        assert(t.last() != sep) by {
            assert(t[t.len() - 1] == t.last());
        }
        let r = crate::text::split_spec(s + td, sep);
        assert(r.len() == r0.len());
        assert(r.last() == r0.last() + td);
        assert(r.last().push(t.last()) =~= r0.last() + t);
        assert(r.update(r.len() - 1, r.last().push(t.last())) =~= r0.update(
            r0.len() - 1,
            r0.last() + t,
        ));
    }
}

proof fn lemma_split_file_text(entries: Seq<Seq<char>>)
    requires
        forall|k: int| 0 <= k < entries.len() ==> storable(#[trigger] entries[k]),
    ensures
        crate::text::split_spec(file_text(entries), '\n') == entries.push(Seq::<char>::empty()),
    decreases entries.len(),
{
    reveal_strlit("\n");
    if entries.len() == 0 {
        assert(crate::text::split_spec(Seq::<char>::empty(), '\n') =~= seq![Seq::<char>::empty()]);
        assert(entries.push(Seq::<char>::empty()) =~= seq![Seq::<char>::empty()]);
    } else {
        let prev = entries.drop_last();
        let e = entries.last();
        assert(storable(entries[entries.len() - 1]));
        lemma_split_file_text(prev);
        let base = file_text(prev);
        lemma_split_append(base, e, '\n');
        let t = base + e + "\n"@;
        assert(t.drop_last() =~= base + e);
        assert(t.last() == '\n');
        let before = crate::text::split_spec(base, '\n');
        assert(before.update(before.len() - 1, before.last() + e) =~= prev.push(e));
        assert(prev.push(e) =~= entries);
    }
}

proof fn lemma_keep_all_nonempty(s: Seq<Seq<char>>)
    requires
        forall|k: int| 0 <= k < s.len() ==> (#[trigger] s[k]).len() > 0,
    ensures
        crate::text::keep_nonempty(s) == s,
    decreases s.len(),
{
    if s.len() > 0 {
        lemma_keep_all_nonempty(s.drop_last());
        assert(s.drop_last().push(s.last()) =~= s);
    }
}

/// Law: what the history file holds reads back as the same entries, when every
/// entry is storable (not empty, no line break, no trailing carriage return).
pub proof fn law_history_file_roundtrip(entries: Seq<Seq<char>>)
    requires
        forall|k: int| 0 <= k < entries.len() ==> storable(#[trigger] entries[k]),
    ensures
        nonempty_lines(file_text(entries)) == entries,
{
    lemma_split_file_text(entries);
    let p = entries.push(Seq::<char>::empty());
    assert(p.drop_last() =~= entries);
    assert(entries.map_values(|l: Seq<char>| crate::text::strip_cr_spec(l)) =~= entries) by {
        assert forall|k: int| 0 <= k < entries.len() implies crate::text::strip_cr_spec(entries[k])
            == entries[k] by {
            assert(storable(entries[k]));
        }
    }
    assert(crate::text::lines_spec(file_text(entries)) == entries);
    assert forall|k: int| 0 <= k < entries.len() implies (#[trigger] entries[k]).len() > 0 by {
        assert(storable(entries[k]));
    }
    lemma_keep_all_nonempty(entries);
}

} // verus!
