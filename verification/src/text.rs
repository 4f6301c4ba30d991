//! Text primitives over `Seq<char>` models: trimming, splitting, joining, searching.
use vstd::prelude::*;

use crate::model::Model;

verus! {

/// Unicode `White_Space` property (the set `char::is_whitespace` tests).
pub open spec fn is_ws(c: char) -> bool {
    let u = c as u32;
    ||| (0x9 <= u && u <= 0xd)
    ||| u == 0x20
    ||| u == 0x85
    ||| u == 0xa0
    ||| u == 0x1680
    ||| (0x2000 <= u && u <= 0x200a)
    ||| u == 0x2028
    ||| u == 0x2029
    ||| u == 0x202f
    ||| u == 0x205f
    ||| u == 0x3000
}

pub open spec fn trim_start_spec(s: Seq<char>) -> Seq<char>
    decreases s.len(),
{
    if s.len() > 0 && is_ws(s[0]) {
        trim_start_spec(s.drop_first())
    } else {
        s
    }
}

pub open spec fn trim_end_spec(s: Seq<char>) -> Seq<char>
    decreases s.len(),
{
    if s.len() > 0 && is_ws(s.last()) {
        trim_end_spec(s.drop_last())
    } else {
        s
    }
}

/// What `str::trim` leaves: leading and trailing white space removed.
pub open spec fn trim_spec(s: Seq<char>) -> Seq<char> {
    trim_end_spec(trim_start_spec(s))
}

/// Whether `c` has the Unicode `White_Space` property.
pub fn is_whitespace(c: char) -> (b: bool)
    ensures
        b == is_ws(c),
{
    let u = c as u32;
    (0x9 <= u && u <= 0xd) || u == 0x20 || u == 0x85 || u == 0xa0 || u == 0x1680 || (0x2000 <= u
        && u <= 0x200a) || u == 0x2028 || u == 0x2029 || u == 0x202f || u == 0x205f || u == 0x3000
}

/// The characters of `s`, in order.
pub(crate) fn to_chars(s: &str) -> (v: Vec<char>)
    ensures
        v@ == s@,
{
    let mut v: Vec<char> = Vec::new();
    proof {
        vstd::string::axiom_spec_iter(s);
    }
    for c in it: s.chars()
        invariant
            it.seq() == s@,
            v@ == it.seq().take(it.index() as int),
    {
        v.push(c);
        assert(v@ =~= it.seq().take(it.index() + 1));
    }
    assert(v@ =~= s@);
    v
}

/// The string made of the characters of `v`, in order.
#[verifier::external_body]
pub(crate) fn from_chars(v: &[char]) -> (s: String)
    ensures
        s@ == v@,
{
    v.iter().collect()
}

/// Appends one character (`String::push`).
#[verifier::external_body]
pub(crate) fn push_char(s: &mut String, c: char)
    ensures
        final(s)@ == old(s)@.push(c),
{
    s.push(c);
}

proof fn lemma_trim_start_skip(s: Seq<char>, i: int)
    requires
        0 <= i <= s.len(),
        forall|k: int| 0 <= k < i ==> is_ws(#[trigger] s[k]),
    ensures
        trim_start_spec(s) == trim_start_spec(s.skip(i)),
    decreases i,
{
    if i == 0 {
        assert(s.skip(0) =~= s);
    } else {
        assert(is_ws(s[0]));
        let t = s.drop_first();
        assert forall|k: int| 0 <= k < i - 1 implies is_ws(#[trigger] t[k]) by {
            assert(t[k] == s[k + 1]);
        }
        lemma_trim_start_skip(t, i - 1);
        assert(t.skip(i - 1) =~= s.skip(i));
    }
}

proof fn lemma_trim_end_take(s: Seq<char>, j: int)
    requires
        0 <= j <= s.len(),
        forall|k: int| j <= k < s.len() ==> is_ws(#[trigger] s[k]),
    ensures
        trim_end_spec(s) == trim_end_spec(s.take(j)),
    decreases s.len() - j,
{
    if j == s.len() {
        assert(s.take(j) =~= s);
    } else {
        assert(is_ws(s.last()));
        let t = s.drop_last();
        lemma_trim_end_take(t, j);
        assert(t.take(j) =~= s.take(j));
    }
}

/// `str::trim`: the text without leading and trailing white space.
pub fn trim(s: &str) -> (r: String)
    ensures
        r@ == trim_spec(s@),
{
    let v = to_chars(s);
    let n = v.len();
    let mut i: usize = 0;
    while i < n && is_whitespace(v[i])
        invariant
            i <= n,
            n == v@.len(),
            forall|k: int| 0 <= k < i ==> is_ws(#[trigger] v@[k]),
        decreases n - i,
    {
        i = i + 1;
    }
    let mut j: usize = n;
    while j > i && is_whitespace(v[j - 1])
        invariant
            i <= j <= n,
            n == v@.len(),
            forall|k: int| j <= k < n ==> is_ws(#[trigger] v@[k]),
        decreases j,
    {
        j = j - 1;
    }
    proof {
        let sv = s@;
        lemma_trim_start_skip(sv, i as int);
        let t = sv.skip(i as int);
        if i < n {
            assert(!is_ws(sv[i as int]));
            assert(t.len() > 0 && t[0] == sv[i as int]);
        }
        assert(trim_start_spec(t) == t);
        assert forall|k: int| j - i <= k < t.len() implies is_ws(#[trigger] t[k]) by {
            assert(t[k] == sv[k + i]);
        }
        lemma_trim_end_take(t, j - i);
        let u = t.take(j - i);
        if j > i {
            assert(u.last() == sv[j - 1]);
        }
        assert(trim_end_spec(u) == u);
        assert(u =~= sv.subrange(i as int, j as int));
    }
    from_chars(vstd::slice::slice_subrange(v.as_slice(), i, j))
}

/// The views of a sequence of strings.
pub open spec fn views(v: Seq<String>) -> Seq<Seq<char>> {
    v.map_values(|x: String| x@)
}

/// `str::split` on one separator character: the pieces between separators
/// (always at least one piece).
pub open spec fn split_spec(s: Seq<char>, sep: char) -> Seq<Seq<char>>
    decreases s.len(),
{
    if s.len() == 0 {
        seq![Seq::<char>::empty()]
    } else {
        let r = split_spec(s.drop_last(), sep);
        if s.last() == sep {
            r.push(Seq::<char>::empty())
        } else {
            r.update(r.len() - 1, r.last().push(s.last()))
        }
    }
}

pub proof fn lemma_split_nonempty(s: Seq<char>, sep: char)
    ensures
        split_spec(s, sep).len() >= 1,
    decreases s.len(),
{
    if s.len() > 0 {
        lemma_split_nonempty(s.drop_last(), sep);
    }
}

/// Law: text without the separator is one piece, itself.
pub proof fn law_split_without_separator(s: Seq<char>, sep: char)
    requires
        !s.contains(sep),
    ensures
        split_spec(s, sep) == seq![s],
    decreases s.len(),
{
    if s.len() > 0 {
        let d = s.drop_last();
        assert(!d.contains(sep)) by {
            if d.contains(sep) {
                let k = choose|k: int| 0 <= k < d.len() && d[k] == sep;
                assert(s[k] == sep);
            }
        }
        law_split_without_separator(d, sep);
        assert(s.last() != sep) by {
            assert(s[s.len() - 1] == s.last());
        }
        assert(d.push(s.last()) =~= s);
        assert(seq![d].update(0, seq![d].last().push(s.last())) =~= seq![s]);
    } else {
        assert(s =~= Seq::<char>::empty());
    }
}

/// Law: splitting at a separator gives the pieces before it followed by the
/// pieces after it.
pub proof fn law_split_at_separator(a: Seq<char>, b: Seq<char>, sep: char)
    ensures
        split_spec(a + seq![sep] + b, sep) == split_spec(a, sep) + split_spec(b, sep),
    decreases b.len(),
{
    let s = a + seq![sep] + b;
    if b.len() == 0 {
        assert(s.drop_last() =~= a);
        assert(split_spec(a, sep).push(Seq::<char>::empty()) =~= split_spec(a, sep) + split_spec(b, sep));
    } else {
        assert(s.drop_last() =~= a + seq![sep] + b.drop_last());
        law_split_at_separator(a, b.drop_last(), sep);
        lemma_split_nonempty(b.drop_last(), sep);
        let x = split_spec(a, sep);
        let y = split_spec(b.drop_last(), sep);
        assert(s.last() == b.last());
        if b.last() == sep {
            assert((x + y).push(Seq::<char>::empty()) =~= x + y.push(Seq::<char>::empty()));
        } else {
            assert((x + y).update((x + y).len() - 1, (x + y).last().push(b.last())) =~= x + y.update(
                y.len() - 1,
                y.last().push(b.last()),
            ));
        }
    }
}

/// `str::split(sep)` collected into owned strings.
pub fn split_on(s: &str, sep: char) -> (r: Vec<String>)
    ensures
        views(r@) == split_spec(s@, sep),
{
    let v = to_chars(s);
    let n = v.len();
    let mut out: Vec<String> = Vec::new();
    let mut cur: Vec<char> = Vec::new();
    let mut i: usize = 0;
    assert(s@.take(0) =~= Seq::<char>::empty());
    while i < n
        invariant
            i <= n,
            n == v@.len(),
            v@ == s@,
            split_spec(s@.take(i as int), sep) == views(out@).push(cur@),
        decreases n - i,
    {
        let c = v[i];
        let ghost before = s@.take(i as int);
        proof {
            lemma_split_nonempty(before, sep);
            assert(s@.take(i + 1).drop_last() =~= before);
        }
        if c == sep {
            let piece = from_chars(cur.as_slice());
            out.push(piece);
            cur = Vec::new();
            assert(views(out@).push(cur@) =~= views(out@.drop_last()).push(piece@).push(
                Seq::<char>::empty(),
            ));
        } else {
            let ghost old_cur = cur@;
            cur.push(c);
            assert(views(out@).push(cur@) =~= views(out@).push(old_cur).update(
                views(out@).len() as int,
                old_cur.push(c),
            ));
        }
        i = i + 1;
    }
    let last = from_chars(cur.as_slice());
    out.push(last);
    assert(s@.take(n as int) =~= s@);
    assert(views(out@) =~= views(out@.drop_last()).push(last@));
    out
}

/// A line terminator's carriage return removed.
pub open spec fn strip_cr_spec(l: Seq<char>) -> Seq<char> {
    if l.len() > 0 && l.last() == '\r' {
        l.drop_last()
    } else {
        l
    }
}

/// The lines of a text assembled from its `'\n'`-separated pieces.
pub open spec fn lines_of_pieces(p: Seq<Seq<char>>) -> Seq<Seq<char>> {
    let body = p.drop_last().map_values(|l: Seq<char>| strip_cr_spec(l));
    if p.last().len() == 0 {
        body
    } else {
        body.push(p.last())
    }
}

/// What `str::lines` yields: lines split at `"\n"` or `"\r\n"`, the final line
/// ending optional.
pub open spec fn lines_spec(s: Seq<char>) -> Seq<Seq<char>> {
    lines_of_pieces(split_spec(s, '\n'))
}

fn strip_cr(l: &String) -> (r: String)
    ensures
        r@ == strip_cr_spec(l@),
{
    let v = to_chars(l.as_str());
    if v.len() > 0 && v[v.len() - 1] == '\r' {
        from_chars(vstd::slice::slice_subrange(v.as_slice(), 0, v.len() - 1))
    } else {
        l.clone()
    }
}

/// `str::lines` collected into owned strings.
pub fn lines(s: &str) -> (r: Vec<String>)
    ensures
        views(r@) == lines_spec(s@),
{
    let parts = split_on(s, '\n');
    proof {
        lemma_split_nonempty(s@, '\n');
    }
    let n = parts.len();
    let ghost p = views(parts@);
    let mut out: Vec<String> = Vec::new();
    let mut k: usize = 0;
    while k + 1 < n
        invariant
            1 <= n == parts@.len(),
            k + 1 <= n,
            p == views(parts@),
            views(out@) =~= p.drop_last().take(k as int).map_values(|l: Seq<char>| strip_cr_spec(l)),
        decreases n - k,
    {
        let l = strip_cr(&parts[k]);
        let ghost before = views(out@);
        out.push(l);
        proof {
            assert(p[k as int] == parts@[k as int]@);
            assert(views(out@) =~= before.push(l@));
            assert(p.drop_last().take(k + 1).map_values(|l: Seq<char>| strip_cr_spec(l))
                =~= p.drop_last().take(k as int).map_values(|l: Seq<char>| strip_cr_spec(l)).push(
                strip_cr_spec(p[k as int]),
            ));
        }
        k = k + 1;
    }
    assert(p.drop_last().take(k as int) =~= p.drop_last());
    let last = &parts[n - 1];
    if last.as_str().is_empty() {
        assert(p.last().len() == 0);
    } else {
        assert(p.last().len() != 0);
        out.push(last.clone());
    }
    out
}

/// `join(sep)` over pieces.
pub open spec fn join_spec(p: Seq<Seq<char>>, sep: Seq<char>) -> Seq<char>
    decreases p.len(),
{
    if p.len() == 0 {
        Seq::empty()
    } else if p.len() == 1 {
        p[0]
    } else {
        join_spec(p.drop_last(), sep) + sep + p.last()
    }
}

/// `[String]::join(sep)`.
pub fn join(parts: &Vec<String>, sep: &str) -> (r: String)
    ensures
        r@ == join_spec(views(parts@), sep@),
{
    let mut out = String::new();
    let n = parts.len();
    let mut i: usize = 0;
    while i < n
        invariant
            i <= n == parts@.len(),
            out@ == join_spec(views(parts@).take(i as int), sep@),
        decreases n - i,
    {
        let ghost p = views(parts@);
        assert(p.take(i + 1).drop_last() =~= p.take(i as int));
        if i > 0 {
            out.append(sep);
        } else {
            assert(p.take(0) =~= Seq::<Seq<char>>::empty());
        }
        out.append(parts[i].as_str());
        i = i + 1;
    }
    assert(views(parts@).take(n as int) =~= views(parts@));
    out
}

/// Whether `a` and `b` hold the same characters at positions `i..` and `j..`
/// for `len` characters.
fn chars_match(a: &Vec<char>, i: usize, b: &Vec<char>, j: usize, len: usize) -> (r: bool)
    requires
        i + len <= a@.len(),
        j + len <= b@.len(),
    ensures
        r == (a@.subrange(i as int, i + len) == b@.subrange(j as int, j + len)),
{
    let alen = a.len();
    let blen = b.len();
    let mut k: usize = 0;
    while k < len
        invariant
            k <= len,
            alen == a@.len(),
            blen == b@.len(),
            i + len <= a@.len(),
            j + len <= b@.len(),
            a@.subrange(i as int, i + k) == b@.subrange(j as int, j + k),
        decreases len - k,
    {
        if a[i + k] != b[j + k] {
            assert(a@.subrange(i as int, i + len)[k as int] != b@.subrange(j as int, j + len)[k as int]);
            return false;
        }
        assert(a@.subrange(i as int, i + k + 1) =~= a@.subrange(i as int, i + k).push(a@[i + k]));
        assert(b@.subrange(j as int, j + k + 1) =~= b@.subrange(j as int, j + k).push(b@[j + k]));
        k = k + 1;
    }
    true
}

/// Equality of two texts.
pub fn str_eq(a: &str, b: &str) -> (r: bool)
    ensures
        r == (a@ == b@),
{
    let x = to_chars(a);
    let y = to_chars(b);
    if x.len() != y.len() {
        return false;
    }
    let r = chars_match(&x, 0, &y, 0, x.len());
    assert(x@.subrange(0, x@.len() as int) =~= x@);
    assert(y@.subrange(0, y@.len() as int) =~= y@);
    r
}

/// `needle` occurs in `hay` as a contiguous piece.
pub open spec fn contains_spec(hay: Seq<char>, needle: Seq<char>) -> bool {
    exists|i: int|
        0 <= i && i + needle.len() <= hay.len() && #[trigger] hay.subrange(i, i + needle.len())
            == needle
}

/// `str::contains` with a string pattern.
pub fn contains(hay: &str, needle: &str) -> (r: bool)
    ensures
        r == contains_spec(hay@, needle@),
{
    let h = to_chars(hay);
    let n = to_chars(needle);
    if n.len() > h.len() {
        return false;
    }
    let last = h.len() - n.len();
    let mut i: usize = 0;
    while i <= last
        invariant
            last + n@.len() == h@.len(),
            h@ == hay@,
            n@ == needle@,
            forall|k: int| 0 <= k < i ==> #[trigger] h@.subrange(k, k + n@.len()) != n@,
        decreases last + 1 - i,
    {
        if chars_match(&h, i, &n, 0, n.len()) {
            assert(n@.subrange(0, n@.len() as int) =~= n@);
            assert(h@.subrange(i as int, i + n@.len()) == n@);
            return true;
        }
        assert(n@.subrange(0, n@.len() as int) =~= n@);
        if i == last {
            return false;
        }
        i = i + 1;
    }
    false
}

pub open spec fn starts_with_spec(s: Seq<char>, p: Seq<char>) -> bool {
    p.len() <= s.len() && s.take(p.len() as int) == p
}

pub open spec fn ends_with_spec(s: Seq<char>, p: Seq<char>) -> bool {
    p.len() <= s.len() && s.skip(s.len() - p.len()) == p
}

/// `str::strip_prefix`: the rest after `p`, when `s` starts with `p`.
pub fn strip_prefix(s: &str, p: &str) -> (r: Option<String>)
    ensures
        match r {
            Some(t) => starts_with_spec(s@, p@) && t@ == s@.skip(p@.len() as int),
            None => !starts_with_spec(s@, p@),
        },
{
    let x = to_chars(s);
    let y = to_chars(p);
    if y.len() > x.len() {
        return None;
    }
    if chars_match(&x, 0, &y, 0, y.len()) {
        assert(y@.subrange(0, y@.len() as int) =~= y@);
        assert(x@.subrange(0, y@.len() as int) =~= x@.take(y@.len() as int));
        Some(from_chars(vstd::slice::slice_subrange(x.as_slice(), y.len(), x.len())))
    } else {
        assert(y@.subrange(0, y@.len() as int) =~= y@);
        assert(x@.subrange(0, y@.len() as int) =~= x@.take(y@.len() as int));
        None
    }
}

/// `str::strip_suffix`: what precedes `p`, when `s` ends with `p`.
pub fn strip_suffix(s: &str, p: &str) -> (r: Option<String>)
    ensures
        match r {
            Some(t) => ends_with_spec(s@, p@) && t@ == s@.take(s@.len() - p@.len()),
            None => !ends_with_spec(s@, p@),
        },
{
    let x = to_chars(s);
    let y = to_chars(p);
    if y.len() > x.len() {
        return None;
    }
    let start = x.len() - y.len();
    if chars_match(&x, start, &y, 0, y.len()) {
        assert(y@.subrange(0, y@.len() as int) =~= y@);
        assert(x@.subrange(start as int, x@.len() as int) =~= x@.skip(start as int));
        Some(from_chars(vstd::slice::slice_subrange(x.as_slice(), 0, start)))
    } else {
        assert(y@.subrange(0, y@.len() as int) =~= y@);
        assert(x@.subrange(start as int, x@.len() as int) =~= x@.skip(start as int));
        None
    }
}

/// What `char::to_uppercase` yields for `c` (Unicode case mapping).
pub uninterp spec fn upper_of(c: char) -> Seq<char>;

/// What `str::to_lowercase` yields for a text (Unicode case mapping,
/// final-sigma rule included).
pub uninterp spec fn lowercase_of(s: Seq<char>) -> Seq<char>;

/// Calls `char::to_uppercase` and collects the characters it yields; the
/// contract says only that the result is the named mapping of `c`.
#[verifier::external_body]
pub(crate) fn char_to_uppercase(c: char) -> (r: String)
    ensures
        r@ == upper_of(c),
{
    c.to_uppercase().collect()
}

/// Calls `str::to_lowercase`; the contract says only that the result is the
/// named mapping of the whole text.
#[verifier::external_body]
pub(crate) fn to_lowercase(s: &str) -> (r: String)
    ensures
        r@ == lowercase_of(s@),
{
    s.to_lowercase()
}

/// First character upper-cased, the rest unchanged.
pub open spec fn capitalize_spec(s: Seq<char>) -> Seq<char> {
    if s.len() == 0 {
        s
    } else {
        upper_of(s[0]) + s.drop_first()
    }
}

/// Upper-cases the first character of `s` and keeps the rest.
pub fn capitalize(s: &str) -> (r: String)
    ensures
        r@ == capitalize_spec(s@),
{
    let v = to_chars(s);
    if v.len() == 0 {
        return String::new();
    }
    let mut r = char_to_uppercase(v[0]);
    let rest = from_chars(vstd::slice::slice_subrange(v.as_slice(), 1, v.len()));
    r.append(rest.as_str());
    assert(v@.subrange(1, v@.len() as int) =~= s@.drop_first());
    r
}

/// Markdown table cell holding a back-quoted word: `| `feat` |`.
pub const TYPE_CELL_PATTERN: &'static str = r"\|\s*`([^`]+)`\s*\|";

/// Conventional-commit subject with a scope: `type(scope):`.
pub const HISTORY_SCOPE_PATTERN: &'static str = r"^[^(]+\(([^)]+)\):";

/// The patterns the library matches with; each compiles, and its group 1 takes
/// part in every match.
pub open spec fn is_library_pattern(p: Seq<char>) -> bool {
    p == TYPE_CELL_PATTERN@ || p == HISTORY_SCOPE_PATTERN@
}

/// The text of capture group 1 of each successive non-overlapping match of
/// `pattern` in `text` (regex semantics of the `regex` crate).
pub uninterp spec fn regex_all_group1(pattern: Seq<char>, text: Seq<char>) -> Seq<Seq<char>>;

/// The text of capture group 1 of the leftmost match of `pattern` in `text`,
/// if any.
pub uninterp spec fn regex_first_group1(pattern: Seq<char>, text: Seq<char>) -> Option<Seq<char>>;

/// Compiles `pattern` with `regex::Regex::new` and collects group 1 of every
/// match from `Regex::captures_iter`. The contract claims only that the result
/// is the named function of the pattern and the text; the pattern is one of the
/// library's, which compile and always fill group 1.
#[verifier::external_body]
pub(crate) fn regex_captures_all(pattern: &str, text: &str) -> (r: Vec<String>)
    requires
        is_library_pattern(pattern@),
    ensures
        views(r@) == regex_all_group1(pattern@, text@),
{
    let re = regex::Regex::new(pattern).unwrap();
    re.captures_iter(text).map(|c| c[1].to_string()).collect()
}

/// Compiles `pattern` with `regex::Regex::new` and returns group 1 of the
/// leftmost match from `Regex::captures`. The contract claims only that the
/// result is the named function of the pattern and the text.
#[verifier::external_body]
pub(crate) fn regex_captures_first(pattern: &str, text: &str) -> (r: Option<String>)
    requires
        is_library_pattern(pattern@),
    ensures
        r.model() == regex_first_group1(pattern@, text@),
{
    let re = regex::Regex::new(pattern).unwrap();
    re.captures(text).map(|c| c[1].to_string())
}

/// The non-empty texts of a sequence, in order.
pub open spec fn keep_nonempty(s: Seq<Seq<char>>) -> Seq<Seq<char>>
    decreases s.len(),
{
    if s.len() == 0 {
        s
    } else if s.last().len() == 0 {
        keep_nonempty(s.drop_last())
    } else {
        keep_nonempty(s.drop_last()).push(s.last())
    }
}

/// `needle` occurs in `hay` at position `i`.
pub open spec fn occurs_at(hay: Seq<char>, needle: Seq<char>, i: int) -> bool {
    0 <= i && i + needle.len() <= hay.len() && hay.subrange(i, i + needle.len()) == needle
}

/// The position of the first occurrence of `needle` in `hay` (`str::find`).
#[verifier::opaque]
pub open spec fn find_spec(hay: Seq<char>, needle: Seq<char>) -> Option<int> {
    if exists|i: int| #[trigger] occurs_at(hay, needle, i) {
        Some(
            choose|i: int|
                #[trigger] occurs_at(hay, needle, i) && forall|j: int|
                    0 <= j < i ==> !occurs_at(hay, needle, j),
        )
    } else {
        None
    }
}

/// The position (in characters) of the first occurrence of `needle` in `hay`.
pub fn find(hay: &Vec<char>, needle: &Vec<char>) -> (r: Option<usize>)
    ensures
        r.model() == find_spec(hay@, needle@),
        r matches Some(i) ==> occurs_at(hay@, needle@, i as int),
{
    reveal(find_spec);
    if needle.len() > hay.len() {
        assert(!exists|i: int| #[trigger] occurs_at(hay@, needle@, i));
        return None;
    }
    let last = hay.len() - needle.len();
    let mut i: usize = 0;
    while i <= last
        invariant
            last + needle@.len() == hay@.len(),
            forall|k: int| 0 <= k < i ==> !#[trigger] occurs_at(hay@, needle@, k),
        decreases last + 1 - i,
    {
        reveal(find_spec);
        if chars_match(hay, i, needle, 0, needle.len()) {
            assert(needle@.subrange(0, needle@.len() as int) =~= needle@);
            assert(occurs_at(hay@, needle@, i as int));
            let ghost c = choose|c: int|
                #[trigger] occurs_at(hay@, needle@, c) && forall|j: int|
                    0 <= j < c ==> !occurs_at(hay@, needle@, j);
            assert(c == i) by {
                if c < i {
                    assert(!occurs_at(hay@, needle@, c));
                }
                if c > i {
                    assert(!occurs_at(hay@, needle@, i as int));
                }
            }
            return Some(i);
        }
        assert(needle@.subrange(0, needle@.len() as int) =~= needle@);
        if i == last {
            assert forall|k: int| #[trigger] occurs_at(hay@, needle@, k) implies false by {
                assert(k <= last);
            }
            return None;
        }
        i = i + 1;
    }
    None
}


/// The decimal digit character for `d` (0 to 9).
pub open spec fn digit_char(d: int) -> char {
    if d == 0 {
        '0'
    } else if d == 1 {
        '1'
    } else if d == 2 {
        '2'
    } else if d == 3 {
        '3'
    } else if d == 4 {
        '4'
    } else if d == 5 {
        '5'
    } else if d == 6 {
        '6'
    } else if d == 7 {
        '7'
    } else if d == 8 {
        '8'
    } else {
        '9'
    }
}

/// The decimal notation of `n`, without leading zeros.
pub open spec fn decimal_spec(n: nat) -> Seq<char>
    decreases n,
{
    if n < 10 {
        seq![digit_char(n as int)]
    } else {
        decimal_spec(n / 10).push(digit_char((n % 10) as int))
    }
}

fn digit(d: usize) -> (c: char)
    requires
        d < 10,
    ensures
        c == digit_char(d as int),
{
    if d == 0 {
        '0'
    } else if d == 1 {
        '1'
    } else if d == 2 {
        '2'
    } else if d == 3 {
        '3'
    } else if d == 4 {
        '4'
    } else if d == 5 {
        '5'
    } else if d == 6 {
        '6'
    } else if d == 7 {
        '7'
    } else if d == 8 {
        '8'
    } else {
        '9'
    }
}

/// Formats `n` in decimal (what `{}` prints for an integer).
pub fn decimal(n: usize) -> (r: String)
    ensures
        r@ == decimal_spec(n as nat),
    decreases n,
{
    if n < 10 {
        let mut r = String::new();
        push_char(&mut r, digit(n));
        r
    } else {
        let mut r = decimal(n / 10);
        push_char(&mut r, digit(n % 10));
        r
    }
}

/// The whitespace-separated words of `s`, in order (`str::split_whitespace`).
pub open spec fn words_spec(s: Seq<char>) -> Seq<Seq<char>>
    decreases s.len(),
{
    if s.len() == 0 {
        Seq::empty()
    } else {
        let prev = words_spec(s.drop_last());
        let c = s.last();
        if is_ws(c) {
            prev
        } else if s.len() >= 2 && !is_ws(s[s.len() - 2]) {
            prev.drop_last().push(prev.last().push(c))
        } else {
            prev.push(seq![c])
        }
    }
}

/// Splits `s` at runs of whitespace, dropping empty pieces.
pub fn split_whitespace(s: &str) -> (r: Vec<String>)
    ensures
        views(r@) == words_spec(s@),
{
    let v = to_chars(s);
    let n = v.len();
    let mut out: Vec<String> = Vec::new();
    let mut cur: Vec<char> = Vec::new();
    let mut i: usize = 0;
    assert(v@.take(0) =~= Seq::<char>::empty());
    while i < n
        invariant
            i <= n == v@.len(),
            v@ == s@,
            cur@.len() > 0 ==> (i > 0 && !is_ws(v@[i - 1])),
            cur@.len() == 0 ==> (i == 0 || is_ws(v@[i - 1])),
            cur@.len() == 0 ==> views(out@) == words_spec(v@.take(i as int)),
            cur@.len() > 0 ==> views(out@).push(cur@) == words_spec(v@.take(i as int)),
        decreases n - i,
    {
        let c = v[i];
        assert(v@.take(i + 1).drop_last() =~= v@.take(i as int));
        assert(v@.take(i + 1).last() == c);
        if is_whitespace(c) {
            if cur.len() > 0 {
                let w = from_chars(cur.as_slice());
                let ghost before = out@;
                out.push(w);
                assert(views(out@) =~= views(before).push(cur@));
                cur = Vec::new();
            }
        } else {
            let ghost old_cur = cur@;
            let had = cur.len() > 0;
            cur.push(c);
            if had {
                assert(v@.take(i + 1)[i - 1] == v@[i - 1]);
                let ghost w = words_spec(v@.take(i as int));
                assert(w.drop_last() =~= views(out@));
                assert(w.last() == old_cur);
                assert(words_spec(v@.take(i + 1)) == w.drop_last().push(w.last().push(c)));
                assert(views(out@).push(cur@) =~= w.drop_last().push(w.last().push(c)));
            } else {
                if i > 0 {
                    assert(v@.take(i + 1)[i - 1] == v@[i - 1]);
                }
                assert(cur@ =~= seq![c]);
                assert(words_spec(v@.take(i + 1)) == words_spec(v@.take(i as int)).push(seq![c]));
            }
        }
        i = i + 1;
    }
    assert(v@.take(n as int) =~= s@);
    if cur.len() > 0 {
        let w = from_chars(cur.as_slice());
        let ghost before = out@;
        out.push(w);
        assert(views(out@) =~= views(before).push(cur@));
    }
    out
}

} // verus!
