//! The project directories offered to the model: which are skipped and how
//! the list is ordered.
use vstd::prelude::*;

use crate::text::{str_eq, to_chars, views};

verus! {

/// Names of directories skipped even when git does not ignore them.
pub open spec fn noise_names() -> Seq<Seq<char>> {
    seq!["node_modules"@, "target"@, "dist"@, "vendor"@, "out"@]
}

/// A directory is skipped when hidden (its name starts with `.`) or noise.
pub open spec fn skipped_name(name: Seq<char>) -> bool {
    (name.len() > 0 && name[0] == '.') || noise_names().contains(name)
}

/// Whether a directory of this name is left out of the listing.
pub fn is_skipped_dir(name: &str) -> (r: bool)
    ensures
        r == skipped_name(name@),
{
    let v = to_chars(name);
    if v.len() > 0 && v[0] == '.' {
        return true;
    }
    proof {
        reveal_strlit("node_modules");
        reveal_strlit("target");
        reveal_strlit("dist");
        reveal_strlit("vendor");
        reveal_strlit("out");
    }
    let noise = str_eq(name, "node_modules") || str_eq(name, "target") || str_eq(name, "dist")
        || str_eq(name, "vendor") || str_eq(name, "out");
    assert(noise_names().contains(name@) <==> (name@ == "node_modules"@ || name@ == "target"@
        || name@ == "dist"@ || name@ == "vendor"@ || name@ == "out"@)) by {
        if noise_names().contains(name@) {
            let k = choose|k: int| 0 <= k < noise_names().len() && noise_names()[k] == name@;
            assert(k == 0 || k == 1 || k == 2 || k == 3 || k == 4);
        }
        if name@ == "node_modules"@ {
            assert(noise_names()[0] == name@);
        }
        if name@ == "target"@ {
            assert(noise_names()[1] == name@);
        }
        if name@ == "dist"@ {
            assert(noise_names()[2] == name@);
        }
        if name@ == "vendor"@ {
            assert(noise_names()[3] == name@);
        }
        if name@ == "out"@ {
            assert(noise_names()[4] == name@);
        }
    }
    noise
}

/// Text order: character by character (code points), a prefix first. This is
/// the order of `String`.
pub open spec fn text_less(a: Seq<char>, b: Seq<char>) -> bool
    decreases a.len(),
{
    if a.len() == 0 {
        b.len() > 0
    } else if b.len() == 0 {
        false
    } else if a[0] != b[0] {
        (a[0] as u32) < (b[0] as u32)
    } else {
        text_less(a.drop_first(), b.drop_first())
    }
}

proof fn lemma_text_less_irreflexive(a: Seq<char>)
    ensures
        !text_less(a, a),
    decreases a.len(),
{
    if a.len() > 0 {
        lemma_text_less_irreflexive(a.drop_first());
    }
}

proof fn lemma_text_less_total(a: Seq<char>, b: Seq<char>)
    ensures
        a == b || text_less(a, b) || text_less(b, a),
    decreases a.len(),
{
    if a.len() > 0 && b.len() > 0 {
        if a[0] == b[0] {
            lemma_text_less_total(a.drop_first(), b.drop_first());
            if a.drop_first() == b.drop_first() {
                assert(a =~= seq![a[0]] + a.drop_first());
                assert(b =~= seq![b[0]] + b.drop_first());
            }
        } else if (a[0] as u32) == (b[0] as u32) {
            vstd::utf8::char_u32_cast(a[0], a[0] as u32);
            vstd::utf8::char_u32_cast(b[0], b[0] as u32);
        }
    } else if a.len() == 0 && b.len() == 0 {
        assert(a =~= b);
    }
}

proof fn lemma_text_less_trans(a: Seq<char>, b: Seq<char>, c: Seq<char>)
    requires
        text_less(a, b),
        text_less(b, c),
    ensures
        text_less(a, c),
    decreases a.len(),
{
    if a.len() > 0 && b.len() > 0 && c.len() > 0 {
        if a[0] == b[0] && b[0] == c[0] {
            lemma_text_less_trans(a.drop_first(), b.drop_first(), c.drop_first());
        }
    }
}

/// Compares two texts in text order.
pub fn text_lt(a: &str, b: &str) -> (r: bool)
    ensures
        r == text_less(a@, b@),
{
    let x = to_chars(a);
    let y = to_chars(b);
    let n = x.len();
    let m = y.len();
    let mut i: usize = 0;
    assert(x@.skip(0) =~= x@ && y@.skip(0) =~= y@);
    while i < n && i < m
        invariant
            i <= n == x@.len(),
            i <= m == y@.len(),
            x@ == a@,
            y@ == b@,
            text_less(x@, y@) == text_less(x@.skip(i as int), y@.skip(i as int)),
        decreases n - i,
    {
        let c = x[i];
        let d = y[i];
        assert(x@.skip(i as int)[0] == c && y@.skip(i as int)[0] == d);
        if c != d {
            let lt = (c as u32) < (d as u32);
            assert(x@.skip(i as int).len() > 0 && y@.skip(i as int).len() > 0);
            assert(text_less(x@.skip(i as int), y@.skip(i as int)) == lt);
            return lt;
        }
        assert(x@.skip(i as int).drop_first() =~= x@.skip(i + 1));
        assert(y@.skip(i as int).drop_first() =~= y@.skip(i + 1));
        i = i + 1;
    }
    i == n && i < m
}

/// Strictly increasing in text order (so without duplicates).
pub open spec fn strictly_sorted(s: Seq<Seq<char>>) -> bool {
    forall|i: int, j: int| 0 <= i < j < s.len() ==> text_less(#[trigger] s[i], #[trigger] s[j])
}

/// The directories in text order, each once (`sort` then `dedup`).
pub fn sort_unique(dirs: Vec<String>) -> (r: Vec<String>)
    ensures
        strictly_sorted(views(r@)),
        views(r@).to_set() == views(dirs@).to_set(),
{
    let n = dirs.len();
    let mut out: Vec<String> = Vec::new();
    let mut i: usize = 0;
    assert(views(out@).to_set() =~= views(dirs@).take(0).to_set());
    while i < n
        invariant
            i <= n == dirs@.len(),
            strictly_sorted(views(out@)),
            views(out@).to_set() == views(dirs@).take(i as int).to_set(),
        decreases n - i,
    {
        let d = dirs[i].clone();
        let m = out.len();
        let mut p: usize = 0;
        while p < m && text_lt(out[p].as_str(), d.as_str())
            invariant
                p <= m == out@.len(),
                forall|k: int| 0 <= k < p ==> text_less(#[trigger] out@[k]@, d@),
            decreases m - p,
        {
            p = p + 1;
        }
        let ghost before = views(out@);
        assert(d@ == views(dirs@)[i as int]);
        assert(views(dirs@).take(i + 1) =~= views(dirs@).take(i as int).push(d@));
        proof {
            views(dirs@).take(i as int).lemma_push_to_set_commute(d@);
        }
        if p < m && str_eq(out[p].as_str(), d.as_str()) {
            assert(before[p as int] == d@);
            assert(before.to_set().insert(d@) =~= before.to_set());
        } else {
            proof {
                if p < m {
                    lemma_text_less_total(before[p as int], d@);
                }
                assert forall|k: int| p <= k < m implies text_less(d@, #[trigger] before[k]) by {
                    if k > p {
                        assert(text_less(before[p as int], before[k]));
                        lemma_text_less_trans(d@, before[p as int], before[k]);
                    }
                }
            }
            let ghost dm = d@;
            out.insert(p, d);
            let ghost after = views(out@);
            assert(after =~= before.insert(p as int, dm));
            assert forall|a: int, b: int| 0 <= a < b < after.len() implies text_less(
                #[trigger] after[a],
                #[trigger] after[b],
            ) by {
                if b < p {
                    assert(after[a] == before[a] && after[b] == before[b]);
                } else if b == p {
                    assert(after[a] == before[a]);
                    assert(text_less(out@[a]@, dm));
                } else if a < p {
                    assert(after[a] == before[a] && after[b] == before[b - 1]);
                    assert(text_less(before[a], dm));
                    assert(text_less(dm, before[b - 1]));
                    lemma_text_less_trans(before[a], dm, before[b - 1]);
                } else if a == p {
                    assert(after[b] == before[b - 1]);
                } else {
                    assert(after[a] == before[a - 1] && after[b] == before[b - 1]);
                }
            }
            assert(after.to_set() =~= before.to_set().insert(dm)) by {
                assert forall|x: Seq<char>| after.to_set().contains(x) <==> before.to_set().insert(
                    dm,
                ).contains(x) by {
                    if after.to_set().contains(x) {
                        let k = choose|k: int| 0 <= k < after.len() && after[k] == x;
                        if k < p {
                            assert(after[k] == before[k]);
                        } else if k > p {
                            assert(after[k] == before[k - 1]);
                        }
                    }
                    if before.to_set().contains(x) {
                        let k = choose|k: int| 0 <= k < before.len() && before[k] == x;
                        if k < p {
                            assert(after[k] == before[k]);
                        } else {
                            assert(after[k + 1] == before[k]);
                        }
                    }
                    if x == dm {
                        assert(after[p as int] == dm);
                    }
                }
            }
        }
        i = i + 1;
    }
    assert(views(dirs@).take(n as int) =~= views(dirs@));
    out
}

} // verus!
