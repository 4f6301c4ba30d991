//! ripgrep context: the definitions in the changed files.
use vstd::prelude::*;

use crate::text::{trim, trim_spec, views};

verus! {

/// Printed (on the error output) when the tool is not installed.
pub const RG_MISSING_HINT: &'static str = "建议安装 ripgrep (rg) 以获得更精准的 commit 消息";

/// Default pattern: lines that start a definition in common languages.
pub const DEFAULT_PATTERN: &'static str = "^(func|function|def|class|type|struct|interface|impl|fn|pub|export|const|let|var|module|trait|enum)\\b";

/// The `rg` arguments for the changed files: line numbers, the pattern (the
/// default one when none is given), then the files; nothing to run when no
/// file changed.
pub open spec fn rg_args_spec(files: Seq<Seq<char>>, pattern: Seq<char>) -> Option<Seq<Seq<char>>> {
    if files.len() == 0 {
        None
    } else {
        Some(
            seq![
                "--line-number"@,
                "-e"@,
                if pattern.len() == 0 {
                    DEFAULT_PATTERN@
                } else {
                    pattern
                },
            ] + files,
        )
    }
}

/// The `rg` command line for the changed files.
pub fn rg_args(files: &[String], pattern: &str) -> (r: Option<Vec<String>>)
    ensures
        match r {
            Some(a) => rg_args_spec(views(files@), pattern@) == Some(views(a@)),
            None => rg_args_spec(views(files@), pattern@) is None,
        },
{
    if files.len() == 0 {
        return None;
    }
    let mut args: Vec<String> = Vec::new();
    args.push(String::from_str("--line-number"));
    args.push(String::from_str("-e"));
    args.push(
        if pattern.is_empty() {
            String::from_str(DEFAULT_PATTERN)
        } else {
            String::from_str(pattern)
        },
    );
    let ghost head = views(args@);
    let n = files.len();
    let mut i: usize = 0;
    assert(views(files@).take(0) =~= Seq::<Seq<char>>::empty());
    assert(views(args@) =~= head + views(files@).take(0));
    while i < n
        invariant
            i <= n == files@.len(),
            views(args@) == head + views(files@).take(i as int),
        decreases n - i,
    {
        let f = files[i].clone();
        let ghost before = args@;
        args.push(f);
        assert(views(args@) =~= views(before).push(f@));
        assert(views(files@).take(i + 1) =~= views(files@).take(i as int).push(f@));
        assert(views(args@) =~= head + views(files@).take(i + 1));
        i = i + 1;
    }
    assert(views(files@).take(n as int) =~= views(files@));
    Some(args)
}

/// The context from `rg`'s output: the output, trimmed.
pub fn rg_output(stdout: &str) -> (r: String)
    ensures
        r@ == trim_spec(stdout@),
{
    trim(stdout)
}

} // verus!
