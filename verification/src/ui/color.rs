//! ANSI colours for terminal output.
use vstd::prelude::*;

verus! {

/// `s` wrapped in the SGR sequence `code` and the reset sequence.
pub open spec fn paint_spec(code: Seq<char>, s: Seq<char>) -> Seq<char> {
    "\x1b["@ + code + "m"@ + s + "\x1b[0m"@
}

/// `s` wrapped in the SGR sequence `code` and the reset sequence.
pub fn paint(code: &str, s: &str) -> (r: String)
    ensures
        r@ == paint_spec(code@, s@),
{
    let mut r = String::from_str("\x1b[");
    r.append(code);
    r.append("m");
    r.append(s);
    r.append("\x1b[0m");
    r
}

pub fn red(s: &str) -> (r: String)
    ensures
        r@ == paint_spec("31"@, s@),
{
    paint("31", s)
}

pub fn green(s: &str) -> (r: String)
    ensures
        r@ == paint_spec("32"@, s@),
{
    paint("32", s)
}

pub fn yellow(s: &str) -> (r: String)
    ensures
        r@ == paint_spec("33"@, s@),
{
    paint("33", s)
}

pub fn cyan(s: &str) -> (r: String)
    ensures
        r@ == paint_spec("36"@, s@),
{
    paint("36", s)
}

pub fn gray(s: &str) -> (r: String)
    ensures
        r@ == paint_spec("90"@, s@),
{
    paint("90", s)
}

pub fn bold(s: &str) -> (r: String)
    ensures
        r@ == paint_spec("1"@, s@),
{
    paint("1", s)
}

pub fn bold_cyan(s: &str) -> (r: String)
    ensures
        r@ == paint_spec("1;36"@, s@),
{
    paint("1;36", s)
}

} // verus!
