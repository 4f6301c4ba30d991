//! Code search context for the model (ripgrep / fd), and how the two are
//! combined.
pub mod fd;
pub mod rg;

use vstd::prelude::*;

verus! {

/// Code search backend (ripgrep and fd in the application; replaceable in
/// tests).
pub trait SearchBackend {
    fn rg_context(&self, files: &[String], pattern: &str) -> String;

    fn fd_context(&self, files: &[String], pattern: &str) -> String;
}

/// The combined context: the structure section (when the rg part is not
/// empty), then the related-files section (when the fd part is not empty).
pub open spec fn merge_context_spec(rg: Seq<char>, fd: Seq<char>) -> Seq<char> {
    let a = if rg.len() == 0 {
        Seq::empty()
    } else {
        "---\n变更文件结构上下文:\n"@ + rg
    };
    if fd.len() == 0 {
        a
    } else {
        a + (if a.len() == 0 {
            Seq::empty()
        } else {
            "\n"@
        }) + "---\n关联文件上下文:\n"@ + fd
    }
}

/// Combines the ripgrep and fd context into one text for the model.
pub fn merge_context(rg: &str, fd: &str) -> (r: String)
    ensures
        r@ == merge_context_spec(rg@, fd@),
{
    let mut result = String::new();
    if !rg.is_empty() {
        result.append("---\n变更文件结构上下文:\n");
        result.append(rg);
    }
    if !fd.is_empty() {
        if !result.as_str().is_empty() {
            result.append("\n");
        }
        result.append("---\n关联文件上下文:\n");
        result.append(fd);
    }
    result
}

} // verus!
