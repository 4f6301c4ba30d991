//! Git: the backend interface, the project scope file and its update.
pub mod dirs;
pub mod init;
pub mod project;
pub mod update;

use vstd::prelude::*;

use crate::error::AgcError;
use crate::model::Model;

verus! {

/// The git operations the workflow needs (implemented over the `git` command
/// by the application; replaceable in tests).
pub trait GitBackend {
    fn diff(&self) -> Result<String, AgcError>;

    fn changed_files(&self) -> Result<Vec<String>, AgcError>;

    fn status_short(&self) -> Result<String, AgcError>;

    fn diff_stat(&self) -> Result<String, AgcError>;

    fn diff_cached_stat(&self) -> Result<String, AgcError>;

    fn ls_untracked(&self) -> Result<Vec<String>, AgcError>;

    fn untracked_content(&self, paths: &[String]) -> String;

    /// Whether `r` is an answer this backend gives to `call`: each call that
    /// changes the repository answers for the call it was asked to make. The
    /// default relates nothing (every answer is possible); a verified backend
    /// may state more. For a backend not known here it is left open, so a
    /// caller's contract over it names the very call that was made.
    open spec fn answers(&self, call: GitCallModel, r: Result<(), AgcError>) -> bool {
        true
    }

    fn stage_all(&self) -> (r: Result<(), AgcError>)
        ensures
            self.answers(GitCallModel::StageAll, r),
    ;

    fn stage_files(&self, files: &[String]) -> (r: Result<(), AgcError>)
        ensures
            self.answers(GitCallModel::StageFiles(crate::text::views(files@)), r),
    ;

    fn commit(&self, msg: &str) -> (r: Result<(), AgcError>)
        ensures
            self.answers(GitCallModel::Commit(msg@), r),
    ;

    fn push(&self, remote: &str, branch: &str) -> (r: Result<(), AgcError>)
        ensures
            self.answers(GitCallModel::Push(remote@, branch@), r),
    ;
}

/// The model of a git call that changes the repository.
pub enum GitCallModel {
    StageFiles(Seq<Seq<char>>),
    StageAll,
    Commit(Seq<char>),
    Push(Seq<char>, Seq<char>),
}

/// A git call that changes the repository, as handed to the backend.
pub enum GitCall {
    /// `stage_files(files)`.
    StageFiles(Vec<String>),
    /// `stage_all()`.
    StageAll,
    /// `commit(message)`.
    Commit(String),
    /// `push(remote, branch)`.
    Push(String, String),
}

impl crate::model::Model for GitCall {
    type M = GitCallModel;

    open spec fn model(&self) -> GitCallModel {
        match self {
            GitCall::StageFiles(f) => GitCallModel::StageFiles(crate::text::views(f@)),
            GitCall::StageAll => GitCallModel::StageAll,
            GitCall::Commit(m) => GitCallModel::Commit(m@),
            GitCall::Push(r, b) => GitCallModel::Push(r@, b@),
        }
    }
}

/// The model of a recorded git call: the call and what the backend answered.
pub struct GitRecordModel {
    pub call: GitCallModel,
    pub result: Result<(), AgcError>,
}

/// A git call that was made and what the backend answered.
pub struct GitRecord {
    pub call: GitCall,
    pub result: Result<(), AgcError>,
}

impl Model for GitRecord {
    type M = GitRecordModel;

    open spec fn model(&self) -> GitRecordModel {
        GitRecordModel { call: self.call.model(), result: self.result }
    }
}

/// Every recorded answer is one `git` gives to its call.
pub open spec fn answered_by<G: GitBackend + ?Sized>(git: &G, log: Seq<GitRecordModel>) -> bool {
    forall|i: int| 0 <= i < log.len() ==> git.answers((#[trigger] log[i]).call, log[i].result)
}

/// Makes `call` and records it with the backend's answer; returns the answer.
pub fn perform_recorded<G: GitBackend + ?Sized>(git: &G, call: GitCall, log: &mut Vec<GitRecord>) -> (r: Result<(), AgcError>)
    ensures
        final(log).model() == old(log).model().push(GitRecordModel { call: call.model(), result: r }),
        git.answers(call.model(), r),
{
    let r = perform(git, &call);
    let ghost cm = call.model();
    let recorded = match &r {
        Ok(u) => Ok(*u),
        Err(e) => Err(e.duplicate()),
    };
    let ghost before = log.model();
    log.push(GitRecord { call, result: recorded });
    assert(log.model() =~= before.push(GitRecordModel { call: cm, result: r }));
    r
}

/// Hands `call` to the backend and returns what it answers.
pub fn perform<G: GitBackend + ?Sized>(git: &G, call: &GitCall) -> (r: Result<(), AgcError>)
    ensures
        git.answers(call.model(), r),
{
    match call {
        GitCall::StageFiles(files) => git.stage_files(files.as_slice()),
        GitCall::StageAll => git.stage_all(),
        GitCall::Commit(msg) => git.commit(msg.as_str()),
        GitCall::Push(remote, branch) => git.push(remote.as_str(), branch.as_str()),
    }
}

/// The largest untracked file whose content is shown (100 KiB).
pub const UNTRACKED_SIZE_LIMIT: u64 = 102400;

/// What was found for an untracked file.
pub enum UntrackedFile {
    /// Its size or content could not be read: it is left out.
    Unreadable,
    /// Larger than `UNTRACKED_SIZE_LIMIT`: only named.
    TooLarge,
    /// Holds a NUL byte: only named.
    Binary,
    /// Its content as text.
    Text(String),
}

/// Whether a file of `size` bytes is too large to show.
pub fn exceeds_limit(size: u64) -> (r: bool)
    ensures
        r == (size > UNTRACKED_SIZE_LIMIT),
{
    size > UNTRACKED_SIZE_LIMIT
}

/// Whether the content holds a NUL byte (taken as binary).
pub fn is_binary(data: &[u8]) -> (r: bool)
    ensures
        r == data@.contains(0u8),
{
    let n = data.len();
    let mut i: usize = 0;
    while i < n
        invariant
            i <= n == data@.len(),
            forall|k: int| 0 <= k < i ==> data@[k] != 0u8,
        decreases n - i,
    {
        if data[i] == 0u8 {
            assert(data@[i as int] == 0u8);
            return true;
        }
        i = i + 1;
    }
    false
}

/// The part of the summary for one untracked file.
pub open spec fn untracked_section_spec(path: Seq<char>, f: UntrackedFile) -> Seq<char> {
    match f {
        UntrackedFile::Unreadable => Seq::empty(),
        UntrackedFile::TooLarge => "--- 未跟踪文件 (超过100KB，已跳过): "@ + path + " ---\n"@,
        UntrackedFile::Binary => "--- 未跟踪文件 (二进制): "@ + path + " ---\n"@,
        UntrackedFile::Text(c) => "--- 未跟踪文件: "@ + path + " ---\n"@ + c@ + "\n"@,
    }
}

/// The summary of untracked files: each file's part, in order.
pub open spec fn untracked_report_spec(files: Seq<(String, UntrackedFile)>) -> Seq<char>
    decreases files.len(),
{
    if files.len() == 0 {
        Seq::empty()
    } else {
        untracked_report_spec(files.drop_last()) + untracked_section_spec(
            files.last().0@,
            files.last().1,
        )
    }
}

/// Appends the part for one untracked file.
fn push_untracked(out: &mut String, path: &str, f: &UntrackedFile)
    ensures
        final(out)@ == old(out)@ + untracked_section_spec(path@, *f),
{
    match f {
        UntrackedFile::Unreadable => {
            assert(old(out)@ + untracked_section_spec(path@, *f) =~= old(out)@);
        },
        UntrackedFile::TooLarge => {
            out.append("--- 未跟踪文件 (超过100KB，已跳过): ");
            out.append(path);
            out.append(" ---\n");
        },
        UntrackedFile::Binary => {
            out.append("--- 未跟踪文件 (二进制): ");
            out.append(path);
            out.append(" ---\n");
        },
        UntrackedFile::Text(c) => {
            out.append("--- 未跟踪文件: ");
            out.append(path);
            out.append(" ---\n");
            out.append(c.as_str());
            out.append("\n");
        },
    }
}

/// The content summary of the untracked files (see `untracked_report_spec`).
pub fn untracked_report(files: &[(String, UntrackedFile)]) -> (r: String)
    ensures
        r@ == untracked_report_spec(files@),
{
    let n = files.len();
    let mut r = String::new();
    let mut i: usize = 0;
    while i < n
        invariant
            i <= n == files@.len(),
            r@ == untracked_report_spec(files@.take(i as int)),
        decreases n - i,
    {
        let ghost before = r@;
        push_untracked(&mut r, files[i].0.as_str(), &files[i].1);
        assert(files@.take(i + 1).drop_last() =~= files@.take(i as int));
        assert(files@.take(i + 1).last() == files@[i as int]);
        assert(r@ =~= before + untracked_section_spec(files@[i as int].0@, files@[i as int].1));
        i = i + 1;
    }
    assert(files@.take(n as int) =~= files@);
    r
}

} // verus!
