//! The context the pipeline stages share.
use vstd::prelude::*;

use crate::commit::{Entry, EntryModel};
use crate::error::AgcError;
use crate::git::{GitRecord, GitRecordModel};
use crate::model::Model;

verus! {

/// The model of a pipeline context.
pub struct ContextModel {
    pub auto_push: Option<Seq<char>>,
    pub auto_commit: bool,
    pub diff: Seq<char>,
    pub changed_files: Seq<Seq<char>>,
    pub status_short: Seq<char>,
    pub diff_stat: Seq<char>,
    pub diff_cached_stat: Seq<char>,
    pub untracked_files: Seq<Seq<char>>,
    pub has_changes: bool,
    pub git_info: Seq<char>,
    pub extra_context: Seq<char>,
    pub raw_response: Seq<char>,
    pub entries: Seq<EntryModel>,
    pub reason: Seq<char>,
    pub git_log: Seq<GitRecordModel>,
    pub answers: Seq<Seq<char>>,
    pub failure: Option<AgcError>,
}

/// The data the pipeline stages share: control options, then what each stage
/// produces for the next.
pub struct PipelineContext {
    pub auto_push: Option<String>,
    pub auto_commit: bool,
    pub diff: String,
    pub changed_files: Vec<String>,
    pub status_short: String,
    pub diff_stat: String,
    pub diff_cached_stat: String,
    pub untracked_files: Vec<String>,
    pub has_changes: bool,
    pub git_info: String,
    pub extra_context: String,
    pub raw_response: String,
    pub entries: Vec<Entry>,
    pub reason: String,
    /// The calls that change the repository, in the order they were made,
    /// with what git answered.
    pub git_log: Vec<GitRecord>,
    /// The answers read when asking for confirmation, in order.
    pub answers: Vec<String>,
    /// The error of the outside query that stopped the run (git's diff, the
    /// model), when one did.
    pub failure: Option<AgcError>,
}

impl Model for PipelineContext {
    type M = ContextModel;

    open spec fn model(&self) -> ContextModel {
        ContextModel {
            auto_push: self.auto_push.model(),
            auto_commit: self.auto_commit,
            diff: self.diff@,
            changed_files: self.changed_files.model(),
            status_short: self.status_short@,
            diff_stat: self.diff_stat@,
            diff_cached_stat: self.diff_cached_stat@,
            untracked_files: self.untracked_files.model(),
            has_changes: self.has_changes,
            git_info: self.git_info@,
            extra_context: self.extra_context@,
            raw_response: self.raw_response@,
            entries: self.entries.model(),
            reason: self.reason@,
            git_log: self.git_log.model(),
            answers: self.answers.model(),
            failure: self.failure,
        }
    }
}

/// A section of the repository summary: the heading and the text, nothing
/// when the text is empty.
pub open spec fn section(heading: Seq<char>, text: Seq<char>) -> Seq<char> {
    if text.len() == 0 {
        Seq::empty()
    } else {
        heading + text + "\n"@
    }
}

/// The repository summary given to the model: working-tree status, staged
/// summary, unstaged summary, then the content of untracked files.
pub open spec fn git_info_spec(
    status: Seq<char>,
    cached_stat: Seq<char>,
    stat: Seq<char>,
    untracked: Seq<char>,
) -> Seq<char> {
    section("--- 工作区状态 ---\n"@, status) + section("--- 已暂存变更摘要 ---\n"@, cached_stat)
        + section("--- 未暂存变更摘要 ---\n"@, stat) + section("--- 未跟踪文件内容 ---\n"@, untracked)
}

fn push_section(out: &mut String, heading: &str, text: &str)
    ensures
        final(out)@ == old(out)@ + section(heading@, text@),
{
    if !text.is_empty() {
        out.append(heading);
        out.append(text);
        out.append("\n");
    } else {
        assert(old(out)@ + section(heading@, text@) =~= old(out)@);
    }
}

/// Builds the repository summary (see `git_info_spec`).
pub fn git_info_text(status: &str, cached_stat: &str, stat: &str, untracked: &str) -> (r: String)
    ensures
        r@ == git_info_spec(status@, cached_stat@, stat@, untracked@),
{
    let mut info = String::new();
    push_section(&mut info, "--- 工作区状态 ---\n", status);
    push_section(&mut info, "--- 已暂存变更摘要 ---\n", cached_stat);
    push_section(&mut info, "--- 未暂存变更摘要 ---\n", stat);
    push_section(&mut info, "--- 未跟踪文件内容 ---\n", untracked);
    assert(info@ =~= git_info_spec(status@, cached_stat@, stat@, untracked@));
    info
}

/// The context before any stage has run.
pub open spec fn initial_context(auto_push: Option<Seq<char>>, auto_commit: bool) -> ContextModel {
    ContextModel {
        auto_push,
        auto_commit,
        diff: Seq::empty(),
        changed_files: Seq::empty(),
        status_short: Seq::empty(),
        diff_stat: Seq::empty(),
        diff_cached_stat: Seq::empty(),
        untracked_files: Seq::empty(),
        has_changes: false,
        git_info: Seq::empty(),
        extra_context: Seq::empty(),
        raw_response: Seq::empty(),
        entries: Seq::empty(),
        reason: Seq::empty(),
        git_log: Seq::empty(),
        answers: Seq::empty(),
        failure: None,
    }
}

impl PipelineContext {
    pub fn new(auto_push: Option<String>, auto_commit: bool) -> (r: Self)
        ensures
            r.model() == initial_context(auto_push.model(), auto_commit),
    {
        let r = PipelineContext {
            auto_push,
            auto_commit,
            diff: String::new(),
            changed_files: Vec::new(),
            status_short: String::new(),
            diff_stat: String::new(),
            diff_cached_stat: String::new(),
            untracked_files: Vec::new(),
            has_changes: false,
            git_info: String::new(),
            extra_context: String::new(),
            raw_response: String::new(),
            entries: Vec::new(),
            reason: String::new(),
            git_log: Vec::new(),
            answers: Vec::new(),
            failure: None,
        };
        assert(r.changed_files.model() =~= Seq::<Seq<char>>::empty());
        assert(r.untracked_files.model() =~= Seq::<Seq<char>>::empty());
        assert(r.entries.model() =~= Seq::<EntryModel>::empty());
        assert(r.git_log.model() =~= Seq::<GitRecordModel>::empty());
        assert(r.answers.model() =~= Seq::<Seq<char>>::empty());
        assert(r.model() =~= initial_context(auto_push.model(), auto_commit));
        r
    }

    /// Sets `git_info` from the collected status and summaries (the content of
    /// untracked files is not part of it here).
    pub fn build_git_info(&mut self)
        ensures
            final(self).model() == (ContextModel {
                git_info: git_info_spec(
                    old(self).status_short@,
                    old(self).diff_cached_stat@,
                    old(self).diff_stat@,
                    Seq::empty(),
                ),
                ..old(self).model()
            }),
    {
        proof {
            reveal_strlit("");
        }
        let info = git_info_text(
            self.status_short.as_str(),
            self.diff_cached_stat.as_str(),
            self.diff_stat.as_str(),
            "",
        );
        self.git_info = info;
    }
}

} // verus!
