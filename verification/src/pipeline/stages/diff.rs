//! Stage 1: collect the changes from git.
use std::sync::Arc;

use vstd::prelude::*;

use crate::error::AgcError;
use crate::git::GitBackend;
use crate::model::Model;
use crate::pipeline::context::{ContextModel, git_info_spec};
use crate::pipeline::{PipelineContext, PipelineStage};
use crate::ui::Host;

verus! {

/// Progress message while git is queried.
pub const COLLECT_MESSAGE: &'static str = "正在获取 git 变更信息";

/// What is printed when there is nothing to commit.
pub const NO_CHANGES_MESSAGE: &'static str = "没有未暂存的变更";

/// Collects the diff and the repository state from git.
pub struct DiffCollector<G: ?Sized> {
    git: Arc<G>,
}

/// What collecting makes of the context: whatever git reported, `has_changes`
/// set when there is a diff or an untracked file, and then the repository
/// summary; the other fields kept.
pub open spec fn collected(before: ContextModel, after: ContextModel) -> bool {
    &&& after.has_changes == (after.diff.len() > 0 || after.untracked_files.len() > 0)
    &&& after.git_info == (if after.has_changes {
        git_info_spec(after.status_short, after.diff_cached_stat, after.diff_stat, Seq::empty())
    } else {
        before.git_info
    })
    &&& after.auto_push == before.auto_push
    &&& after.auto_commit == before.auto_commit
    &&& after.extra_context == before.extra_context
    &&& after.raw_response == before.raw_response
    &&& after.entries == before.entries
    &&& after.reason == before.reason
    &&& after.git_log == before.git_log
    &&& after.answers == before.answers
    &&& after.failure == before.failure
}

/// The text a git query gave, empty when it failed.
pub open spec fn text_or_empty(r: Result<String, AgcError>) -> Seq<char> {
    match r {
        Ok(v) => v@,
        Err(_) => Seq::empty(),
    }
}

/// The paths a git query gave, none when it failed.
pub open spec fn paths_or_none(r: Result<Vec<String>, AgcError>) -> Seq<Seq<char>> {
    match r {
        Ok(v) => v.model(),
        Err(_) => Seq::empty(),
    }
}

/// What `collect_from` makes of the context and returns, given git's answers:
/// a failed diff is passed on with the context unchanged; otherwise the
/// answers are stored (a failed query as empty), then `has_changes` and the
/// summary as in `collected`.
pub open spec fn collect_result(
    before: ContextModel,
    diff: Result<String, AgcError>,
    changed: Result<Vec<String>, AgcError>,
    status: Result<String, AgcError>,
    stat: Result<String, AgcError>,
    cached_stat: Result<String, AgcError>,
    untracked: Result<Vec<String>, AgcError>,
    after: ContextModel,
    r: Result<(), AgcError>,
) -> bool {
    match diff {
        Err(e) => r == Err::<(), AgcError>(e) && after == before,
        Ok(d) => {
            &&& r is Ok
            &&& after.diff == d@
            &&& after.changed_files == paths_or_none(changed)
            &&& after.status_short == text_or_empty(status)
            &&& after.diff_stat == text_or_empty(stat)
            &&& after.diff_cached_stat == text_or_empty(cached_stat)
            &&& after.untracked_files == paths_or_none(untracked)
            &&& collected(before, after)
        },
    }
}

/// Stores git's answers in the context (see `collect_result`).
pub fn collect_from(
    ctx: &mut PipelineContext,
    diff: Result<String, AgcError>,
    changed: Result<Vec<String>, AgcError>,
    status: Result<String, AgcError>,
    stat: Result<String, AgcError>,
    cached_stat: Result<String, AgcError>,
    untracked: Result<Vec<String>, AgcError>,
) -> (r: Result<(), AgcError>)
    ensures
        collect_result(
            old(ctx).model(),
            diff,
            changed,
            status,
            stat,
            cached_stat,
            untracked,
            final(ctx).model(),
            r,
        ),
{
    let d = match diff {
        Ok(d) => d,
        Err(e) => return Err(e),
    };
    let changed_files = match changed {
        Ok(v) => v,
        Err(_) => Vec::new(),
    };
    assert(changed_files.model() =~= paths_or_none(changed));
    let status_short = match status {
        Ok(s) => s,
        Err(_) => String::new(),
    };
    let diff_stat = match stat {
        Ok(s) => s,
        Err(_) => String::new(),
    };
    let diff_cached_stat = match cached_stat {
        Ok(s) => s,
        Err(_) => String::new(),
    };
    let untracked_files = match untracked {
        Ok(v) => v,
        Err(_) => Vec::new(),
    };
    assert(untracked_files.model() =~= paths_or_none(untracked));
    proof {
        reveal_strlit("");
    }
    ctx.diff = d;
    ctx.changed_files = changed_files;
    ctx.status_short = status_short;
    ctx.diff_stat = diff_stat;
    ctx.diff_cached_stat = diff_cached_stat;
    ctx.untracked_files = untracked_files;
    ctx.has_changes = !ctx.diff.as_str().is_empty() || ctx.untracked_files.len() > 0;
    if ctx.has_changes {
        ctx.build_git_info();
    }
    Ok(())
}

impl<G: ?Sized> DiffCollector<G> {
    pub closed spec fn backend(&self) -> Arc<G> {
        self.git
    }

    pub fn new(git: Arc<G>) -> (r: Self)
        ensures
            r.backend() == git,
    {
        DiffCollector { git }
    }
}

/// Asks `git` for the diff and the repository state and stores the answers
/// (see `collect_from`): when git cannot give the diff, fails with its error,
/// which is recorded as the context's failure (nothing else changes);
/// otherwise `collected` holds.
pub fn collect_changes<G: GitBackend + ?Sized>(
    git: &G,
    ctx: &mut PipelineContext,
    host: &dyn Host,
) -> (r: Result<(), AgcError>)
    ensures
        match r {
            Ok(_) => collected(old(ctx).model(), final(ctx).model()),
            Err(e) => final(ctx).model() == (ContextModel { failure: Some(e), ..old(ctx).model() }),
        },
{
    host.begin_progress(COLLECT_MESSAGE);
    let diff = git.diff();
    if let Err(e) = &diff {
        host.end_progress(COLLECT_MESSAGE);
        ctx.failure = Some(e.duplicate());
        return Err(e.duplicate());
    }
    let changed = git.changed_files();
    let status = git.status_short();
    let stat = git.diff_stat();
    let cached_stat = git.diff_cached_stat();
    let untracked = git.ls_untracked();
    host.end_progress(COLLECT_MESSAGE);
    let r = collect_from(ctx, diff, changed, status, stat, cached_stat, untracked);
    if !ctx.has_changes {
        host.say(NO_CHANGES_MESSAGE);
    }
    r
}

impl<G: GitBackend + ?Sized> PipelineStage for DiffCollector<G> {
    /// Success: see `collected`; failure (git could not give the diff): its
    /// error recorded as the failure, nothing else changed.
    open spec fn step(&self, before: ContextModel, after: ContextModel, r: Result<(), AgcError>) -> bool {
        match r {
            Ok(_) => collected(before, after),
            Err(e) => after == (ContextModel { failure: Some(e), ..before }),
        }
    }

    fn execute(&self, ctx: &mut PipelineContext, host: &dyn Host) -> (r: Result<(), AgcError>) {
        collect_changes(&*self.git, ctx, host)
    }
}

} // verus!
