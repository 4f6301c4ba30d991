//! Stage 5: make the commits.
use std::sync::Arc;

use vstd::prelude::*;

use crate::commit::Entry;
use crate::commit::service::{commit_run, plan_commits, plan_spec, run_commits};
use crate::error::AgcError;
use crate::git::{GitBackend, GitRecordModel, answered_by};
use crate::model::Model;
use crate::pipeline::context::ContextModel;
use crate::pipeline::{PipelineContext, PipelineStage};
use crate::ui::Host;

verus! {

/// Shows each entry (asking for confirmation unless `auto_commit`), stages
/// its files and commits it.
pub struct CommitExecutor<G: ?Sized> {
    git: Arc<G>,
}

impl<G: ?Sized> CommitExecutor<G> {
    pub closed spec fn backend(&self) -> Arc<G> {
        self.git
    }

    pub fn new(git: Arc<G>) -> (r: Self)
        ensures
            r.backend() == git,
    {
        CommitExecutor { git }
    }
}

impl<G: GitBackend + ?Sized> PipelineStage for CommitExecutor<G> {
    /// With changes and entries: the entries are taken out of the context,
    /// the answers read and the git calls made (with git's answers) are added
    /// to the context, and they are those of a run of the plan of the entries
    /// (see `commit_run`; no confirmation is asked when `auto_commit`).
    /// Otherwise nothing is done and it succeeds.
    open spec fn step(&self, before: ContextModel, after: ContextModel, r: Result<(), AgcError>) -> bool {
        if before.has_changes && before.entries.len() > 0 {
            exists|answers: Seq<Seq<char>>, made: Seq<GitRecordModel>|
                #[trigger] commit_run(plan_spec(before.entries, true), before.auto_commit, answers, made, r)
                    && answered_by(&*self.backend(), made) && after == (ContextModel {
                    entries: Seq::empty(),
                    git_log: before.git_log + made,
                    answers: before.answers + answers,
                    ..before
                })
        } else {
            r is Ok && after == before
        }
    }

    fn execute(&self, ctx: &mut PipelineContext, host: &dyn Host) -> (r: Result<(), AgcError>) {
        if !ctx.has_changes || ctx.entries.len() == 0 {
            return Ok(());
        }
        let mut entries: Vec<Entry> = Vec::new();
        std::mem::swap(&mut entries, &mut ctx.entries);
        assert(ctx.entries.model() =~= Seq::<crate::commit::EntryModel>::empty());
        let jobs = plan_commits(&entries, true);
        let (r, made, answers) = run_commits(&jobs, &*self.git, host, ctx.auto_commit, true);
        let ghost mm = made.model();
        let ghost am = answers.model();
        let ghost lm = ctx.git_log.model();
        let ghost om = ctx.answers.model();
        let mut made = made;
        let mut answers = answers;
        ctx.git_log.append(&mut made);
        ctx.answers.append(&mut answers);
        assert(ctx.git_log.model() =~= lm + mm);
        assert(ctx.answers.model() =~= om + am);
        assert(ctx.model() == (ContextModel {
            entries: Seq::empty(),
            git_log: old(ctx).model().git_log + mm,
            answers: old(ctx).model().answers + am,
            ..old(ctx).model()
        }));
        assert(commit_run(plan_spec(old(ctx).entries.model(), true), old(ctx).auto_commit, am, mm, r));
        r
    }
}

} // verus!
