//! The commit pipeline: stages run in order over a shared context.
pub mod builder;
pub mod context;
pub mod stages;

pub use builder::PipelineBuilder;
pub use context::PipelineContext;

use vstd::prelude::*;

use crate::error::AgcError;
use crate::model::Model;
use crate::ai::AiProvider;
use crate::commit::service::{commit_run, plan_spec};
use crate::git::{GitBackend, GitRecordModel};
use crate::pipeline::context::ContextModel;
use crate::pipeline::stages::{AiGenerator, CommitExecutor, ContextEnricher, EntryParser};
use crate::search::SearchBackend;
use crate::ui::Host;

verus! {

/// A pipeline stage: one transformation of the context.
pub trait PipelineStage {
    /// Whether a run that returned `r` can take the context from `before` to
    /// `after`.
    spec fn step(&self, before: ContextModel, after: ContextModel, r: Result<(), AgcError>) -> bool;

    fn execute(&self, ctx: &mut PipelineContext, host: &dyn Host) -> (r: Result<(), AgcError>)
        ensures
            self.step(old(ctx).model(), final(ctx).model(), r),
    ;
}

/// Every stage of `stages` succeeds, in order, taking the context from
/// `before` to `after`.
pub open spec fn runs_through<St: PipelineStage>(
    stages: Seq<St>,
    before: ContextModel,
    after: ContextModel,
) -> bool
    decreases stages.len(),
{
    if stages.len() == 0 {
        before == after
    } else {
        exists|mid: ContextModel|
            runs_through(stages.drop_last(), before, mid) && #[trigger] stages.last().step(
                mid,
                after,
                Ok(()),
            )
    }
}

/// The stages before stage `k` succeed, in order, and stage `k` fails with
/// `e`, taking the context from `before` to `after`.
pub open spec fn fails_at<St: PipelineStage>(
    stages: Seq<St>,
    k: int,
    before: ContextModel,
    after: ContextModel,
    e: AgcError,
) -> bool {
    &&& 0 <= k < stages.len()
    &&& exists|mid: ContextModel|
        runs_through(stages.take(k), before, mid) && #[trigger] stages[k].step(mid, after, Err(e))
}

/// A pipeline: stages run in order.
pub struct Pipeline<St> {
    stages: Vec<St>,
}

impl<St: PipelineStage> Pipeline<St> {
    /// The stages, in the order they run.
    pub closed spec fn stages(&self) -> Seq<St> {
        self.stages@
    }

    pub fn new(stages: Vec<St>) -> (r: Self)
        ensures
            r.stages() == stages@,
    {
        Pipeline { stages }
    }

    /// Runs the stages in order and stops at the first that fails, with its
    /// error.
    pub fn run(&self, ctx: &mut PipelineContext, host: &dyn Host) -> (r: Result<(), AgcError>)
        ensures
            r is Ok ==> runs_through(self.stages(), old(ctx).model(), final(ctx).model()),
            r matches Err(e) ==> exists|k: int|
                fails_at(self.stages(), k, old(ctx).model(), final(ctx).model(), e),
    {
        let ghost start = ctx.model();
        let n = self.stages.len();
        let mut i: usize = 0;
        assert(self.stages@.take(0) =~= Seq::<St>::empty());
        while i < n
            invariant
                i <= n == self.stages@.len(),
                start == old(ctx).model(),
                runs_through(self.stages@.take(i as int), start, ctx.model()),
            decreases n - i,
        {
            let ghost mid = ctx.model();
            let r = self.stages[i].execute(ctx, host);
            assert(self.stages@.take(i + 1).drop_last() =~= self.stages@.take(i as int));
            assert(self.stages@.take(i + 1).last() == self.stages@[i as int]);
            if r.is_err() {
                proof {
                    let e = r->Err_0;
                    assert(r == Err::<(), AgcError>(e));
                    assert(fails_at(self.stages(), i as int, start, ctx.model(), e));
                }
                return r;
            }
            assert(r is Ok);
            assert(r->Ok_0 == ());
            assert(r == Ok::<(), AgcError>(()));
            assert(self.stages@.take(i + 1).last().step(mid, ctx.model(), Ok(())));
            assert(runs_through(self.stages@.take(i as int), start, mid));
            i = i + 1;
        }
        assert(self.stages@.take(n as int) =~= self.stages@);
        Ok(())
    }
}

/// Law: when the collected changes are empty, every later stage of the
/// standard pipeline succeeds and leaves the context as it is (nothing is
/// searched, asked, parsed or committed).
pub proof fn law_idle_without_changes<
    G: GitBackend + ?Sized,
    A: AiProvider + ?Sized,
    S: SearchBackend + ?Sized,
>(
    enrich: ContextEnricher<S>,
    generate: AiGenerator<A>,
    parse: EntryParser,
    commit: CommitExecutor<G>,
    before: ContextModel,
    after: ContextModel,
    r: Result<(), AgcError>,
)
    requires
        !before.has_changes,
    ensures
        enrich.step(before, after, r) ==> r is Ok && after == before,
        generate.step(before, after, r) ==> r is Ok && after == before,
        parse.step(before, after, r) ==> r is Ok && after == before,
        commit.step(before, after, r) ==> r is Ok && after == before,
{
}

/// Law: with changes, a successful parse leaves at least one entry; the
/// commit stage then takes every entry out of the context, keeps the reason,
/// and adds to the context the answers read and the git calls of a run of the
/// plan of those entries.
pub proof fn law_parse_then_commit<G: GitBackend + ?Sized>(
    parse: EntryParser,
    commit: CommitExecutor<G>,
    c0: ContextModel,
    c1: ContextModel,
    c2: ContextModel,
    r: Result<(), AgcError>,
)
    requires
        c0.has_changes,
        parse.step(c0, c1, Ok(())),
        commit.step(c1, c2, r),
    ensures
        c1.entries.len() > 0,
        c2.entries.len() == 0,
        c1.reason == c2.reason,
        exists|answers: Seq<Seq<char>>, made: Seq<GitRecordModel>|
            #[trigger] commit_run(plan_spec(c1.entries, true), c1.auto_commit, answers, made, r)
                && c2.git_log == c1.git_log + made && c2.answers == c1.answers + answers,
{
}

} // verus!
