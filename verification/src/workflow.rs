//! The single-pass commit workflow (without the pipeline).
use vstd::prelude::*;

use crate::ai::{AiProvider, commit_request};
use crate::commit::{AiResponse, EntryModel};
use crate::commit::service::{commit_run, decodable, plan_commits, plan_spec, response_text, run_commits};
use crate::config::Config;
use crate::error::AgcError;
use crate::git::{GitBackend, GitRecord, GitRecordModel};
use crate::model::Model;
use crate::pipeline::PipelineContext;
use crate::pipeline::context::{ContextModel, git_info_spec, git_info_text};
use crate::pipeline::stages::diff::{collect_changes, collected};
use crate::pipeline::stages::enrich::apply_context;
use crate::pipeline::stages::parse::{NO_ENTRY_MESSAGE, apply_answer};
use crate::pipeline::stages::ai::GENERATE_MESSAGE;
use crate::search::SearchBackend;
use crate::ui::Host;

verus! {

/// Builder of a workflow: the backends, the configuration and the search
/// patterns.
pub struct WorkflowBuilder {
    git: Option<Box<dyn GitBackend>>,
    ai: Option<Box<dyn AiProvider>>,
    search: Option<Box<dyn SearchBackend>>,
    config: Option<Config>,
    rg_pattern: String,
    fd_pattern: String,
}

/// The error when a required part was not given.
pub open spec fn unset_message(part: Seq<char>) -> Seq<char> {
    part + " 未设置"@
}

fn unset(part: &str) -> (e: AgcError)
    ensures
        e matches AgcError::Other(m) && m@ == unset_message(part@),
{
    let mut m = String::from_str(part);
    m.append(" 未设置");
    AgcError::Other(m)
}

impl WorkflowBuilder {
    pub closed spec fn has_git(&self) -> bool {
        self.git is Some
    }

    pub closed spec fn has_ai(&self) -> bool {
        self.ai is Some
    }

    pub closed spec fn has_search(&self) -> bool {
        self.search is Some
    }

    pub closed spec fn spec_config(&self) -> Option<Config> {
        self.config
    }

    pub closed spec fn spec_rg_pattern(&self) -> Seq<char> {
        self.rg_pattern@
    }

    pub closed spec fn spec_fd_pattern(&self) -> Seq<char> {
        self.fd_pattern@
    }

    /// Nothing set, empty patterns.
    pub fn new() -> (r: Self)
        ensures
            !r.has_git(),
            !r.has_ai(),
            !r.has_search(),
            r.spec_config() is None,
            r.spec_rg_pattern().len() == 0,
            r.spec_fd_pattern().len() == 0,
    {
        WorkflowBuilder {
            git: None,
            ai: None,
            search: None,
            config: None,
            rg_pattern: String::new(),
            fd_pattern: String::new(),
        }
    }

    pub fn with_git<T: GitBackend + 'static>(self, git: T) -> (r: Self)
        ensures
            r.has_git(),
            r.has_ai() == self.has_ai(),
            r.has_search() == self.has_search(),
            r.spec_config() == self.spec_config(),
            r.spec_rg_pattern() == self.spec_rg_pattern(),
            r.spec_fd_pattern() == self.spec_fd_pattern(),
    {
        let b: Box<dyn GitBackend> = Box::new(git);
        WorkflowBuilder { git: Some(b), ..self }
    }

    pub fn with_ai<T: AiProvider + 'static>(self, ai: T) -> (r: Self)
        ensures
            r.has_git() == self.has_git(),
            r.has_ai(),
            r.has_search() == self.has_search(),
            r.spec_config() == self.spec_config(),
            r.spec_rg_pattern() == self.spec_rg_pattern(),
            r.spec_fd_pattern() == self.spec_fd_pattern(),
    {
        let b: Box<dyn AiProvider> = Box::new(ai);
        WorkflowBuilder { ai: Some(b), ..self }
    }

    pub fn with_search<T: SearchBackend + 'static>(self, search: T) -> (r: Self)
        ensures
            r.has_git() == self.has_git(),
            r.has_ai() == self.has_ai(),
            r.has_search(),
            r.spec_config() == self.spec_config(),
            r.spec_rg_pattern() == self.spec_rg_pattern(),
            r.spec_fd_pattern() == self.spec_fd_pattern(),
    {
        let b: Box<dyn SearchBackend> = Box::new(search);
        WorkflowBuilder { search: Some(b), ..self }
    }

    pub fn with_config(self, config: Config) -> (r: Self)
        ensures
            r.has_git() == self.has_git(),
            r.has_ai() == self.has_ai(),
            r.has_search() == self.has_search(),
            r.spec_config() == Some(config),
            r.spec_rg_pattern() == self.spec_rg_pattern(),
            r.spec_fd_pattern() == self.spec_fd_pattern(),
    {
        WorkflowBuilder { config: Some(config), ..self }
    }

    pub fn with_rg_pattern(self, pattern: String) -> (r: Self)
        ensures
            r.has_git() == self.has_git(),
            r.has_ai() == self.has_ai(),
            r.has_search() == self.has_search(),
            r.spec_config() == self.spec_config(),
            r.spec_rg_pattern() == pattern@,
            r.spec_fd_pattern() == self.spec_fd_pattern(),
    {
        WorkflowBuilder { rg_pattern: pattern, ..self }
    }

    pub fn with_fd_pattern(self, pattern: String) -> (r: Self)
        ensures
            r.has_git() == self.has_git(),
            r.has_ai() == self.has_ai(),
            r.has_search() == self.has_search(),
            r.spec_config() == self.spec_config(),
            r.spec_rg_pattern() == self.spec_rg_pattern(),
            r.spec_fd_pattern() == pattern@,
    {
        WorkflowBuilder { fd_pattern: pattern, ..self }
    }

    /// The workflow; fails on the first missing part, in the order git, AI,
    /// search, configuration.
    pub fn build(self) -> (r: Result<Workflow, AgcError>)
        ensures
            !self.has_git() ==> (r matches Err(AgcError::Other(m)) && m@ == unset_message(
                "GitBackend"@,
            )),
            self.has_git() && !self.has_ai() ==> (r matches Err(AgcError::Other(m)) && m@
                == unset_message("AiProvider"@)),
            self.has_git() && self.has_ai() && !self.has_search() ==> (r matches Err(
                AgcError::Other(m),
            ) && m@ == unset_message("SearchBackend"@)),
            self.has_git() && self.has_ai() && self.has_search() && self.spec_config() is None
                ==> (r matches Err(AgcError::Other(m)) && m@ == unset_message("Config"@)),
            r is Ok <==> (self.has_git() && self.has_ai() && self.has_search()
                && self.spec_config() is Some),
            r matches Ok(w) ==> w.spec_config() == self.spec_config()->0 && w.spec_rg_pattern()
                == self.spec_rg_pattern() && w.spec_fd_pattern() == self.spec_fd_pattern(),
    {
        let git = match self.git {
            Some(g) => g,
            None => return Err(unset("GitBackend")),
        };
        let ai = match self.ai {
            Some(a) => a,
            None => return Err(unset("AiProvider")),
        };
        let search = match self.search {
            Some(s) => s,
            None => return Err(unset("SearchBackend")),
        };
        let config = match self.config {
            Some(c) => c,
            None => return Err(unset("Config")),
        };
        Ok(
            Workflow {
                git,
                ai,
                search,
                config,
                rg_pattern: self.rg_pattern,
                fd_pattern: self.fd_pattern,
            },
        )
    }
}

impl Default for WorkflowBuilder {
    fn default() -> (r: Self)
        ensures
            !r.has_git(),
            !r.has_ai(),
            !r.has_search(),
            r.spec_config() is None,
            r.spec_rg_pattern().len() == 0,
            r.spec_fd_pattern().len() == 0,
    {
        Self::new()
    }
}

/// The whole commit flow in one pass: collect the changes, add code context,
/// ask the model, then confirm and make each commit.
pub struct Workflow {
    git: Box<dyn GitBackend>,
    ai: Box<dyn AiProvider>,
    search: Box<dyn SearchBackend>,
    config: Config,
    rg_pattern: String,
    fd_pattern: String,
}

impl Workflow {
    pub closed spec fn spec_config(&self) -> Config {
        self.config
    }

    pub closed spec fn spec_rg_pattern(&self) -> Seq<char> {
        self.rg_pattern@
    }

    pub closed spec fn spec_fd_pattern(&self) -> Seq<char> {
        self.fd_pattern@
    }

    /// Runs the flow, recording in `ctx` what was collected, searched, asked
    /// and decoded, the confirmation answers read and the git calls made with
    /// git's answers (see `workflow_ran`). Stops with `Ok` when there is
    /// nothing to commit or a commit is not confirmed; fails when git cannot
    /// give the diff, when the model fails, when its answer holds no entry, or
    /// when staging or committing fails.
    pub fn run(&self, ctx: &mut PipelineContext, host: &dyn Host) -> (r: Result<(), AgcError>)
        requires
            old(ctx).entries@.len() == 0,
            old(ctx).failure is None,
        ensures
            workflow_ran(old(ctx).model(), final(ctx).model(), r, true),
            final(ctx).model().entries.len() > 0 ==> exists|d: Option<AiResponse>|
                decodable(final(ctx).model().raw_response, d) && #[trigger] decoded_as(
                    d,
                    final(ctx).model().entries,
                    final(ctx).model().reason,
                ),
    {
        let ghost before = ctx.model();
        let collected = collect_changes(&*self.git, ctx, host);
        if collected.is_err() {
            return collected;
        }
        if !ctx.has_changes {
            return Ok(());
        }
        let content = if ctx.untracked_files.len() > 0 {
            self.git.untracked_content(ctx.untracked_files.as_slice())
        } else {
            String::new()
        };
        ctx.git_info = git_info_text(
            ctx.status_short.as_str(),
            ctx.diff_cached_stat.as_str(),
            ctx.diff_stat.as_str(),
            content.as_str(),
        );
        let rg = self.search.rg_context(ctx.changed_files.as_slice(), self.rg_pattern.as_str());
        let fd = self.search.fd_context(ctx.changed_files.as_slice(), self.fd_pattern.as_str());
        apply_context(ctx, rg.as_str(), fd.as_str());
        assert(collected_in(before, ctx.model(), content@));
        let req = commit_request(
            &self.config,
            ctx.diff.as_str(),
            ctx.git_info.as_str(),
            ctx.extra_context.as_str(),
        );
        host.begin_progress(GENERATE_MESSAGE);
        let answer = self.ai.generate(&req);
        host.end_progress(GENERATE_MESSAGE);
        let raw = match answer {
            Ok(raw) => raw,
            Err(e) => {
                ctx.failure = Some(e.duplicate());
                assert(collected_in(before, ctx.model(), content@));
                return Err(e);
            },
        };
        ctx.raw_response = raw;
        assert(collected_in(before, ctx.model(), content@));
        let decoded = match response_text(ctx.raw_response.as_str()) {
            None => None,
            Some(t) => host.decode_response(t.as_str()),
        };
        let ghost d = decoded;
        assert(decodable(ctx.raw_response@, d));
        let applied = apply_answer(ctx, decoded, host);
        assert(collected_in(before, ctx.model(), content@));
        if applied.is_err() {
            return applied;
        }
        let jobs = plan_commits(&ctx.entries, true);
        let (r, made, answers) = run_commits(&jobs, &*self.git, host, false, true);
        record_commits(ctx, made, answers);
        assert(collected_in(before, ctx.model(), content@));
        assert(decoded_as(d, ctx.model().entries, ctx.model().reason));
        r
    }
}

/// Adds a run's git calls and answers to the context.
pub fn record_commits(ctx: &mut PipelineContext, made: Vec<GitRecord>, answers: Vec<String>)
    ensures
        final(ctx).model() == (ContextModel {
            git_log: old(ctx).model().git_log + made.model(),
            answers: old(ctx).model().answers + answers.model(),
            ..old(ctx).model()
        }),
{
    let ghost mm = made.model();
    let ghost am = answers.model();
    let mut made = made;
    let mut answers = answers;
    ctx.git_log.append(&mut made);
    ctx.answers.append(&mut answers);
    assert(ctx.git_log.model() =~= old(ctx).git_log.model() + mm);
    assert(ctx.answers.model() =~= old(ctx).answers.model() + am);
}

/// The entries and reason are those of the decoded answer `d`, all its
/// entries kept.
pub open spec fn decoded_as(d: Option<AiResponse>, entries: Seq<EntryModel>, reason: Seq<char>) -> bool {
    d matches Some(x) && entries == x.data.model() && reason == x.reason@
}

/// After collecting with changes, what the rest of the run did: when the model
/// failed (its error recorded as the failure), that error and no git call;
/// when no entry was decoded, the "no entry" error and no git call; otherwise
/// the answers read and the git calls made (added to the context) are those of
/// a run of the plan of the entries (see `commit_run`).
pub open spec fn decided(before: ContextModel, after: ContextModel, r: Result<(), AgcError>, styled: bool) -> bool {
    if after.failure is Some {
        &&& r == Err::<(), AgcError>(after.failure->0)
        &&& after.git_log == before.git_log
        &&& after.answers == before.answers
        &&& after.entries.len() == 0
    } else if after.entries.len() == 0 {
        &&& (r matches Err(AgcError::Other(m)) && m@ == NO_ENTRY_MESSAGE@)
        &&& after.git_log == before.git_log
        &&& after.answers == before.answers
    } else {
        exists|answers: Seq<Seq<char>>, made: Seq<GitRecordModel>|
            #[trigger] commit_run(plan_spec(after.entries, styled), false, answers, made, r)
                && after.git_log == before.git_log + made && after.answers == before.answers + answers
    }
}

/// After collecting with changes: the options kept, `has_changes` as
/// collected, and the summary made of the status, the staged and unstaged
/// summaries and `untracked` (the untracked files' content).
pub open spec fn collected_in(before: ContextModel, after: ContextModel, untracked: Seq<char>) -> bool {
    &&& after.has_changes
    &&& after.has_changes == (after.diff.len() > 0 || after.untracked_files.len() > 0)
    &&& after.auto_push == before.auto_push
    &&& after.auto_commit == before.auto_commit
    &&& after.git_info == git_info_spec(
        after.status_short,
        after.diff_cached_stat,
        after.diff_stat,
        untracked,
    )
}

/// What a run of the flow did, as recorded in the context: either git could
/// not give the diff (its error returned and recorded as the failure, nothing
/// else changed); or the changes were collected and there were none (success,
/// no git call); or there were changes and the rest of the run is as
/// `decided` says.
pub open spec fn workflow_ran(before: ContextModel, after: ContextModel, r: Result<(), AgcError>, styled: bool) -> bool {
    ||| (r matches Err(e) && after == (ContextModel { failure: Some(e), ..before }))
    ||| (collected(before, after) && !after.has_changes && r is Ok)
    ||| ((exists|u: Seq<char>| #[trigger] collected_in(before, after, u)) && decided(
        before,
        after,
        r,
        styled,
    ))
}

} // verus!
