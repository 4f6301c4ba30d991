//! Assembles the pipeline and its stages (builder).
use std::sync::Arc;

use vstd::prelude::*;

use crate::ai::AiProvider;
use crate::config::Config;
use crate::error::AgcError;
use crate::git::GitBackend;
use crate::pipeline::stages::{
    AiGenerator,
    CommitExecutor,
    ContextEnricher,
    DiffCollector,
    EntryParser,
    GitPusher,
};
use crate::pipeline::context::ContextModel;
use crate::pipeline::{Pipeline, PipelineContext, PipelineStage};
use crate::ui::Host;
use crate::search::SearchBackend;

verus! {

/// Another handle on the same shared value (`Arc::clone`).
#[verifier::external_body]
fn share<T: ?Sized>(a: &Arc<T>) -> (r: Arc<T>)
    ensures
        r == *a,
{
    Arc::clone(a)
}

/// Builder of the commit pipeline: the backends, the configuration, the search
/// patterns and the optional push remote.
pub struct PipelineBuilder<G: ?Sized, A: ?Sized, S: ?Sized> {
    git: Option<Arc<G>>,
    ai: Option<Arc<A>>,
    search: Option<Arc<S>>,
    config: Option<Config>,
    rg_pattern: String,
    fd_pattern: String,
    auto_push: Option<String>,
}

/// The error when a required part was not given.
pub open spec fn missing_message(part: Seq<char>) -> Seq<char> {
    part + " 未设置"@
}

fn missing(part: &str) -> (e: AgcError)
    ensures
        e matches AgcError::Other(m) && m@ == missing_message(part@),
{
    let mut m = String::from_str(part);
    m.append(" 未设置");
    AgcError::Other(m)
}

impl<G: ?Sized, A: ?Sized, S: ?Sized> PipelineBuilder<G, A, S> {
    pub closed spec fn spec_git(&self) -> Option<Arc<G>> {
        self.git
    }

    pub closed spec fn spec_ai(&self) -> Option<Arc<A>> {
        self.ai
    }

    pub closed spec fn spec_search(&self) -> Option<Arc<S>> {
        self.search
    }

    pub closed spec fn spec_config(&self) -> Option<Config> {
        self.config
    }

    pub closed spec fn spec_rg_pattern(&self) -> Seq<char> {
        self.rg_pattern@
    }

    pub closed spec fn spec_fd_pattern(&self) -> Seq<char> {
        self.fd_pattern@
    }

    pub closed spec fn spec_auto_push(&self) -> Option<String> {
        self.auto_push
    }

    /// Nothing set, empty patterns, no push.
    pub fn new() -> (r: Self)
        ensures
            r.spec_git() is None,
            r.spec_ai() is None,
            r.spec_search() is None,
            r.spec_config() is None,
            r.spec_rg_pattern().len() == 0,
            r.spec_fd_pattern().len() == 0,
            r.spec_auto_push() is None,
    {
        PipelineBuilder {
            git: None,
            ai: None,
            search: None,
            config: None,
            rg_pattern: String::new(),
            fd_pattern: String::new(),
            auto_push: None,
        }
    }

    pub fn with_git(self, git: Arc<G>) -> (r: Self)
        ensures
            r.spec_git() == Some(git),
            r.spec_ai() == self.spec_ai(),
            r.spec_search() == self.spec_search(),
            r.spec_config() == self.spec_config(),
            r.spec_rg_pattern() == self.spec_rg_pattern(),
            r.spec_fd_pattern() == self.spec_fd_pattern(),
            r.spec_auto_push() == self.spec_auto_push(),
    {
        PipelineBuilder { git: Some(git), ..self }
    }

    pub fn with_ai(self, ai: Arc<A>) -> (r: Self)
        ensures
            r.spec_git() == self.spec_git(),
            r.spec_ai() == Some(ai),
            r.spec_search() == self.spec_search(),
            r.spec_config() == self.spec_config(),
            r.spec_rg_pattern() == self.spec_rg_pattern(),
            r.spec_fd_pattern() == self.spec_fd_pattern(),
            r.spec_auto_push() == self.spec_auto_push(),
    {
        PipelineBuilder { ai: Some(ai), ..self }
    }

    pub fn with_search(self, search: Arc<S>) -> (r: Self)
        ensures
            r.spec_git() == self.spec_git(),
            r.spec_ai() == self.spec_ai(),
            r.spec_search() == Some(search),
            r.spec_config() == self.spec_config(),
            r.spec_rg_pattern() == self.spec_rg_pattern(),
            r.spec_fd_pattern() == self.spec_fd_pattern(),
            r.spec_auto_push() == self.spec_auto_push(),
    {
        PipelineBuilder { search: Some(search), ..self }
    }

    pub fn with_config(self, config: Config) -> (r: Self)
        ensures
            r.spec_git() == self.spec_git(),
            r.spec_ai() == self.spec_ai(),
            r.spec_search() == self.spec_search(),
            r.spec_config() == Some(config),
            r.spec_rg_pattern() == self.spec_rg_pattern(),
            r.spec_fd_pattern() == self.spec_fd_pattern(),
            r.spec_auto_push() == self.spec_auto_push(),
    {
        PipelineBuilder { config: Some(config), ..self }
    }

    pub fn with_rg_pattern(self, pattern: String) -> (r: Self)
        ensures
            r.spec_git() == self.spec_git(),
            r.spec_ai() == self.spec_ai(),
            r.spec_search() == self.spec_search(),
            r.spec_config() == self.spec_config(),
            r.spec_rg_pattern() == pattern@,
            r.spec_fd_pattern() == self.spec_fd_pattern(),
            r.spec_auto_push() == self.spec_auto_push(),
    {
        PipelineBuilder { rg_pattern: pattern, ..self }
    }

    pub fn with_fd_pattern(self, pattern: String) -> (r: Self)
        ensures
            r.spec_git() == self.spec_git(),
            r.spec_ai() == self.spec_ai(),
            r.spec_search() == self.spec_search(),
            r.spec_config() == self.spec_config(),
            r.spec_rg_pattern() == self.spec_rg_pattern(),
            r.spec_fd_pattern() == pattern@,
            r.spec_auto_push() == self.spec_auto_push(),
    {
        PipelineBuilder { fd_pattern: pattern, ..self }
    }

    /// Pushes to `remote` after the commits (`None`: no push).
    pub fn with_auto_push(self, remote: Option<String>) -> (r: Self)
        ensures
            r.spec_git() == self.spec_git(),
            r.spec_ai() == self.spec_ai(),
            r.spec_search() == self.spec_search(),
            r.spec_config() == self.spec_config(),
            r.spec_rg_pattern() == self.spec_rg_pattern(),
            r.spec_fd_pattern() == self.spec_fd_pattern(),
            r.spec_auto_push() == remote,
    {
        PipelineBuilder { auto_push: remote, ..self }
    }
}

/// A stage of the standard pipeline.
pub enum Stage<G: ?Sized, A: ?Sized, S: ?Sized> {
    Diff(DiffCollector<G>),
    Enrich(ContextEnricher<S>),
    Generate(AiGenerator<A>),
    Parse(EntryParser),
    Commit(CommitExecutor<G>),
    Push(GitPusher<G>),
}

impl<G: GitBackend + ?Sized, A: AiProvider + ?Sized, S: SearchBackend + ?Sized> PipelineStage for Stage<
    G,
    A,
    S,
> {
    /// The step of the stage held.
    open spec fn step(&self, before: ContextModel, after: ContextModel, r: Result<(), AgcError>) -> bool {
        match self {
            Stage::Diff(s) => s.step(before, after, r),
            Stage::Enrich(s) => s.step(before, after, r),
            Stage::Generate(s) => s.step(before, after, r),
            Stage::Parse(s) => s.step(before, after, r),
            Stage::Commit(s) => s.step(before, after, r),
            Stage::Push(s) => s.step(before, after, r),
        }
    }

    fn execute(&self, ctx: &mut PipelineContext, host: &dyn Host) -> (r: Result<(), AgcError>) {
        match self {
            Stage::Diff(s) => s.execute(ctx, host),
            Stage::Enrich(s) => s.execute(ctx, host),
            Stage::Generate(s) => s.execute(ctx, host),
            Stage::Parse(s) => s.execute(ctx, host),
            Stage::Commit(s) => s.execute(ctx, host),
            Stage::Push(s) => s.execute(ctx, host),
        }
    }
}

/// The stages `build` makes, in order: collect with `git`; search with
/// `search` and the two patterns; ask `ai` with `config`; parse; commit with
/// `git`; then, when `push` names a remote, push there with `git` (the
/// current branch's upstream).
pub open spec fn standard_stages<G: ?Sized, A: ?Sized, S: ?Sized>(
    stages: Seq<Stage<G, A, S>>,
    git: Arc<G>,
    ai: Arc<A>,
    search: Arc<S>,
    config: Config,
    rg_pattern: Seq<char>,
    fd_pattern: Seq<char>,
    push: Option<String>,
) -> bool {
    &&& stages.len() == (if push is Some {
        6int
    } else {
        5int
    })
    &&& stages[0] matches Stage::Diff(d) && d.backend() == git
    &&& stages[1] matches Stage::Enrich(e) && e.backend() == search && e.spec_rg_pattern()
        == rg_pattern && e.spec_fd_pattern() == fd_pattern
    &&& stages[2] matches Stage::Generate(g) && g.backend() == ai && g.spec_config() == config
    &&& stages[3] is Parse
    &&& stages[4] matches Stage::Commit(c) && c.backend() == git
    &&& push matches Some(remote) ==> (stages[5] matches Stage::Push(p) && p.backend() == git
        && p.spec_remote() == remote@ && p.spec_branch().len() == 0)
}

impl<
    G: GitBackend + ?Sized + 'static,
    A: AiProvider + ?Sized + 'static,
    S: SearchBackend + ?Sized + 'static,
> PipelineBuilder<G, A, S> {
    /// The pipeline `DiffCollector → ContextEnricher → AiGenerator →
    /// EntryParser → CommitExecutor`, then `GitPusher` when a push remote is
    /// set. Fails on the first missing part, in the order git, AI, search,
    /// configuration.
    pub fn build(self) -> (r: Result<Pipeline<Stage<G, A, S>>, AgcError>)
        ensures
            self.spec_git() is None ==> (r matches Err(AgcError::Other(m)) && m@ == missing_message(
                "GitBackend"@,
            )),
            self.spec_git() is Some && self.spec_ai() is None ==> (r matches Err(AgcError::Other(m))
                && m@ == missing_message("AiProvider"@)),
            self.spec_git() is Some && self.spec_ai() is Some && self.spec_search() is None ==> (
            r matches Err(AgcError::Other(m)) && m@ == missing_message("SearchBackend"@)),
            self.spec_git() is Some && self.spec_ai() is Some && self.spec_search() is Some
                && self.spec_config() is None ==> (r matches Err(AgcError::Other(m)) && m@
                == missing_message("Config"@)),
            r is Ok <==> (self.spec_git() is Some && self.spec_ai() is Some
                && self.spec_search() is Some && self.spec_config() is Some),
            r matches Ok(p) ==> standard_stages(
                p.stages(),
                self.spec_git()->0,
                self.spec_ai()->0,
                self.spec_search()->0,
                self.spec_config()->0,
                self.spec_rg_pattern(),
                self.spec_fd_pattern(),
                self.spec_auto_push(),
            ),
    {
        let git = match self.git {
            Some(g) => g,
            None => return Err(missing("GitBackend")),
        };
        let ai = match self.ai {
            Some(a) => a,
            None => return Err(missing("AiProvider")),
        };
        let search = match self.search {
            Some(s) => s,
            None => return Err(missing("SearchBackend")),
        };
        let config = match self.config {
            Some(c) => c,
            None => return Err(missing("Config")),
        };
        proof {
            reveal_strlit("");
        }
        let diff = Stage::Diff(DiffCollector::new(share(&git)));
        let enrich = Stage::Enrich(ContextEnricher::new(search, self.rg_pattern, self.fd_pattern));
        let generate = Stage::Generate(AiGenerator::new(ai, config));
        let commit = Stage::Commit(CommitExecutor::new(share(&git)));
        let stages: Vec<Stage<G, A, S>> = match self.auto_push {
            Some(remote) => {
                let push = Stage::Push(GitPusher::new(git, remote, String::new()));
                vec![diff, enrich, generate, Stage::Parse(EntryParser), commit, push]
            },
            None => vec![diff, enrich, generate, Stage::Parse(EntryParser), commit],
        };
        Ok(Pipeline::new(stages))
    }
}

impl<G: ?Sized, A: ?Sized, S: ?Sized> Default for PipelineBuilder<G, A, S> {
    fn default() -> (r: Self)
        ensures
            r.spec_git() is None,
            r.spec_ai() is None,
            r.spec_search() is None,
            r.spec_config() is None,
            r.spec_rg_pattern().len() == 0,
            r.spec_fd_pattern().len() == 0,
            r.spec_auto_push() is None,
    {
        Self::new()
    }
}

} // verus!
