//! Stage 3: ask the model for commit messages.
use std::sync::Arc;

use vstd::prelude::*;

use crate::ai::{AiProvider, commit_request};
use crate::config::Config;
use crate::error::AgcError;
use crate::model::Model;
use crate::pipeline::context::ContextModel;
use crate::pipeline::{PipelineContext, PipelineStage};
use crate::ui::Host;

verus! {

/// Progress message while the model answers.
pub const GENERATE_MESSAGE: &'static str = "正在调用 AI 生成 commit 消息";

/// Asks the model for commit messages for the collected changes.
pub struct AiGenerator<A: ?Sized> {
    ai: Arc<A>,
    config: Config,
}

impl<A: ?Sized> AiGenerator<A> {
    pub closed spec fn backend(&self) -> Arc<A> {
        self.ai
    }

    pub closed spec fn spec_config(&self) -> Config {
        self.config
    }

    pub fn new(ai: Arc<A>, config: Config) -> (r: Self)
        ensures
            r.backend() == ai,
            r.spec_config() == config,
    {
        AiGenerator { ai, config }
    }
}

impl<A: AiProvider + ?Sized> PipelineStage for AiGenerator<A> {
    /// Without changes: nothing done, success. With changes: success sets the
    /// raw answer and keeps the rest; failure (the provider failed) records its
    /// error as the failure and keeps the rest.
    open spec fn step(&self, before: ContextModel, after: ContextModel, r: Result<(), AgcError>) -> bool {
        if !before.has_changes {
            r is Ok && after == before
        } else {
            match r {
                Ok(_) => exists|raw: Seq<char>| after == (ContextModel { raw_response: raw, ..before }),
                Err(e) => after == (ContextModel { failure: Some(e), ..before }),
            }
        }
    }

    fn execute(&self, ctx: &mut PipelineContext, host: &dyn Host) -> (r: Result<(), AgcError>) {
        if !ctx.has_changes {
            return Ok(());
        }
        let req = commit_request(
            &self.config,
            ctx.diff.as_str(),
            ctx.git_info.as_str(),
            ctx.extra_context.as_str(),
        );
        host.begin_progress(GENERATE_MESSAGE);
        let answer = self.ai.generate(&req);
        host.end_progress(GENERATE_MESSAGE);
        match answer {
            Ok(raw) => {
                ctx.raw_response = raw;
                assert(ctx.model() == (ContextModel { raw_response: raw@, ..old(ctx).model() }));
                Ok(())
            },
            Err(e) => {
                ctx.failure = Some(e.duplicate());
                Err(e)
            },
        }
    }
}

} // verus!
