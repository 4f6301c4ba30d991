//! Stage 2: search the code around the changed files.
use std::sync::Arc;

use vstd::prelude::*;

use crate::error::AgcError;
use crate::model::Model;
use crate::pipeline::context::ContextModel;
use crate::pipeline::{PipelineContext, PipelineStage};
use crate::search::{SearchBackend, merge_context, merge_context_spec};
use crate::ui::Host;

verus! {

/// Adds code-search context (ripgrep and fd) for the changed files.
pub struct ContextEnricher<S: ?Sized> {
    search: Arc<S>,
    rg_pattern: String,
    fd_pattern: String,
}

impl<S: ?Sized> ContextEnricher<S> {
    pub closed spec fn backend(&self) -> Arc<S> {
        self.search
    }

    pub closed spec fn spec_rg_pattern(&self) -> Seq<char> {
        self.rg_pattern@
    }

    pub closed spec fn spec_fd_pattern(&self) -> Seq<char> {
        self.fd_pattern@
    }

    pub fn new(search: Arc<S>, rg_pattern: String, fd_pattern: String) -> (r: Self)
        ensures
            r.backend() == search,
            r.spec_rg_pattern() == rg_pattern@,
            r.spec_fd_pattern() == fd_pattern@,
    {
        ContextEnricher { search, rg_pattern, fd_pattern }
    }
}

impl<S: ?Sized> ContextEnricher<S> {
    /// The patterns handed to the two searches: ripgrep's, then fd's.
    pub fn search_patterns(&self) -> (r: (String, String))
        ensures
            r.0@ == self.spec_rg_pattern(),
            r.1@ == self.spec_fd_pattern(),
    {
        (self.rg_pattern.clone(), self.fd_pattern.clone())
    }
}

/// Sets the extra context from what ripgrep (`rg`) and fd (`fd`) found.
pub fn apply_context(ctx: &mut PipelineContext, rg: &str, fd: &str)
    ensures
        final(ctx).model() == (ContextModel {
            extra_context: merge_context_spec(rg@, fd@),
            ..old(ctx).model()
        }),
{
    ctx.extra_context = merge_context(rg, fd);
}

impl<S: SearchBackend + ?Sized> PipelineStage for ContextEnricher<S> {
    /// Never fails. Without changes the context is kept; with changes the
    /// extra context becomes the merge of what the two searches found.
    open spec fn step(&self, before: ContextModel, after: ContextModel, r: Result<(), AgcError>) -> bool {
        &&& r is Ok
        &&& if before.has_changes {
            exists|rg: Seq<char>, fd: Seq<char>|
                after == (ContextModel { extra_context: merge_context_spec(rg, fd), ..before })
        } else {
            after == before
        }
    }

    fn execute(&self, ctx: &mut PipelineContext, host: &dyn Host) -> (r: Result<(), AgcError>) {
        if !ctx.has_changes {
            return Ok(());
        }
        let (rg_pattern, fd_pattern) = self.search_patterns();
        let rg = self.search.rg_context(ctx.changed_files.as_slice(), rg_pattern.as_str());
        let fd = self.search.fd_context(ctx.changed_files.as_slice(), fd_pattern.as_str());
        apply_context(ctx, rg.as_str(), fd.as_str());
        Ok(())
    }
}

} // verus!
