//! Stage 6 (with `--push`): push the commits.
use std::sync::Arc;

use vstd::prelude::*;

use crate::error::AgcError;
use crate::git::{GitBackend, GitCall, GitCallModel, GitRecordModel, perform_recorded};
use crate::model::Model;
use crate::pipeline::context::ContextModel;
use crate::pipeline::{PipelineContext, PipelineStage};
use crate::ui::Host;
use crate::ui::color::{green, paint_spec};

verus! {

/// `remote branch`, as the push is reported.
pub open spec fn push_target(remote: Seq<char>, branch: Seq<char>) -> Seq<char> {
    remote + " "@ + branch
}

/// The progress message of a push.
pub open spec fn push_progress(remote: Seq<char>, branch: Seq<char>) -> Seq<char> {
    "正在执行 git push "@ + push_target(remote, branch)
}

/// The line printed after a push succeeded.
pub open spec fn push_done(remote: Seq<char>, branch: Seq<char>) -> Seq<char> {
    paint_spec("32"@, "git push "@ + push_target(remote, branch) + " 成功"@)
}

/// Pushes to a remote (`branch` empty: the current branch's upstream).
pub struct GitPusher<G: ?Sized> {
    git: Arc<G>,
    remote: String,
    branch: String,
}

impl<G: ?Sized> GitPusher<G> {
    pub closed spec fn backend(&self) -> Arc<G> {
        self.git
    }

    pub closed spec fn spec_remote(&self) -> Seq<char> {
        self.remote@
    }

    pub closed spec fn spec_branch(&self) -> Seq<char> {
        self.branch@
    }

    pub fn new(git: Arc<G>, remote: String, branch: String) -> (r: Self)
        ensures
            r.backend() == git,
            r.spec_remote() == remote@,
            r.spec_branch() == branch@,
    {
        GitPusher { git, remote, branch }
    }

    /// The progress message of this push.
    pub fn progress_message(&self) -> (r: String)
        ensures
            r@ == push_progress(self.spec_remote(), self.spec_branch()),
    {
        let mut r = String::from_str("正在执行 git push ");
        r.append(self.remote.as_str());
        r.append(" ");
        r.append(self.branch.as_str());
        r
    }

    /// The line printed after this push succeeded.
    pub fn done_message(&self) -> (r: String)
        ensures
            r@ == push_done(self.spec_remote(), self.spec_branch()),
    {
        let mut t = String::from_str("git push ");
        t.append(self.remote.as_str());
        t.append(" ");
        t.append(self.branch.as_str());
        t.append(" 成功");
        let r = green(t.as_str());
        assert(t@ =~= "git push "@ + push_target(self.spec_remote(), self.spec_branch()) + " 成功"@);
        r
    }
}

impl<G: ?Sized> GitPusher<G> {
    /// The call that pushes: this pusher's remote and branch.
    pub fn push_call(&self) -> (c: GitCall)
        ensures
            c.model() == GitCallModel::Push(self.spec_remote(), self.spec_branch()),
    {
        GitCall::Push(self.remote.clone(), self.branch.clone())
    }
}

impl<G: GitBackend + ?Sized> PipelineStage for GitPusher<G> {
    /// The push of this remote and branch is added to the git log with git's
    /// answer, which is the result; nothing else changes.
    open spec fn step(&self, before: ContextModel, after: ContextModel, r: Result<(), AgcError>) -> bool {
        let call = GitCallModel::Push(self.spec_remote(), self.spec_branch());
        &&& (*self.backend()).answers(call, r)
        &&& after == (ContextModel {
            git_log: before.git_log.push(GitRecordModel { call, result: r }),
            ..before
        })
    }

    fn execute(&self, ctx: &mut PipelineContext, host: &dyn Host) -> (r: Result<(), AgcError>) {
        let msg = self.progress_message();
        host.begin_progress(msg.as_str());
        let call = self.push_call();
        let pushed = perform_recorded(&*self.git, call, &mut ctx.git_log);
        host.end_progress(msg.as_str());
        if pushed.is_ok() {
            host.say(self.done_message().as_str());
        }
        pushed
    }
}

} // verus!
