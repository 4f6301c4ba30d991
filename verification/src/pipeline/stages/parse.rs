//! Stage 4: read the commit entries out of the model's answer.
use vstd::prelude::*;

use crate::commit::AiResponse;
use crate::commit::service::{decodable, entries_from, response_text};
use crate::error::AgcError;
use crate::model::Model;
use crate::pipeline::context::ContextModel;
use crate::pipeline::{PipelineContext, PipelineStage};
use crate::ui::Host;
use crate::ui::color::yellow;

verus! {

/// The error when the model answered nothing.
pub const EMPTY_ANSWER_MESSAGE: &'static str = "AI 未返回任何内容";

/// The error when the answer holds no commit entry.
pub const NO_ENTRY_MESSAGE: &'static str = "AI 未生成有效 commit 消息";

/// What an answer decoded as `decoded` makes of the context: its entries (all
/// of them, as decoded) and its reason. Without an entry (or without a decoded
/// answer) the run fails with `NO_ENTRY_MESSAGE` and the context is kept.
pub open spec fn answer_applied(
    before: ContextModel,
    decoded: Option<AiResponse>,
    after: ContextModel,
    r: Result<(), AgcError>,
) -> bool {
    if decoded matches Some(d) && d.data@.len() > 0 {
        r is Ok && after == (ContextModel {
            entries: decoded->0.data.model(),
            reason: decoded->0.reason@,
            ..before
        })
    } else {
        after == before && (r matches Err(AgcError::Other(m)) && m@ == NO_ENTRY_MESSAGE@)
    }
}

/// Stores a decoded answer in the context (see `answer_applied`); the reason,
/// when there is one, is shown.
pub fn apply_answer(ctx: &mut PipelineContext, decoded: Option<AiResponse>, host: &dyn Host) -> (r:
    Result<(), AgcError>)
    ensures
        answer_applied(old(ctx).model(), decoded, final(ctx).model(), r),
{
    let ghost d0 = decoded;
    let (entries, reason) = entries_from(decoded);
    assert(d0 matches Some(d) ==> d.data.model().len() == d.data@.len());
    if entries.len() == 0 {
        return Err(AgcError::Other(String::from_str(NO_ENTRY_MESSAGE)));
    }
    if !reason.as_str().is_empty() {
        let mut line = String::from_str("\n");
        line.append(yellow(reason.as_str()).as_str());
        host.say(line.as_str());
    }
    let ghost em = entries.model();
    let ghost rm = reason@;
    ctx.entries = entries;
    ctx.reason = reason;
    assert(ctx.model() == (ContextModel { entries: em, reason: rm, ..old(ctx).model() }));
    Ok(())
}

/// Decodes the model's answer into commit entries.
pub struct EntryParser;

impl PipelineStage for EntryParser {
    /// Without changes: nothing done, success. With changes: an empty answer
    /// fails with `EMPTY_ANSWER_MESSAGE`; otherwise the decoded answer is
    /// applied (see `answer_applied`).
    open spec fn step(&self, before: ContextModel, after: ContextModel, r: Result<(), AgcError>) -> bool {
        if !before.has_changes {
            r is Ok && after == before
        } else if before.raw_response.len() == 0 {
            after == before && (r matches Err(AgcError::Other(m)) && m@ == EMPTY_ANSWER_MESSAGE@)
        } else {
            exists|d: Option<AiResponse>|
                decodable(before.raw_response, d) && #[trigger] answer_applied(before, d, after, r)
        }
    }

    fn execute(&self, ctx: &mut PipelineContext, host: &dyn Host) -> (r: Result<(), AgcError>) {
        if !ctx.has_changes {
            return Ok(());
        }
        if ctx.raw_response.as_str().is_empty() {
            return Err(AgcError::Other(String::from_str(EMPTY_ANSWER_MESSAGE)));
        }
        let decoded = match response_text(ctx.raw_response.as_str()) {
            None => None,
            Some(t) => host.decode_response(t.as_str()),
        };
        let ghost d = decoded;
        let r = apply_answer(ctx, decoded, host);
        assert(decodable(old(ctx).raw_response@, d));
        r
    }
}

} // verus!
