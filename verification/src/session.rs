//! Session metadata: per-session token accounting and the request and
//! response shapes of the session-management surface.
//!
//! Reading and writing the session store is the host's business; the
//! rules for updating metadata live here.

use vstd::prelude::*;

use crate::message::Message;
use crate::usage::{spec_accumulate, accumulate_tokens, ProviderUsage};

verus! {

/// Longest accepted session description.
pub const MAX_DESCRIPTION_LENGTH: usize = 200;

/// Persisted metadata of one conversation session.
#[derive(Debug)]
pub struct SessionMetadata {
    /// Human-readable session name.
    pub description: String,
    /// Directory the session works in.
    pub working_dir: String,
    /// Schedule that spawned the session, if any.
    pub schedule_id: Option<String>,
    /// Number of messages in the conversation.
    pub message_count: usize,
    /// Token counts of the last turn.
    pub total_tokens: Option<i32>,
    pub input_tokens: Option<i32>,
    pub output_tokens: Option<i32>,
    /// Running totals over all turns.
    pub accumulated_total_tokens: Option<i32>,
    pub accumulated_input_tokens: Option<i32>,
    pub accumulated_output_tokens: Option<i32>,
}

/// Summary of one stored session.
#[derive(Debug)]
pub struct SessionInfo {
    pub id: String,
    /// Last-modified timestamp, as rendered text.
    pub modified: String,
    pub metadata: SessionMetadata,
}

/// Response listing the available sessions.
#[derive(Debug)]
pub struct SessionListResponse {
    pub sessions: Vec<SessionInfo>,
}

/// Response carrying one session's metadata and conversation.
#[derive(Debug)]
pub struct SessionHistoryResponse {
    pub session_id: String,
    pub metadata: SessionMetadata,
    pub messages: Vec<Message>,
}

/// Request to rename a session.
#[derive(Debug)]
pub struct UpdateSessionMetadataRequest {
    /// Updated description (name) for the session; at most
    /// [`MAX_DESCRIPTION_LENGTH`] characters.
    pub description: String,
}

/// One cell of a session-activity heatmap.
#[derive(Clone, Copy, Debug, PartialEq, Eq, Structural)]
pub struct ActivityHeatmapCell {
    pub week: usize,
    pub day: usize,
    pub count: usize,
}

/// Whether a proposed session description is accepted: it may not exceed
/// [`MAX_DESCRIPTION_LENGTH`] characters.
pub open spec fn spec_description_valid(description: Seq<char>) -> bool {
    description.len() <= MAX_DESCRIPTION_LENGTH
}

impl UpdateSessionMetadataRequest {
    /// Whether the requested description is accepted.
    pub fn is_valid(&self) -> (r: bool)
        ensures
            r == spec_description_valid(self.description@),
    {
        self.description.as_str().unicode_len() <= MAX_DESCRIPTION_LENGTH
    }
}

/// Applies an accepted rename to a session's metadata: the description is
/// replaced and everything else is kept. A description over the length
/// limit is rejected and leaves the metadata untouched.
pub fn apply_description_update(
    metadata: &mut SessionMetadata,
    request: UpdateSessionMetadataRequest,
) -> (accepted: bool)
    ensures
        accepted == spec_description_valid(request.description@),
        accepted ==> *final(metadata) == (SessionMetadata {
            description: request.description,
            ..*old(metadata)
        }),
        !accepted ==> *final(metadata) == *old(metadata),
{
    if request.is_valid() {
        metadata.description = request.description;
        true
    } else {
        false
    }
}

/// One turn's usage folded into a session's metadata: the last-turn
/// counts are overwritten, the running totals accumulate the turn's
/// counts (a missing prior total counts as zero and a negative turn
/// count is ignored), the message count becomes the conversation length
/// plus one for the reply being recorded, and the schedule id is
/// replaced.
pub open spec fn spec_metrics_updated(
    pre: SessionMetadata,
    post: SessionMetadata,
    usage: ProviderUsage,
    schedule_id: Option<String>,
    messages_length: usize,
) -> bool {
    &&& post.description == pre.description
    &&& post.working_dir == pre.working_dir
    &&& post.schedule_id == schedule_id
    &&& post.message_count == messages_length + 1
    &&& post.total_tokens == usage.usage.total_tokens
    &&& post.input_tokens == usage.usage.input_tokens
    &&& post.output_tokens == usage.usage.output_tokens
    &&& post.accumulated_total_tokens == spec_accumulate(
        pre.accumulated_total_tokens,
        usage.usage.total_tokens,
    )
    &&& post.accumulated_input_tokens == spec_accumulate(
        pre.accumulated_input_tokens,
        usage.usage.input_tokens,
    )
    &&& post.accumulated_output_tokens == spec_accumulate(
        pre.accumulated_output_tokens,
        usage.usage.output_tokens,
    )
}

/// Records one turn's token usage in a session's metadata. The host
/// reads the metadata before and persists it afterwards.
pub fn update_session_metrics(
    metadata: &mut SessionMetadata,
    usage: &ProviderUsage,
    schedule_id: Option<String>,
    messages_length: usize,
)
    requires
        messages_length < usize::MAX,
    ensures
        spec_metrics_updated(*old(metadata), *final(metadata), *usage, schedule_id, messages_length),
{
    metadata.schedule_id = schedule_id;
    metadata.total_tokens = usage.usage.total_tokens;
    metadata.input_tokens = usage.usage.input_tokens;
    metadata.output_tokens = usage.usage.output_tokens;
    metadata.message_count = messages_length + 1;
    metadata.accumulated_total_tokens = accumulate_tokens(
        metadata.accumulated_total_tokens,
        usage.usage.total_tokens,
    );
    metadata.accumulated_input_tokens = accumulate_tokens(
        metadata.accumulated_input_tokens,
        usage.usage.input_tokens,
    );
    metadata.accumulated_output_tokens = accumulate_tokens(
        metadata.accumulated_output_tokens,
        usage.usage.output_tokens,
    );
}

/// Sums the accumulated token counts of a list of sessions, counting
/// only positive totals so that a pathological negative total can never
/// lower the sum.
#[verifier::loop_isolation(false)]
pub fn total_positive_tokens(sessions: &Vec<SessionInfo>) -> (total: i64)
    requires
        sessions@.len() < 0x1_0000_0000,
    ensures
        total == spec_total_positive_tokens(sessions@),
        total >= 0,
{
    let n = sessions.len();
    let mut total: i64 = 0;
    let mut i: usize = 0;
    proof {
        assert(sessions@.subrange(0, 0) =~= Seq::<SessionInfo>::empty());
    }
    while i < n
        invariant
            i <= n,
            total == spec_total_positive_tokens(sessions@.subrange(0, i as int)),
            total >= 0,
        decreases n - i,
    {
        let ghost prefix = sessions@.subrange(0, i as int);
        let ghost next_prefix = sessions@.subrange(0, i as int + 1);
        proof {
            assert(next_prefix.drop_last() =~= prefix);
            assert(next_prefix.last() == sessions@[i as int]);
            lemma_total_positive_tokens_bounds(prefix);
        }
        if let Some(tokens) = sessions[i].metadata.accumulated_total_tokens {
            if tokens > 0 {
                proof {
                    assert(total + tokens <= 0x1_0000_0000 * (i32::MAX as int)) by {
                        assert(total <= prefix.len() * (i32::MAX as int));
                        assert(prefix.len() * (i32::MAX as int) + (i32::MAX as int) <= 0x1_0000_0000
                            * (i32::MAX as int)) by (nonlinear_arith)
                            requires
                                prefix.len() < 0x1_0000_0000,
                        ;
                    }
                }
                total = total + tokens as i64;
            }
        }
        i += 1;
    }
    proof {
        assert(sessions@.subrange(0, n as int) =~= sessions@);
    }
    total
}

/// The sum of the positive accumulated token counts of a session list.
pub open spec fn spec_total_positive_tokens(sessions: Seq<SessionInfo>) -> int
    decreases sessions.len(),
{
    if sessions.len() == 0 {
        0
    } else {
        spec_total_positive_tokens(sessions.drop_last()) + {
            match sessions.last().metadata.accumulated_total_tokens {
                Option::Some(t) => if t > 0 {
                    t as int
                } else {
                    0int
                },
                Option::None => 0int,
            }
        }
    }
}

/// The positive-token sum of `n` sessions is non-negative and at most
/// `n` times the largest count.
pub proof fn lemma_total_positive_tokens_bounds(sessions: Seq<SessionInfo>)
    ensures
        0 <= spec_total_positive_tokens(sessions) <= sessions.len() * (i32::MAX as int),
    decreases sessions.len(),
{
    if sessions.len() > 0 {
        lemma_total_positive_tokens_bounds(sessions.drop_last());
        assert(sessions.len() * (i32::MAX as int) == (sessions.len() - 1) * (i32::MAX as int) + (
        i32::MAX as int)) by (nonlinear_arith);
    }
}

/// A history response reports the session it was asked about, with its
/// metadata and messages handed through.
pub fn build_session_history_response(
    session_id: String,
    metadata: SessionMetadata,
    messages: Vec<Message>,
) -> (r: SessionHistoryResponse)
    ensures
        r.session_id == session_id,
        r.metadata == metadata,
        r.messages == messages,
{
    SessionHistoryResponse { session_id, metadata, messages }
}

} // verus!
