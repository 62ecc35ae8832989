//! What holds of the dispute engine whatever is called on it, proved from
//! the operations as functions on views.
use crate::account::AccountId;
use crate::dispute_resolution::{applied, DisputeOp, DisputeStatus, DisputesView};
use crate::error::Error;
use vstd::prelude::*;

verus! {

/// How far a status is along the way of a dispute.
pub open spec fn stage(status: DisputeStatus) -> nat {
    match status {
        DisputeStatus::Pending => 0,
        DisputeStatus::Voting => 1,
        DisputeStatus::Resolved => 2,
        DisputeStatus::Rejected => 2,
    }
}

/// A refused call leaves the engine exactly as it was.
pub proof fn lemma_refusal_changes_nothing(
    pre: DisputesView,
    post: DisputesView,
    r: Result<(), Error>,
    expected: Result<DisputesView, Error>,
)
    requires
        applied(pre, post, r, expected),
        r is Err,
    ensures
        post == pre,
        expected is Err,
{
}

/// Every operation keeps the engine well formed.
pub proof fn lemma_wf_kept(pre: DisputesView, caller: AccountId, op: DisputeOp)
    requires
        pre.wf(),
    ensures
        pre.after(caller, op).wf(),
{
}

/// The first dispute gets the id 0.
pub proof fn lemma_first_id(caller: AccountId, target: AccountId, reason: Seq<u8>, now: u64)
    ensures
        DisputesView::init().wf(),
        DisputesView::init().initiate_dispute(caller, target, reason, now) matches Ok((id, _))
            && id == 0,
{
}

/// A dispute gets the count as its id, and the count then grows by one.
/// Nothing else moves the count. So the ids handed out are 0, 1, 2 and so
/// on, each one more than the one before, whatever else is called between.
pub proof fn lemma_ids_count_up(pre: DisputesView, caller: AccountId, op: DisputeOp)
    ensures
        op matches DisputeOp::Initiate { target, reason, now } ==> (pre.initiate_dispute(
            caller,
            target,
            reason,
            now,
        ) matches Ok((id, next)) ==> id == pre.dispute_count && next.dispute_count == id + 1),
        pre.after(caller, op).dispute_count == pre.dispute_count + (if op is Initiate && pre.apply(
            caller,
            op,
        ) is Ok {
            1int
        } else {
            0int
        }),
{
}

/// Two disputes raised one right after the other get ids that differ by
/// one.
pub proof fn lemma_successive_ids(
    pre: DisputesView,
    first_caller: AccountId,
    first_target: AccountId,
    first_reason: Seq<u8>,
    first_now: u64,
    second_caller: AccountId,
    second_target: AccountId,
    second_reason: Seq<u8>,
    second_now: u64,
)
    requires
        pre.initiate_dispute(first_caller, first_target, first_reason, first_now) is Ok,
        pre.initiate_dispute(first_caller, first_target, first_reason, first_now)->Ok_0.1
            .initiate_dispute(second_caller, second_target, second_reason, second_now) is Ok,
    ensures
        pre.initiate_dispute(first_caller, first_target, first_reason, first_now)->Ok_0.1
            .initiate_dispute(second_caller, second_target, second_reason, second_now)->Ok_0.0
            == pre.initiate_dispute(first_caller, first_target, first_reason, first_now)->Ok_0.0
            + 1,
{
}

/// A vote is taken only while the vote is open, and a dispute is closed
/// only while the vote is open.
pub proof fn lemma_open_vote_needed(pre: DisputesView, id: u64, approve: bool)
    ensures
        pre.vote(id, approve) is Ok ==> pre.disputes.contains_key(id) && pre.disputes[id].status
            == DisputeStatus::Voting,
        pre.resolve_dispute(id) is Ok <==> pre.disputes.contains_key(id) && pre.disputes[id].status
            == DisputeStatus::Voting,
{
}

/// Once a dispute is resolved or rejected, no call on it succeeds.
pub proof fn lemma_closed_refuses(pre: DisputesView, caller: AccountId, id: u64, approve: bool)
    requires
        pre.disputes.contains_key(id),
        pre.disputes[id].status.is_terminal(),
    ensures
        pre.start_voting(caller, id) is Err,
        pre.vote(id, approve) == Err::<DisputesView, Error>(Error::InvalidState),
        pre.resolve_dispute(id) == Err::<DisputesView, Error>(Error::InvalidState),
{
}

/// No operation removes a dispute or changes who raised it, against whom,
/// why and when; and no operation takes a dispute back to an earlier stage.
/// A dispute that is resolved or rejected stays as it is for good.
pub proof fn lemma_disputes_only_advance(
    pre: DisputesView,
    caller: AccountId,
    op: DisputeOp,
    id: u64,
)
    requires
        pre.wf(),
        pre.disputes.contains_key(id),
    ensures
        pre.after(caller, op).disputes.contains_key(id),
        pre.after(caller, op).disputes[id].id == pre.disputes[id].id,
        pre.after(caller, op).disputes[id].initiator == pre.disputes[id].initiator,
        pre.after(caller, op).disputes[id].target == pre.disputes[id].target,
        pre.after(caller, op).disputes[id].reason == pre.disputes[id].reason,
        pre.after(caller, op).disputes[id].created_at == pre.disputes[id].created_at,
        stage(pre.after(caller, op).disputes[id].status) >= stage(pre.disputes[id].status),
        pre.disputes[id].status.is_terminal() ==> pre.after(caller, op).disputes[id]
            == pre.disputes[id],
{
}

/// A tie closes a dispute as rejected; so does every count with no more
/// votes for than against.
pub proof fn lemma_tie_rejects(pre: DisputesView, id: u64)
    requires
        pre.resolve_dispute(id) is Ok,
    ensures
        pre.resolve_dispute(id)->Ok_0.disputes[id].status == (if pre.disputes[id].votes_for
            > pre.disputes[id].votes_against {
            DisputeStatus::Resolved
        } else {
            DisputeStatus::Rejected
        }),
        pre.disputes[id].votes_for == pre.disputes[id].votes_against ==> pre.resolve_dispute(
            id,
        )->Ok_0.disputes[id].status == DisputeStatus::Rejected,
{
}

} // verus!
