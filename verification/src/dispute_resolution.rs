//! The dispute engine: a record per dispute and the state machine that
//! every dispute goes through.
//!
//! ```text
//! Pending --start_voting, by the initiator--> Voting
//! Voting  --vote, any number of times------> Voting
//! Voting  --resolve_dispute----------------> Resolved   (more votes for than against)
//! Voting  --resolve_dispute----------------> Rejected   (otherwise)
//! ```
//!
//! `DisputesView` is the engine as a mathematical value, and each operation
//! is first a function on views. `DisputeResolution` is the executable
//! engine; the contract of each of its methods says that the method does
//! what the function on views says, and that a refused call leaves the
//! engine as it was.
use crate::account::AccountId;
use crate::amounts::lemma_insert_len;
use crate::error::Error;
use crate::tables::{dispute_entries, row_view, DisputeRow, DisputeRowView, DisputeTable};
use vstd::prelude::*;

verus! {

/// Where a dispute stands.
#[derive(Clone, Copy, Debug, PartialEq, Eq, Structural)]
pub enum DisputeStatus {
    /// Recorded, not yet open for votes.
    Pending,
    /// Open for votes.
    Voting,
    /// Closed in favour of the initiator.
    Resolved,
    /// Closed against the initiator.
    Rejected,
}

impl DisputeStatus {
    /// Whether no transition leaves this status.
    pub open spec fn is_terminal(self) -> bool {
        self == DisputeStatus::Resolved || self == DisputeStatus::Rejected
    }

    /// The code under which the dispute table keeps this status.
    pub open spec fn code_of(self) -> u8 {
        match self {
            DisputeStatus::Pending => 0,
            DisputeStatus::Voting => 1,
            DisputeStatus::Resolved => 2,
            DisputeStatus::Rejected => 3,
        }
    }

    /// The status that a code stands for, if it stands for one.
    pub open spec fn of_code(code: u8) -> Option<DisputeStatus> {
        if code == 0 {
            Some(DisputeStatus::Pending)
        } else if code == 1 {
            Some(DisputeStatus::Voting)
        } else if code == 2 {
            Some(DisputeStatus::Resolved)
        } else if code == 3 {
            Some(DisputeStatus::Rejected)
        } else {
            None
        }
    }

    /// The code of this status.
    pub fn code(self) -> (code: u8)
        ensures
            code == self.code_of(),
            Self::of_code(code) == Some(self),
    {
        match self {
            DisputeStatus::Pending => 0,
            DisputeStatus::Voting => 1,
            DisputeStatus::Resolved => 2,
            DisputeStatus::Rejected => 3,
        }
    }

    /// The status with the given code; `None` for a number that is no code.
    pub fn from_code(code: u8) -> (status: Option<DisputeStatus>)
        ensures
            status == Self::of_code(code),
            status matches Some(s) ==> s.code_of() == code,
    {
        if code == 0 {
            Some(DisputeStatus::Pending)
        } else if code == 1 {
            Some(DisputeStatus::Voting)
        } else if code == 2 {
            Some(DisputeStatus::Resolved)
        } else if code == 3 {
            Some(DisputeStatus::Rejected)
        } else {
            None
        }
    }
}

/// A dispute: a grievance of `initiator` against `target`, with the votes
/// cast on it so far.
#[derive(Clone, Debug, PartialEq, Eq)]
pub struct Dispute {
    /// The id under which the engine keeps the dispute.
    pub id: u64,
    /// The account that raised the dispute.
    pub initiator: AccountId,
    /// The account that the dispute is about.
    pub target: AccountId,
    /// The initiator's reason, as it was handed in.
    pub reason: Vec<u8>,
    /// Where the dispute stands.
    pub status: DisputeStatus,
    /// The votes in favour of the initiator.
    pub votes_for: u32,
    /// The votes against the initiator.
    pub votes_against: u32,
    /// The time at which the dispute was raised.
    pub created_at: u64,
}

/// A dispute as a mathematical value: the fields of `Dispute`, the reason as
/// a sequence of bytes.
pub struct DisputeView {
    /// The id under which the engine keeps the dispute.
    pub id: u64,
    /// The account that raised the dispute.
    pub initiator: AccountId,
    /// The account that the dispute is about.
    pub target: AccountId,
    /// The initiator's reason.
    pub reason: Seq<u8>,
    /// Where the dispute stands.
    pub status: DisputeStatus,
    /// The votes in favour of the initiator.
    pub votes_for: u32,
    /// The votes against the initiator.
    pub votes_against: u32,
    /// The time at which the dispute was raised.
    pub created_at: u64,
}

impl View for Dispute {
    type V = DisputeView;

    open spec fn view(&self) -> DisputeView {
        DisputeView {
            id: self.id,
            initiator: self.initiator,
            target: self.target,
            reason: self.reason@,
            status: self.status,
            votes_for: self.votes_for,
            votes_against: self.votes_against,
            created_at: self.created_at,
        }
    }
}

impl DisputeView {
    /// A dispute as it is when it is raised: pending, without votes.
    pub open spec fn raised(
        id: u64,
        initiator: AccountId,
        target: AccountId,
        reason: Seq<u8>,
        now: u64,
    ) -> DisputeView {
        DisputeView {
            id,
            initiator,
            target,
            reason,
            status: DisputeStatus::Pending,
            votes_for: 0,
            votes_against: 0,
            created_at: now,
        }
    }

    /// The status that closes this dispute: resolved where strictly more
    /// votes were cast for than against, rejected otherwise, a tie included.
    pub open spec fn verdict(self) -> DisputeStatus {
        if self.votes_for > self.votes_against {
            DisputeStatus::Resolved
        } else {
            DisputeStatus::Rejected
        }
    }
}

/// The most disputes that an engine can hold: its table counts them in a
/// `u32`.
pub const MAX_DISPUTES: u64 = 4294967295;

/// The engine as a mathematical value.
#[verifier::ext_equal]
pub struct DisputesView {
    /// Every dispute raised so far, by id. None is ever removed.
    pub disputes: Map<u64, DisputeView>,
    /// The number of disputes raised so far, which is the next id.
    pub dispute_count: u64,
}

impl DisputesView {
    /// The ids in use are exactly those below the count, every dispute is
    /// kept under its own id, and the count is within `MAX_DISPUTES`.
    pub open spec fn wf(self) -> bool {
        &&& self.dispute_count <= MAX_DISPUTES
        &&& forall|id: u64| #[trigger] self.disputes.contains_key(id) <==> id < self.dispute_count
        &&& forall|id: u64| #[trigger]
            self.disputes.contains_key(id) ==> self.disputes[id].id == id
    }

    /// The engine at construction: no dispute.
    pub open spec fn init() -> DisputesView {
        DisputesView { disputes: Map::empty(), dispute_count: 0 }
    }

    /// Raising a dispute: it gets the next id and is stored as pending. The
    /// result is the id and the next engine. An engine that holds
    /// `MAX_DISPUTES` disputes takes no more.
    pub open spec fn initiate_dispute(
        self,
        caller: AccountId,
        target: AccountId,
        reason: Seq<u8>,
        now: u64,
    ) -> Result<(u64, DisputesView), Error> {
        if self.dispute_count >= MAX_DISPUTES {
            Err(Error::Overflow)
        } else {
            Ok(
                (
                    self.dispute_count,
                    DisputesView {
                        disputes: self.disputes.insert(
                            self.dispute_count,
                            DisputeView::raised(self.dispute_count, caller, target, reason, now),
                        ),
                        dispute_count: (self.dispute_count + 1) as u64,
                    },
                ),
            )
        }
    }

    /// The engine with the dispute `id` replaced by `dispute`.
    pub open spec fn with(self, id: u64, dispute: DisputeView) -> DisputesView {
        DisputesView { disputes: self.disputes.insert(id, dispute), ..self }
    }

    /// Opening the vote: only the initiator may, and only while the dispute
    /// is pending.
    pub open spec fn start_voting(self, caller: AccountId, id: u64) -> Result<DisputesView, Error> {
        if !self.disputes.contains_key(id) {
            Err(Error::NotFound)
        } else if self.disputes[id].initiator != caller {
            Err(Error::Unauthorized)
        } else if self.disputes[id].status != DisputeStatus::Pending {
            Err(Error::InvalidState)
        } else {
            Ok(self.with(id, DisputeView { status: DisputeStatus::Voting, ..self.disputes[id] }))
        }
    }

    /// A vote: one more for, or one more against, while the vote is open.
    pub open spec fn vote(self, id: u64, approve: bool) -> Result<DisputesView, Error> {
        if !self.disputes.contains_key(id) {
            Err(Error::NotFound)
        } else if self.disputes[id].status != DisputeStatus::Voting {
            Err(Error::InvalidState)
        } else if approve {
            if self.disputes[id].votes_for == u32::MAX {
                Err(Error::Overflow)
            } else {
                Ok(
                    self.with(
                        id,
                        DisputeView {
                            votes_for: (self.disputes[id].votes_for + 1) as u32,
                            ..self.disputes[id]
                        },
                    ),
                )
            }
        } else {
            if self.disputes[id].votes_against == u32::MAX {
                Err(Error::Overflow)
            } else {
                Ok(
                    self.with(
                        id,
                        DisputeView {
                            votes_against: (self.disputes[id].votes_against + 1) as u32,
                            ..self.disputes[id]
                        },
                    ),
                )
            }
        }
    }

    /// Closing the vote: the dispute takes the status that its votes call
    /// for. Nothing else changes.
    pub open spec fn resolve_dispute(self, id: u64) -> Result<DisputesView, Error> {
        if !self.disputes.contains_key(id) {
            Err(Error::NotFound)
        } else if self.disputes[id].status != DisputeStatus::Voting {
            Err(Error::InvalidState)
        } else {
            Ok(
                self.with(
                    id,
                    DisputeView { status: self.disputes[id].verdict(), ..self.disputes[id] },
                ),
            )
        }
    }
}

/// An operation of the engine with its arguments, the caller apart.
pub enum DisputeOp {
    /// `initiate_dispute`, at the time `now`.
    Initiate { target: AccountId, reason: Seq<u8>, now: u64 },
    /// `start_voting`.
    StartVoting { id: u64 },
    /// `vote`.
    Vote { id: u64, approve: bool },
    /// `resolve_dispute`.
    Resolve { id: u64 },
}

impl DisputesView {
    /// What the operation `op`, called by `caller`, makes of this engine, or
    /// why it is refused.
    pub open spec fn apply(self, caller: AccountId, op: DisputeOp) -> Result<DisputesView, Error> {
        match op {
            DisputeOp::Initiate { target, reason, now } => match self.initiate_dispute(
                caller,
                target,
                reason,
                now,
            ) {
                Ok((_, next)) => Ok(next),
                Err(e) => Err(e),
            },
            DisputeOp::StartVoting { id } => self.start_voting(caller, id),
            DisputeOp::Vote { id, approve } => self.vote(id, approve),
            DisputeOp::Resolve { id } => self.resolve_dispute(id),
        }
    }

    /// The engine after the operation: the next one where the operation is
    /// applied, this one where it is refused.
    pub open spec fn after(self, caller: AccountId, op: DisputeOp) -> DisputesView {
        match self.apply(caller, op) {
            Ok(next) => next,
            Err(_) => self,
        }
    }
}

/// Whether a call that returned `r` and took the engine from `pre` to `post`
/// did what `expected` says: on success the engine is the expected one, on
/// refusal the error is the expected one and the engine is as it was.
pub open spec fn applied(
    pre: DisputesView,
    post: DisputesView,
    r: Result<(), Error>,
    expected: Result<DisputesView, Error>,
) -> bool {
    match expected {
        Ok(next) => r is Ok && post == next,
        Err(e) => r == Err::<(), Error>(e) && post == pre,
    }
}

/// The dispute that a row of the table stands for. A row whose status is no
/// code stands for a pending dispute; the engine never stores one.
pub open spec fn dispute_of(row: DisputeRowView) -> DisputeView {
    DisputeView {
        id: row.0,
        initiator: AccountId { bytes: row.1 },
        target: AccountId { bytes: row.2 },
        reason: row.3,
        status: match DisputeStatus::of_code(row.4) {
            Some(status) => status,
            None => DisputeStatus::Pending,
        },
        votes_for: row.5,
        votes_against: row.6,
        created_at: row.7,
    }
}

/// The disputes that the rows of a table stand for.
pub open spec fn disputes_of(rows: Map<u64, DisputeRowView>) -> Map<u64, DisputeView> {
    rows.map_values(|row: DisputeRowView| dispute_of(row))
}

/// A row written back as it was leaves the table as it was.
proof fn lemma_row_kept(rows: Map<u64, DisputeRowView>, id: u64)
    requires
        rows.contains_key(id),
    ensures
        rows.insert(id, rows[id]) == rows,
{
    assert(rows.insert(id, rows[id]) =~= rows);
}

/// A row written in place of one that was there changes the dispute under
/// its id and nothing else.
proof fn lemma_row_changed(rows: Map<u64, DisputeRowView>, id: u64, row: DisputeRowView)
    requires
        rows.contains_key(id),
    ensures
        rows.insert(id, row).dom() == rows.dom(),
        disputes_of(rows.insert(id, row)) == disputes_of(rows).insert(id, dispute_of(row)),
{
    assert(rows.insert(id, row).dom() =~= rows.dom());
    assert(disputes_of(rows.insert(id, row)) =~= disputes_of(rows).insert(id, dispute_of(row)));
}

/// The row under which the table keeps a dispute.
fn row_of(dispute: Dispute) -> (row: DisputeRow)
    ensures
        dispute_of(row_view(row)) == dispute@,
        DisputeStatus::of_code(row.4) is Some,
{
    let code = dispute.status.code();
    (
        dispute.id,
        dispute.initiator.bytes,
        dispute.target.bytes,
        dispute.reason,
        code,
        dispute.votes_for,
        dispute.votes_against,
        dispute.created_at,
    )
}

/// The dispute engine: the dispute table and the number of disputes raised.
pub struct DisputeResolution {
    disputes: DisputeTable,
    dispute_count: u64,
}

impl View for DisputeResolution {
    type V = DisputesView;

    closed spec fn view(&self) -> DisputesView {
        DisputesView {
            disputes: disputes_of(dispute_entries(self.disputes)),
            dispute_count: self.dispute_count,
        }
    }
}

impl DisputeResolution {
    /// The invariant of an engine: the one of its view, and the one of the
    /// table behind it.
    pub open spec fn wf(&self) -> bool {
        self@.wf() && self.table_wf()
    }

    /// The table holds as many rows as disputes were raised, and the status
    /// of every row is a code.
    pub closed spec fn table_wf(&self) -> bool {
        &&& dispute_entries(self.disputes).dom().finite()
        &&& dispute_entries(self.disputes).dom().len() == self.dispute_count
        &&& forall|id: u64| #[trigger]
            dispute_entries(self.disputes).contains_key(id) ==> DisputeStatus::of_code(
                dispute_entries(self.disputes)[id].4,
            ) is Some
    }

    /// A new engine, without disputes.
    pub fn new() -> (engine: DisputeResolution)
        ensures
            engine.wf(),
            engine@ == DisputesView::init(),
    {
        let disputes = DisputeTable::new();
        proof {
            assert(dispute_entries(disputes) =~= Map::<u64, DisputeRowView>::empty());
            assert(disputes_of(dispute_entries(disputes)) =~= Map::<u64, DisputeView>::empty());
        }
        DisputeResolution { disputes, dispute_count: 0 }
    }

    /// The number of disputes raised so far: the id that the next one gets.
    pub fn dispute_count(&self) -> (count: u64)
        ensures
            count == self@.dispute_count,
    {
        self.dispute_count
    }

    /// The dispute with the given id, if there is one.
    pub fn get_dispute(&self, dispute_id: u64) -> (dispute: Option<Dispute>)
        requires
            self.wf(),
        ensures
            dispute is Some == self@.disputes.contains_key(dispute_id),
            dispute matches Some(d) ==> d@ == self@.disputes[dispute_id],
    {
        match self.disputes.get(dispute_id) {
            Some(row) => match DisputeStatus::from_code(row.4) {
                Some(status) => Some(
                    Dispute {
                        id: row.0,
                        initiator: AccountId { bytes: row.1 },
                        target: AccountId { bytes: row.2 },
                        reason: row.3,
                        status,
                        votes_for: row.5,
                        votes_against: row.6,
                        created_at: row.7,
                    },
                ),
                None => None,
            },
            None => None,
        }
    }

    /// Raises a dispute of `caller` against `target` at the time `now`. The
    /// dispute gets the next id, which is returned, and is pending. Neither
    /// account is looked at. Refused with `Overflow` only where the table
    /// has no room for another dispute.
    pub fn initiate_dispute(
        &mut self,
        caller: AccountId,
        target: AccountId,
        reason: Vec<u8>,
        now: u64,
    ) -> (r: Result<u64, Error>)
        requires
            old(self).wf(),
        ensures
            final(self).wf(),
            match old(self)@.initiate_dispute(caller, target, reason@, now) {
                Ok((id, next)) => r == Ok::<u64, Error>(id) && final(self)@ == next,
                Err(e) => r == Err::<u64, Error>(e) && final(self)@ == old(self)@,
            },
    {
        let id = self.dispute_count;
        if id >= MAX_DISPUTES {
            return Err(Error::Overflow);
        }
        let ghost rows = dispute_entries(self.disputes);
        let dispute = Dispute {
            id,
            initiator: caller,
            target,
            reason,
            status: DisputeStatus::Pending,
            votes_for: 0,
            votes_against: 0,
            created_at: now,
        };
        let row = row_of(dispute);
        proof {
            assert(old(self)@.disputes.contains_key(id) == rows.contains_key(id));
            lemma_insert_len(rows, id, row_view(row));
        }
        self.disputes.insert(id, row);
        self.dispute_count = id + 1;
        proof {
            assert(disputes_of(rows.insert(id, row_view(row))) =~= disputes_of(rows).insert(
                id,
                dispute_of(row_view(row)),
            ));
        }
        Ok(id)
    }

    /// Opens the vote on a dispute. Refused with `NotFound` where no dispute
    /// has the id, else with `Unauthorized` where the caller is not its
    /// initiator, else with `InvalidState` where it is not pending.
    pub fn start_voting(&mut self, caller: AccountId, dispute_id: u64) -> (r: Result<(), Error>)
        requires
            old(self).wf(),
        ensures
            final(self).wf(),
            applied(old(self)@, final(self)@, r, old(self)@.start_voting(caller, dispute_id)),
    {
        let ghost rows = dispute_entries(self.disputes);
        let row = match self.disputes.get_mut(dispute_id) {
            Some(row) => row,
            None => { return Err(Error::NotFound); },
        };
        proof {
            lemma_row_kept(rows, dispute_id);
        }
        if !(AccountId { bytes: row.1 }).same(&caller) {
            return Err(Error::Unauthorized);
        }
        if row.4 != DisputeStatus::Pending.code() {
            return Err(Error::InvalidState);
        }
        row.4 = DisputeStatus::Voting.code();
        proof {
            lemma_row_changed(rows, dispute_id, row_view(*row));
        }
        Ok(())
    }

    /// Casts one vote on a dispute, for the initiator where `approve` holds
    /// and against otherwise. Nobody is kept from voting, or from voting
    /// again. Refused with `NotFound` where no dispute has the id, else with
    /// `InvalidState` where the vote is not open, else with `Overflow` where
    /// the count is at `u32::MAX`.
    pub fn vote(&mut self, dispute_id: u64, approve: bool) -> (r: Result<(), Error>)
        requires
            old(self).wf(),
        ensures
            final(self).wf(),
            applied(old(self)@, final(self)@, r, old(self)@.vote(dispute_id, approve)),
    {
        let ghost rows = dispute_entries(self.disputes);
        let row = match self.disputes.get_mut(dispute_id) {
            Some(row) => row,
            None => { return Err(Error::NotFound); },
        };
        proof {
            lemma_row_kept(rows, dispute_id);
        }
        if row.4 != DisputeStatus::Voting.code() {
            return Err(Error::InvalidState);
        }
        if approve {
            if row.5 == u32::MAX {
                return Err(Error::Overflow);
            }
            row.5 = row.5 + 1;
        } else {
            if row.6 == u32::MAX {
                return Err(Error::Overflow);
            }
            row.6 = row.6 + 1;
        }
        proof {
            lemma_row_changed(rows, dispute_id, row_view(*row));
        }
        Ok(())
    }

    /// Closes the vote on a dispute: resolved where strictly more votes were
    /// cast for than against, rejected otherwise. No funds and no
    /// reputation move. Refused with `NotFound` where no dispute has the id,
    /// else with `InvalidState` where the vote is not open.
    pub fn resolve_dispute(&mut self, dispute_id: u64) -> (r: Result<(), Error>)
        requires
            old(self).wf(),
        ensures
            final(self).wf(),
            applied(old(self)@, final(self)@, r, old(self)@.resolve_dispute(dispute_id)),
    {
        let ghost rows = dispute_entries(self.disputes);
        let row = match self.disputes.get_mut(dispute_id) {
            Some(row) => row,
            None => { return Err(Error::NotFound); },
        };
        proof {
            lemma_row_kept(rows, dispute_id);
        }
        if row.4 != DisputeStatus::Voting.code() {
            return Err(Error::InvalidState);
        }
        if row.5 > row.6 {
            row.4 = DisputeStatus::Resolved.code();
        } else {
            row.4 = DisputeStatus::Rejected.code();
        }
        proof {
            lemma_row_changed(rows, dispute_id, row_view(*row));
        }
        Ok(())
    }
}

} // verus!
