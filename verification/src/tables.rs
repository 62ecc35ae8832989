//! The three storage tables of the contracts, each kept in an
//! `ink_storage::collections::HashMap`.
//!
//! Nothing in this file is proved. Each table is opaque to the verifier;
//! what a table holds is named by a specification function without a body,
//! and the contract of each method states, over that name, what the
//! corresponding method of the storage hash map does. Everything else in the
//! crate is verified against these contracts.
//!
//! The tables are only ever made by `new`, so they are never bound to a
//! contract's storage cells: every lookup is answered from the entries that
//! were inserted before.
//!
//! The balance tables and the agent table are keyed by the account type of
//! the ink! environment, and their methods convert at the boundary. The rows
//! of the dispute table are handed out to be changed in place, so they are
//! made of types that the verifier reads: an account is stored as its
//! bytes, which is also how the environment's account type is encoded.
use crate::account::AccountId;
use crate::ledger::Agent;
use vstd::prelude::*;

verus! {

/// A dispute as the dispute table stores it: id, initiator, target, reason,
/// status code, votes for, votes against, time of creation. The two accounts
/// are stored as their bytes.
pub type DisputeRow = (u64, [u8; 32], [u8; 32], Vec<u8>, u8, u32, u32, u64);

/// What a `DisputeRow` stands for in contracts: the same fields, the reason
/// as a sequence of bytes.
pub type DisputeRowView = (u64, [u8; 32], [u8; 32], Seq<u8>, u8, u32, u32, u64);

/// The fields of a row, the reason taken as the sequence of its bytes.
pub open spec fn row_view(row: DisputeRow) -> DisputeRowView {
    (row.0, row.1, row.2, row.3@, row.4, row.5, row.6, row.7)
}

/// A table from account to amount, kept in an
/// `ink_storage::collections::HashMap`: the ledger's balances, and its
/// stakes. The verifier does not look inside.
#[verifier::external_body]
pub struct BalanceTable {
    inner: ink_storage::collections::HashMap<ink_env::AccountId, u128>,
}

/// The entries that a balance table holds: the accounts that have one, each
/// with its amount. Nothing is known of it but what the methods below state.
pub uninterp spec fn balance_entries(table: BalanceTable) -> Map<AccountId, u128>;

impl BalanceTable {
    /// `HashMap::new`: a table without entries.
    #[verifier::external_body]
    pub(crate) fn new() -> (table: BalanceTable)
        ensures
            balance_entries(table).dom() == Set::<AccountId>::empty(),
    {
        BalanceTable { inner: ink_storage::collections::HashMap::new() }
    }

    /// `HashMap::len`: the number of entries.
    #[verifier::external_body]
    pub(crate) fn len(&self) -> (n: u32)
        ensures
            n == balance_entries(*self).len(),
    {
        self.inner.len()
    }

    /// `HashMap::get`: the amount stored for `account`, if it has an entry.
    #[verifier::external_body]
    pub(crate) fn get(&self, account: &AccountId) -> (amount: Option<u128>)
        ensures
            amount == (if balance_entries(*self).contains_key(*account) {
                Some(balance_entries(*self)[*account])
            } else {
                None
            }),
    {
        self.inner.get(&ink_env::AccountId::from(account.bytes)).copied()
    }

    /// `HashMap::insert`: stores `amount` for `account`, in place of what the
    /// account had; every other entry stays. The hash map counts its entries
    /// in a `u32`, so a new entry needs room in that count.
    #[verifier::external_body]
    pub(crate) fn insert(&mut self, account: AccountId, amount: u128)
        requires
            balance_entries(*old(self)).contains_key(account) || balance_entries(*old(self)).len()
                < u32::MAX,
        ensures
            balance_entries(*final(self)) == balance_entries(*old(self)).insert(account, amount),
    {
        self.inner.insert(ink_env::AccountId::from(account.bytes), amount);
    }
}

/// The agent registry: a table from an agent's id to its record, kept in an
/// `ink_storage::collections::HashMap`. The verifier does not look inside.
#[verifier::external_body]
pub struct AgentTable {
    inner: ink_storage::collections::HashMap<
        ink_env::AccountId,
        (ink_env::AccountId, ink_env::AccountId, u128, u32),
    >,
}

/// The entries that an agent table holds: the registered ids, each with its
/// record. Nothing is known of it but what the methods below state.
pub uninterp spec fn agent_entries(table: AgentTable) -> Map<AccountId, Agent>;

impl AgentTable {
    /// `HashMap::new`: a table without entries.
    #[verifier::external_body]
    pub(crate) fn new() -> (table: AgentTable)
        ensures
            agent_entries(table).dom() == Set::<AccountId>::empty(),
    {
        AgentTable { inner: ink_storage::collections::HashMap::new() }
    }

    /// `HashMap::len`: the number of entries.
    #[verifier::external_body]
    pub(crate) fn len(&self) -> (n: u32)
        ensures
            n == agent_entries(*self).len(),
    {
        self.inner.len()
    }

    /// `HashMap::get`: a copy of the record stored under `id`, if there is
    /// one.
    #[verifier::external_body]
    pub(crate) fn get(&self, id: &AccountId) -> (agent: Option<Agent>)
        ensures
            agent == (if agent_entries(*self).contains_key(*id) {
                Some(agent_entries(*self)[*id])
            } else {
                None
            }),
    {
        self.inner.get(&ink_env::AccountId::from(id.bytes)).map(
            |row| Agent {
                id: AccountId { bytes: *row.0.as_ref() },
                owner: AccountId { bytes: *row.1.as_ref() },
                stake: row.2,
                reputation: row.3,
            },
        )
    }

    /// `HashMap::insert`: stores `agent` under `id`, in place of what was
    /// there; every other entry stays. The hash map counts its entries in a
    /// `u32`, so a new entry needs room in that count.
    #[verifier::external_body]
    pub(crate) fn insert(&mut self, id: AccountId, agent: Agent)
        requires
            agent_entries(*old(self)).contains_key(id) || agent_entries(*old(self)).len()
                < u32::MAX,
        ensures
            agent_entries(*final(self)) == agent_entries(*old(self)).insert(id, agent),
    {
        self.inner.insert(
            ink_env::AccountId::from(id.bytes),
            (
                ink_env::AccountId::from(agent.id.bytes),
                ink_env::AccountId::from(agent.owner.bytes),
                agent.stake,
                agent.reputation,
            ),
        );
    }
}

/// The dispute table: from a dispute's id to its row, kept in an
/// `ink_storage::collections::HashMap`. The verifier does not look inside.
#[verifier::external_body]
pub struct DisputeTable {
    inner: ink_storage::collections::HashMap<u64, DisputeRow>,
}

/// The entries that a dispute table holds: the ids in use, each with its row.
/// Nothing is known of it but what the methods below state.
pub uninterp spec fn dispute_entries(table: DisputeTable) -> Map<u64, DisputeRowView>;

impl DisputeTable {
    /// `HashMap::new`: a table without entries.
    #[verifier::external_body]
    pub(crate) fn new() -> (table: DisputeTable)
        ensures
            dispute_entries(table).dom() == Set::<u64>::empty(),
    {
        DisputeTable { inner: ink_storage::collections::HashMap::new() }
    }

    /// `HashMap::get`: a copy of the row stored under `id`, if there is one.
    #[verifier::external_body]
    pub(crate) fn get(&self, id: u64) -> (row: Option<DisputeRow>)
        ensures
            row is Some == dispute_entries(*self).contains_key(id),
            row matches Some(r) ==> row_view(r) == dispute_entries(*self)[id],
    {
        self.inner.get(&id).cloned()
    }

    /// `HashMap::get_mut`: the row stored under `id`, if there is one, to be
    /// changed in place. What the caller leaves in the row is what the table
    /// then holds under `id`; every other entry stays.
    #[verifier::external_body]
    pub(crate) fn get_mut(&mut self, id: u64) -> (row: Option<&mut DisputeRow>)
        ensures
            row is Some == dispute_entries(*old(self)).contains_key(id),
            row is Some ==> row_view(*row.unwrap()) == dispute_entries(*old(self))[id],
            row is Some ==> dispute_entries(*final(self)) == dispute_entries(*old(self)).insert(
                id,
                row_view(*final(row.unwrap())),
            ),
            row is None ==> dispute_entries(*final(self)) == dispute_entries(*old(self)),
    {
        self.inner.get_mut(&id)
    }

    /// `HashMap::insert`: stores `row` under `id`, in place of what was
    /// there; every other entry stays. The hash map counts its entries in a
    /// `u32`, so a new entry needs room in that count.
    #[verifier::external_body]
    pub(crate) fn insert(&mut self, id: u64, row: DisputeRow)
        requires
            dispute_entries(*old(self)).contains_key(id) || dispute_entries(*old(self)).len()
                < u32::MAX,
        ensures
            dispute_entries(*final(self)) == dispute_entries(*old(self)).insert(id, row_view(row)),
    {
        self.inner.insert(id, row);
    }
}

} // verus!
