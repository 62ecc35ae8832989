//! What holds of the ledger whatever is called on it, proved from the
//! operations as functions on views.
use crate::account::AccountId;
use crate::amounts::{
    amount_of, credited, debited, fits, lemma_insert_len, lemma_sum_bounds_each, lemma_sum_empty,
    lemma_sum_insert, sum_values,
};
use crate::error::Error;
use crate::ledger::{applied, credited_all, Agent, LedgerOp, LedgerView};
use vstd::prelude::*;

verus! {

/// The sum of all rewards of a list.
pub open spec fn reward_sum(rewards: Seq<(AccountId, u128)>) -> nat
    decreases rewards.len(),
{
    if rewards.len() == 0 {
        0
    } else {
        reward_sum(rewards.drop_last()) + rewards.last().1 as nat
    }
}

/// The sum of the rewards that a list holds for one account.
pub open spec fn reward_of(rewards: Seq<(AccountId, u128)>, account: AccountId) -> nat
    decreases rewards.len(),
{
    if rewards.len() == 0 {
        0
    } else {
        reward_of(rewards.drop_last(), account) + (if rewards.last().0 == account {
            rewards.last().1 as nat
        } else {
            0
        })
    }
}

/// By how much an applied operation moves the supply.
pub open spec fn supply_change(op: LedgerOp) -> int {
    match op {
        LedgerOp::Mint { to, amount } => amount as int,
        LedgerOp::Burn { amount } => -(amount as int),
        _ => 0,
    }
}

/// By how much an applied operation moves the balance of `account`.
pub open spec fn balance_change(op: LedgerOp, caller: AccountId, account: AccountId) -> int {
    match op {
        LedgerOp::Mint { to, amount } => if account == to {
            amount as int
        } else {
            0
        },
        LedgerOp::Burn { amount } => if account == caller {
            -(amount as int)
        } else {
            0
        },
        LedgerOp::Transfer { to, amount } => (if account == to {
            amount as int
        } else {
            0
        }) - (if account == caller {
            amount as int
        } else {
            0
        }),
        LedgerOp::RequestService { agent_id, payment } => (if account == agent_id {
            payment as int
        } else {
            0
        }) - (if account == caller {
            payment as int
        } else {
            0
        }),
        LedgerOp::Stake { amount } => if account == caller {
            -(amount as int)
        } else {
            0
        },
        LedgerOp::Unstake { amount } => if account == caller {
            amount as int
        } else {
            0
        },
        LedgerOp::DistributeRewards { recipients } => reward_of(recipients, account) as int,
        _ => 0,
    }
}

/// By how much an applied operation moves the stake of `account`.
pub open spec fn stake_change(op: LedgerOp, caller: AccountId, account: AccountId) -> int {
    match op {
        LedgerOp::Stake { amount } => if account == caller {
            amount as int
        } else {
            0
        },
        LedgerOp::Unstake { amount } => if account == caller {
            -(amount as int)
        } else {
            0
        },
        _ => 0,
    }
}

/// By how much an applied operation moves the sum of all balances.
pub open spec fn balances_change(op: LedgerOp) -> int {
    match op {
        LedgerOp::Mint { to, amount } => amount as int,
        LedgerOp::Burn { amount } => -(amount as int),
        LedgerOp::Stake { amount } => -(amount as int),
        LedgerOp::Unstake { amount } => amount as int,
        LedgerOp::DistributeRewards { recipients } => reward_sum(recipients) as int,
        _ => 0,
    }
}

/// By how much an applied operation moves the sum of all stakes.
pub open spec fn stakes_change(op: LedgerOp) -> int {
    match op {
        LedgerOp::Stake { amount } => amount as int,
        LedgerOp::Unstake { amount } => -(amount as int),
        _ => 0,
    }
}

/// Whether the supply equals the sum of all balances.
pub open spec fn supply_backed(ledger: LedgerView) -> bool {
    ledger.total_supply == sum_values(ledger.balances)
}

/// A refused call leaves the ledger exactly as it was.
pub proof fn lemma_refusal_changes_nothing(
    pre: LedgerView,
    post: LedgerView,
    r: Result<(), Error>,
    expected: Result<LedgerView, Error>,
)
    requires
        applied(pre, post, r, expected),
        r is Err,
    ensures
        post == pre,
        expected is Err,
{
}

/// A new ledger is well formed.
pub proof fn lemma_wf_at_start(caller: AccountId, initial_supply: u128)
    ensures
        LedgerView::init(caller, initial_supply).wf(),
{
    lemma_insert_len(Map::<AccountId, u128>::empty(), caller, initial_supply);
}

/// Rewards that can all be credited leave a table that fits.
pub proof fn lemma_credited_all_fits(
    balances: Map<AccountId, u128>,
    rewards: Seq<(AccountId, u128)>,
)
    requires
        fits(balances),
        credited_all(balances, rewards) is Some,
    ensures
        fits(credited_all(balances, rewards)->0),
    decreases rewards.len(),
{
    if rewards.len() > 0 {
        lemma_credited_all_fits(balances, rewards.drop_last());
    }
}

/// Every operation keeps the ledger well formed.
pub proof fn lemma_wf_kept(pre: LedgerView, caller: AccountId, op: LedgerOp)
    requires
        pre.wf(),
    ensures
        pre.after(caller, op).wf(),
{
    match op {
        LedgerOp::DistributeRewards { recipients } => {
            if credited_all(pre.balances, recipients) is Some {
                lemma_credited_all_fits(pre.balances, recipients);
            }
        },
        _ => {},
    }
}

/// What rewards make of one account: its balance grows by the rewards that
/// the list holds for it.
pub proof fn lemma_credited_all_account(
    balances: Map<AccountId, u128>,
    rewards: Seq<(AccountId, u128)>,
    account: AccountId,
)
    requires
        credited_all(balances, rewards) is Some,
    ensures
        amount_of(credited_all(balances, rewards)->0, account) == amount_of(balances, account)
            + reward_of(rewards, account),
    decreases rewards.len(),
{
    if rewards.len() > 0 {
        lemma_credited_all_account(balances, rewards.drop_last(), account);
    }
}

/// What rewards make of the sum of all balances: it grows by the sum of the
/// rewards.
pub proof fn lemma_credited_all_sum(
    balances: Map<AccountId, u128>,
    rewards: Seq<(AccountId, u128)>,
)
    requires
        fits(balances),
        credited_all(balances, rewards) is Some,
    ensures
        sum_values(credited_all(balances, rewards)->0) == sum_values(balances) + reward_sum(
            rewards,
        ),
    decreases rewards.len(),
{
    if rewards.len() > 0 {
        let earlier = credited_all(balances, rewards.drop_last())->0;
        lemma_credited_all_sum(balances, rewards.drop_last());
        lemma_credited_all_fits(balances, rewards.drop_last());
        let last = rewards.last();
        lemma_sum_insert(earlier, last.0, (amount_of(earlier, last.0) + last.1) as u128);
    }
}

/// The exact account of every applied operation. The supply, each balance
/// and each stake move by what the operation says and by nothing else, and
/// so do the sum of all balances and the sum of all stakes.
pub proof fn lemma_exact_account(
    pre: LedgerView,
    caller: AccountId,
    op: LedgerOp,
    account: AccountId,
)
    requires
        pre.wf(),
        pre.apply(caller, op) is Ok,
    ensures
        pre.apply(caller, op)->Ok_0.owner == pre.owner,
        pre.apply(caller, op)->Ok_0.total_supply == pre.total_supply + supply_change(op),
        pre.apply(caller, op)->Ok_0.balance_of(account) == pre.balance_of(account)
            + balance_change(op, caller, account),
        pre.apply(caller, op)->Ok_0.stake_of(account) == pre.stake_of(account) + stake_change(
            op,
            caller,
            account,
        ),
        sum_values(pre.apply(caller, op)->Ok_0.balances) == sum_values(pre.balances)
            + balances_change(op),
        sum_values(pre.apply(caller, op)->Ok_0.stakes) == sum_values(pre.stakes) + stakes_change(
            op,
        ),
{
    match op {
        LedgerOp::Mint { to, amount } => {
            lemma_sum_insert(pre.balances, to, (amount_of(pre.balances, to) + amount) as u128);
        },
        LedgerOp::Burn { amount } => {
            lemma_sum_insert(
                pre.balances,
                caller,
                (amount_of(pre.balances, caller) - amount) as u128,
            );
        },
        LedgerOp::Transfer { to, amount } => {
            lemma_moved(pre.balances, caller, to, amount);
        },
        LedgerOp::RequestService { agent_id, payment } => {
            lemma_moved(pre.balances, caller, agent_id, payment);
        },
        LedgerOp::Stake { amount } => {
            lemma_sum_insert(
                pre.balances,
                caller,
                (amount_of(pre.balances, caller) - amount) as u128,
            );
            lemma_sum_insert(pre.stakes, caller, (amount_of(pre.stakes, caller) + amount) as u128);
        },
        LedgerOp::Unstake { amount } => {
            lemma_sum_insert(pre.stakes, caller, (amount_of(pre.stakes, caller) - amount) as u128);
            lemma_sum_insert(
                pre.balances,
                caller,
                (amount_of(pre.balances, caller) + amount) as u128,
            );
        },
        LedgerOp::DistributeRewards { recipients } => {
            lemma_credited_all_account(pre.balances, recipients, account);
            lemma_credited_all_sum(pre.balances, recipients);
        },
        _ => {},
    }
}

/// A debit followed by a credit of the same amount keeps the sum.
proof fn lemma_moved(balances: Map<AccountId, u128>, from: AccountId, to: AccountId, amount: u128)
    requires
        fits(balances),
        amount_of(balances, from) >= amount,
        amount_of(debited(balances, from, amount), to) + amount <= u128::MAX,
    ensures
        sum_values(credited(debited(balances, from, amount), to, amount)) == sum_values(balances),
{
    let rest = debited(balances, from, amount);
    lemma_sum_insert(balances, from, (amount_of(balances, from) - amount) as u128);
    lemma_insert_len(balances, from, (amount_of(balances, from) - amount) as u128);
    lemma_sum_insert(rest, to, (amount_of(rest, to) + amount) as u128);
}

/// No balance and no stake is ever negative. Amounts are kept unsigned, so
/// what this says is that the exact account of an applied operation, taken
/// in the integers, never goes below zero: an operation takes out of a
/// balance or a stake no more than is there.
pub proof fn lemma_never_negative(
    pre: LedgerView,
    caller: AccountId,
    op: LedgerOp,
    account: AccountId,
)
    requires
        pre.wf(),
    ensures
        pre.after(caller, op).balance_of(account) >= 0,
        pre.after(caller, op).stake_of(account) >= 0,
        pre.apply(caller, op) is Ok ==> pre.balance_of(account) + balance_change(
            op,
            caller,
            account,
        ) >= 0 && pre.stake_of(account) + stake_change(op, caller, account) >= 0,
{
    if pre.apply(caller, op) is Ok {
        lemma_exact_account(pre, caller, op, account);
    }
}

/// At construction the supply equals the sum of all balances.
pub proof fn lemma_supply_backed_at_start(caller: AccountId, initial_supply: u128)
    ensures
        supply_backed(LedgerView::init(caller, initial_supply)),
{
    let none = Map::<AccountId, u128>::empty();
    lemma_sum_empty(none);
    lemma_sum_insert(none, caller, initial_supply);
}

/// While the supply equals the sum of all balances, no account holds more
/// than the supply.
pub proof fn lemma_balance_within_supply(ledger: LedgerView, account: AccountId)
    requires
        ledger.wf(),
        supply_backed(ledger),
    ensures
        ledger.balance_of(account) <= ledger.total_supply,
{
    lemma_sum_bounds_each(ledger.balances, account);
}

/// The supply stays equal to the sum of all balances under every operation
/// that moves both by the same amount: every one but a stake or an unstake
/// of more than nothing, which moves tokens between the balances and the
/// stakes, and a distribution of a reward of more than nothing, which
/// credits tokens that no supply stands for.
pub proof fn lemma_supply_stays_backed(pre: LedgerView, caller: AccountId, op: LedgerOp)
    requires
        pre.wf(),
        supply_backed(pre),
        pre.apply(caller, op) is Ok ==> supply_change(op) == balances_change(op),
    ensures
        supply_backed(pre.after(caller, op)),
{
    if pre.apply(caller, op) is Ok {
        lemma_exact_account(pre, caller, op, caller);
    }
}

/// The operations left out above do break that equality: after any applied
/// operation that moves the supply and the sum of all balances by different
/// amounts, the two differ.
pub proof fn lemma_supply_unbacked(pre: LedgerView, caller: AccountId, op: LedgerOp)
    requires
        pre.wf(),
        supply_backed(pre),
        pre.apply(caller, op) is Ok,
        supply_change(op) != balances_change(op),
    ensures
        !supply_backed(pre.after(caller, op)),
{
    lemma_exact_account(pre, caller, op, caller);
}

/// What does always hold: the supply and the sum of all rewards ever
/// credited stand for the balances and the stakes together. Under every
/// applied operation the sum of all balances plus the sum of all stakes
/// moves as the supply does, but for a distribution, which adds its rewards.
pub proof fn lemma_holdings_follow_supply(pre: LedgerView, caller: AccountId, op: LedgerOp)
    requires
        pre.wf(),
        pre.apply(caller, op) is Ok,
    ensures
        sum_values(pre.after(caller, op).balances) + sum_values(pre.after(caller, op).stakes) - (
        sum_values(pre.balances) + sum_values(pre.stakes)) == (pre.after(
            caller,
            op,
        ).total_supply - pre.total_supply) + (match op {
            LedgerOp::DistributeRewards { recipients } => reward_sum(recipients) as int,
            _ => 0,
        }),
{
    lemma_exact_account(pre, caller, op, caller);
}

/// A registration is allowed only where the caller's stake covers the stake
/// it names, and it moves no token: balances, stakes and supply stay.
pub proof fn lemma_registration_needs_stake(
    pre: LedgerView,
    caller: AccountId,
    id: AccountId,
    stake: u128,
)
    requires
        pre.register_agent(caller, id, stake) is Ok,
    ensures
        pre.stake_of(caller) >= stake,
        pre.register_agent(caller, id, stake)->Ok_0.balances == pre.balances,
        pre.register_agent(caller, id, stake)->Ok_0.stakes == pre.stakes,
        pre.register_agent(caller, id, stake)->Ok_0.total_supply == pre.total_supply,
        pre.register_agent(caller, id, stake)->Ok_0.agents[id] == (Agent {
            id,
            owner: caller,
            stake,
            reputation: 0,
        }),
{
}

} // verus!
