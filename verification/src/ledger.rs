//! The ledger: total supply, spendable balances, stakes and the agent
//! registry.
//!
//! `LedgerView` is the ledger as a mathematical value, and each operation is
//! first a function on views that gives either the next view or the reason
//! for refusal. `GaiaChain` is the executable ledger; the contract of each of
//! its methods says that the method does what the function on views says,
//! and that a refused call leaves the ledger as it was.
use crate::account::AccountId;
use crate::amounts::{amount_of, credited, debited, fits, lemma_insert_len};
use crate::error::Error;
use crate::tables::{agent_entries, balance_entries, AgentTable, BalanceTable};
use vstd::prelude::*;

verus! {

/// The record of a registered agent: a stake-backed identity that offers
/// services. The registry keeps it under `id`.
#[derive(Clone, Copy, Debug, PartialEq, Eq)]
pub struct Agent {
    /// The identity under which the agent is addressed.
    pub id: AccountId,
    /// The account that registered the agent and controls it.
    pub owner: AccountId,
    /// The stake that the registration named.
    pub stake: u128,
    /// The agent's reputation; zero at registration.
    pub reputation: u32,
}

/// The ledger as a mathematical value.
#[verifier::ext_equal]
pub struct LedgerView {
    /// The one account that may mint.
    pub owner: AccountId,
    /// The number of tokens that minting has put out and burning has not
    /// taken back.
    pub total_supply: u128,
    /// Spendable balance by account; an account without an entry holds zero.
    pub balances: Map<AccountId, u128>,
    /// Stake by account; an account without an entry has staked nothing.
    pub stakes: Map<AccountId, u128>,
    /// The registered agents by id.
    pub agents: Map<AccountId, Agent>,
}

/// One reward: the balance of the account `reward.0` grows by `reward.1`.
/// There is no result where the balance would pass `u128::MAX` or a new
/// entry would not fit.
pub open spec fn credit_step(balances: Map<AccountId, u128>, reward: (AccountId, u128)) -> Option<
    Map<AccountId, u128>,
> {
    if amount_of(balances, reward.0) + reward.1 > u128::MAX || !fits(
        credited(balances, reward.0, reward.1),
    ) {
        None
    } else {
        Some(credited(balances, reward.0, reward.1))
    }
}

/// All rewards, one after the other in the order of the list, each on what
/// the ones before it have left. There is no result where one of them has
/// none.
pub open spec fn credited_all(balances: Map<AccountId, u128>, rewards: Seq<(AccountId, u128)>)
    -> Option<Map<AccountId, u128>>
    decreases rewards.len(),
{
    if rewards.len() == 0 {
        Some(balances)
    } else {
        match credited_all(balances, rewards.drop_last()) {
            Some(earlier) => credit_step(earlier, rewards.last()),
            None => None,
        }
    }
}

/// Once a part of the list has no result, the whole list has none.
pub proof fn lemma_credited_all_prefix(
    balances: Map<AccountId, u128>,
    rewards: Seq<(AccountId, u128)>,
    n: int,
)
    requires
        0 <= n <= rewards.len(),
        credited_all(balances, rewards.take(n)) is None,
    ensures
        credited_all(balances, rewards) is None,
    decreases rewards.len(),
{
    if n == rewards.len() {
        assert(rewards.take(n) =~= rewards);
    } else {
        assert(rewards.drop_last().take(n) =~= rewards.take(n));
        lemma_credited_all_prefix(balances, rewards.drop_last(), n);
    }
}

/// The first `n + 1` rewards are the first `n` and then reward `n`.
pub proof fn lemma_credited_all_next(
    balances: Map<AccountId, u128>,
    rewards: Seq<(AccountId, u128)>,
    n: int,
)
    requires
        0 <= n < rewards.len(),
    ensures
        credited_all(balances, rewards.take(n + 1)) == match credited_all(
            balances,
            rewards.take(n),
        ) {
            Some(earlier) => credit_step(earlier, rewards[n]),
            None => None,
        },
{
    assert(rewards.take(n + 1).drop_last() =~= rewards.take(n));
}

impl LedgerView {
    /// What the three tables must satisfy: each fits a storage table, and
    /// every agent is kept under its own id.
    pub open spec fn wf(self) -> bool {
        &&& fits(self.balances)
        &&& fits(self.stakes)
        &&& fits(self.agents)
        &&& forall|id: AccountId| #[trigger]
            self.agents.contains_key(id) ==> self.agents[id].id == id
    }

    /// The spendable balance of `account`.
    pub open spec fn balance_of(self, account: AccountId) -> nat {
        amount_of(self.balances, account)
    }

    /// The stake of `account`.
    pub open spec fn stake_of(self, account: AccountId) -> nat {
        amount_of(self.stakes, account)
    }

    /// The ledger at construction: `caller` owns it and holds the whole
    /// initial supply.
    pub open spec fn init(caller: AccountId, initial_supply: u128) -> LedgerView {
        LedgerView {
            owner: caller,
            total_supply: initial_supply,
            balances: Map::<AccountId, u128>::empty().insert(caller, initial_supply),
            stakes: Map::empty(),
            agents: Map::empty(),
        }
    }

    /// Minting: the owner adds `amount` to the balance of `to` and to the
    /// supply.
    pub open spec fn mint(self, caller: AccountId, to: AccountId, amount: u128) -> Result<
        LedgerView,
        Error,
    > {
        if caller != self.owner {
            Err(Error::Unauthorized)
        } else if self.balance_of(to) + amount > u128::MAX || self.total_supply + amount
            > u128::MAX || !fits(credited(self.balances, to, amount)) {
            Err(Error::Overflow)
        } else {
            Ok(
                LedgerView {
                    total_supply: (self.total_supply + amount) as u128,
                    balances: credited(self.balances, to, amount),
                    ..self
                },
            )
        }
    }

    /// Burning: the caller takes `amount` out of its own balance and out of
    /// the supply.
    pub open spec fn burn(self, caller: AccountId, amount: u128) -> Result<LedgerView, Error> {
        if self.balance_of(caller) < amount {
            Err(Error::InsufficientBalance)
        } else if self.total_supply < amount || !fits(debited(self.balances, caller, amount)) {
            Err(Error::Overflow)
        } else {
            Ok(
                LedgerView {
                    total_supply: (self.total_supply - amount) as u128,
                    balances: debited(self.balances, caller, amount),
                    ..self
                },
            )
        }
    }

    /// A transfer: `amount` leaves the caller's balance and is then added to
    /// the balance of `to`. The supply stays.
    pub open spec fn transfer(self, caller: AccountId, to: AccountId, amount: u128) -> Result<
        LedgerView,
        Error,
    > {
        if self.balance_of(caller) < amount {
            Err(Error::InsufficientBalance)
        } else {
            let rest = debited(self.balances, caller, amount);
            if amount_of(rest, to) + amount > u128::MAX || !fits(credited(rest, to, amount)) {
                Err(Error::Overflow)
            } else {
                Ok(LedgerView { balances: credited(rest, to, amount), ..self })
            }
        }
    }

    /// Staking: `amount` moves from the caller's balance into its stake.
    pub open spec fn stake(self, caller: AccountId, amount: u128) -> Result<LedgerView, Error> {
        if self.balance_of(caller) < amount {
            Err(Error::InsufficientBalance)
        } else if self.stake_of(caller) + amount > u128::MAX || !fits(
            debited(self.balances, caller, amount),
        ) || !fits(credited(self.stakes, caller, amount)) {
            Err(Error::Overflow)
        } else {
            Ok(
                LedgerView {
                    balances: debited(self.balances, caller, amount),
                    stakes: credited(self.stakes, caller, amount),
                    ..self
                },
            )
        }
    }

    /// Unstaking: `amount` moves from the caller's stake back into its
    /// balance.
    pub open spec fn unstake(self, caller: AccountId, amount: u128) -> Result<LedgerView, Error> {
        if self.stake_of(caller) < amount {
            Err(Error::InsufficientStake)
        } else if self.balance_of(caller) + amount > u128::MAX || !fits(
            debited(self.stakes, caller, amount),
        ) || !fits(credited(self.balances, caller, amount)) {
            Err(Error::Overflow)
        } else {
            Ok(
                LedgerView {
                    stakes: debited(self.stakes, caller, amount),
                    balances: credited(self.balances, caller, amount),
                    ..self
                },
            )
        }
    }

    /// The record that a registration of `id` by `caller` stores.
    pub open spec fn registration(caller: AccountId, id: AccountId, stake: u128) -> Agent {
        Agent { id, owner: caller, stake, reputation: 0 }
    }

    /// Registration of an agent: allowed when the caller's stake covers
    /// `stake`; the record replaces any earlier one under `id`. The stake
    /// itself is not touched.
    pub open spec fn register_agent(self, caller: AccountId, id: AccountId, stake: u128) -> Result<
        LedgerView,
        Error,
    > {
        if self.stake_of(caller) < stake {
            Err(Error::InsufficientStake)
        } else if !fits(self.agents.insert(id, Self::registration(caller, id, stake))) {
            Err(Error::Overflow)
        } else {
            Ok(
                LedgerView {
                    agents: self.agents.insert(id, Self::registration(caller, id, stake)),
                    ..self
                },
            )
        }
    }

    /// A service request: the payment goes from the caller to the agent at
    /// once, as a transfer does.
    pub open spec fn request_service(
        self,
        caller: AccountId,
        agent_id: AccountId,
        payment: u128,
    ) -> Result<LedgerView, Error> {
        self.transfer(caller, agent_id, payment)
    }

    /// A distribution of rewards: every listed account is credited with its
    /// reward, all of them or, where one cannot be, none. Nothing is debited
    /// and the supply stays.
    pub open spec fn distribute_rewards(self, recipients: Seq<(AccountId, u128)>) -> Result<
        LedgerView,
        Error,
    > {
        match credited_all(self.balances, recipients) {
            Some(balances) => Ok(LedgerView { balances, ..self }),
            None => Err(Error::Overflow),
        }
    }

    /// The report of a finished service: a failure is refused as such, a
    /// success changes nothing.
    pub open spec fn complete_service(self, success: bool) -> Result<LedgerView, Error> {
        if success {
            Ok(self)
        } else {
            Err(Error::ServiceFailed)
        }
    }
}

/// An operation of the ledger with its arguments, the caller apart.
pub enum LedgerOp {
    /// `mint`.
    Mint { to: AccountId, amount: u128 },
    /// `burn`.
    Burn { amount: u128 },
    /// `transfer`.
    Transfer { to: AccountId, amount: u128 },
    /// `stake`.
    Stake { amount: u128 },
    /// `unstake`.
    Unstake { amount: u128 },
    /// `register_agent`.
    RegisterAgent { id: AccountId, stake: u128 },
    /// `request_service`.
    RequestService { agent_id: AccountId, payment: u128 },
    /// `complete_service`.
    CompleteService { success: bool },
    /// `distribute_rewards`.
    DistributeRewards { recipients: Seq<(AccountId, u128)> },
}

impl LedgerView {
    /// What the operation `op`, called by `caller`, makes of this ledger, or
    /// why it is refused.
    pub open spec fn apply(self, caller: AccountId, op: LedgerOp) -> Result<LedgerView, Error> {
        match op {
            LedgerOp::Mint { to, amount } => self.mint(caller, to, amount),
            LedgerOp::Burn { amount } => self.burn(caller, amount),
            LedgerOp::Transfer { to, amount } => self.transfer(caller, to, amount),
            LedgerOp::Stake { amount } => self.stake(caller, amount),
            LedgerOp::Unstake { amount } => self.unstake(caller, amount),
            LedgerOp::RegisterAgent { id, stake } => self.register_agent(caller, id, stake),
            LedgerOp::RequestService { agent_id, payment } => self.request_service(
                caller,
                agent_id,
                payment,
            ),
            LedgerOp::CompleteService { success } => self.complete_service(success),
            LedgerOp::DistributeRewards { recipients } => self.distribute_rewards(recipients),
        }
    }

    /// The ledger after the operation: the next one where the operation is
    /// applied, this one where it is refused.
    pub open spec fn after(self, caller: AccountId, op: LedgerOp) -> LedgerView {
        match self.apply(caller, op) {
            Ok(next) => next,
            Err(_) => self,
        }
    }
}

/// Whether a call that returned `r` and took the ledger from `pre` to `post`
/// did what `expected` says: on success the ledger is the expected one, on
/// refusal the error is the expected one and the ledger is as it was.
pub open spec fn applied(
    pre: LedgerView,
    post: LedgerView,
    r: Result<(), Error>,
    expected: Result<LedgerView, Error>,
) -> bool {
    match expected {
        Ok(next) => r is Ok && post == next,
        Err(e) => r == Err::<(), Error>(e) && post == pre,
    }
}

/// The ledger: the owner, the supply, and the three storage tables.
pub struct GaiaChain {
    owner: AccountId,
    total_supply: u128,
    balances: BalanceTable,
    stakes: BalanceTable,
    agent_registry: AgentTable,
}

impl View for GaiaChain {
    type V = LedgerView;

    closed spec fn view(&self) -> LedgerView {
        LedgerView {
            owner: self.owner,
            total_supply: self.total_supply,
            balances: balance_entries(self.balances),
            stakes: balance_entries(self.stakes),
            agents: agent_entries(self.agent_registry),
        }
    }
}

/// What `table` holds for `account`, zero where it has no entry, and whether
/// it has one.
fn held(table: &BalanceTable, account: &AccountId) -> (r: (u128, bool))
    ensures
        r.0 == amount_of(balance_entries(*table), *account),
        r.1 == balance_entries(*table).contains_key(*account),
{
    match table.get(account) {
        Some(amount) => (amount, true),
        None => (0, false),
    }
}

impl GaiaChain {
    /// The invariant of a ledger: the one of its view.
    pub open spec fn wf(&self) -> bool {
        self@.wf()
    }

    /// A new ledger: `caller` becomes the owner and holds `initial_supply`.
    pub fn new(caller: AccountId, initial_supply: u128) -> (ledger: GaiaChain)
        ensures
            ledger.wf(),
            ledger@ == LedgerView::init(caller, initial_supply),
    {
        let mut balances = BalanceTable::new();
        let stakes = BalanceTable::new();
        let agent_registry = AgentTable::new();
        proof {
            assert(balance_entries(balances) =~= Map::<AccountId, u128>::empty());
            assert(balance_entries(stakes) =~= Map::<AccountId, u128>::empty());
            assert(agent_entries(agent_registry) =~= Map::<AccountId, Agent>::empty());
            lemma_insert_len(balance_entries(balances), caller, initial_supply);
        }
        balances.insert(caller, initial_supply);
        GaiaChain { owner: caller, total_supply: initial_supply, balances, stakes, agent_registry }
    }

    /// The account that may mint.
    pub fn owner(&self) -> (owner: AccountId)
        ensures
            owner == self@.owner,
    {
        self.owner
    }

    /// The total supply.
    pub fn total_supply(&self) -> (supply: u128)
        ensures
            supply == self@.total_supply,
    {
        self.total_supply
    }

    /// The spendable balance of `account`: zero where it has no entry.
    pub fn balance_of(&self, account: AccountId) -> (balance: u128)
        ensures
            balance == self@.balance_of(account),
    {
        held(&self.balances, &account).0
    }

    /// The stake of `account`: zero where it has no entry.
    pub fn stake_of(&self, account: AccountId) -> (stake: u128)
        ensures
            stake == self@.stake_of(account),
    {
        held(&self.stakes, &account).0
    }

    /// The number of accounts that have a balance entry.
    pub fn holder_count(&self) -> (n: u32)
        ensures
            n == self@.balances.len(),
    {
        self.balances.len()
    }

    /// The number of accounts that have a stake entry.
    pub fn staker_count(&self) -> (n: u32)
        ensures
            n == self@.stakes.len(),
    {
        self.stakes.len()
    }

    /// The number of registered agents.
    pub fn agent_count(&self) -> (n: u32)
        ensures
            n == self@.agents.len(),
    {
        self.agent_registry.len()
    }

    /// The record of the agent registered under `id`, if there is one.
    pub fn get_agent(&self, id: AccountId) -> (agent: Option<Agent>)
        ensures
            agent is Some == self@.agents.contains_key(id),
            agent matches Some(a) ==> a == self@.agents[id],
    {
        self.agent_registry.get(&id)
    }

    /// Mints `amount` new tokens to `to`. Refused with `Unauthorized` where
    /// the caller is not the owner, else with `Overflow` where the balance of
    /// `to`, the supply or the number of balance entries would leave its
    /// range.
    pub fn mint(&mut self, caller: AccountId, to: AccountId, amount: u128) -> (r: Result<
        (),
        Error,
    >)
        requires
            old(self).wf(),
        ensures
            final(self).wf(),
            applied(old(self)@, final(self)@, r, old(self)@.mint(caller, to, amount)),
    {
        if !caller.same(&self.owner) {
            return Err(Error::Unauthorized);
        }
        let (to_balance, to_known) = held(&self.balances, &to);
        let new_balance = match to_balance.checked_add(amount) {
            Some(sum) => sum,
            None => { return Err(Error::Overflow); },
        };
        let new_supply = match self.total_supply.checked_add(amount) {
            Some(sum) => sum,
            None => { return Err(Error::Overflow); },
        };
        proof {
            lemma_insert_len(balance_entries(self.balances), to, new_balance);
        }
        if !to_known && self.balances.len() == u32::MAX {
            return Err(Error::Overflow);
        }
        self.balances.insert(to, new_balance);
        self.total_supply = new_supply;
        Ok(())
    }

    /// Burns `amount` tokens of the caller. Refused with
    /// `InsufficientBalance` where the caller holds less, and with `Overflow`
    /// where the supply is below `amount` or a first entry for the caller
    /// would not fit.
    pub fn burn(&mut self, caller: AccountId, amount: u128) -> (r: Result<(), Error>)
        requires
            old(self).wf(),
        ensures
            final(self).wf(),
            applied(old(self)@, final(self)@, r, old(self)@.burn(caller, amount)),
    {
        let (balance, known) = held(&self.balances, &caller);
        if balance < amount {
            return Err(Error::InsufficientBalance);
        }
        if self.total_supply < amount {
            return Err(Error::Overflow);
        }
        proof {
            lemma_insert_len(balance_entries(self.balances), caller, (balance - amount) as u128);
        }
        if !known && self.balances.len() == u32::MAX {
            return Err(Error::Overflow);
        }
        self.balances.insert(caller, balance - amount);
        self.total_supply = self.total_supply - amount;
        Ok(())
    }

    /// Transfers `amount` from the caller to `to`. A transfer to oneself
    /// leaves the balance as it was. Refused with `InsufficientBalance`
    /// where the caller holds less, and with `Overflow` where the balance of
    /// `to` or the number of balance entries would leave its range.
    pub fn transfer(&mut self, caller: AccountId, to: AccountId, amount: u128) -> (r: Result<
        (),
        Error,
    >)
        requires
            old(self).wf(),
        ensures
            final(self).wf(),
            applied(old(self)@, final(self)@, r, old(self)@.transfer(caller, to, amount)),
    {
        self.move_balance(caller, to, amount)
    }

    /// Moves `amount` from the balance of `from` to the balance of `to`:
    /// the debit first, then the credit, after every check has passed.
    fn move_balance(&mut self, from: AccountId, to: AccountId, amount: u128) -> (r: Result<
        (),
        Error,
    >)
        requires
            old(self).wf(),
        ensures
            final(self).wf(),
            applied(old(self)@, final(self)@, r, old(self)@.transfer(from, to, amount)),
    {
        let ghost before = balance_entries(self.balances);
        let (from_balance, from_known) = held(&self.balances, &from);
        if from_balance < amount {
            return Err(Error::InsufficientBalance);
        }
        let rest: u128 = from_balance - amount;
        let entries: u32 = self.balances.len();
        proof {
            lemma_insert_len(before, from, rest);
            lemma_insert_len(before.insert(from, rest), to, 0);
        }
        if !from_known && entries == u32::MAX {
            return Err(Error::Overflow);
        }
        if from.same(&to) {
            self.balances.insert(from, rest);
            self.balances.insert(to, from_balance);
            return Ok(());
        }
        let (to_balance, to_known) = held(&self.balances, &to);
        let new_balance = match to_balance.checked_add(amount) {
            Some(sum) => sum,
            None => { return Err(Error::Overflow); },
        };
        if !to_known && (entries == u32::MAX || (!from_known && entries == u32::MAX - 1)) {
            return Err(Error::Overflow);
        }
        self.balances.insert(from, rest);
        self.balances.insert(to, new_balance);
        Ok(())
    }

    /// Moves `amount` from the caller's balance into its stake. Refused with
    /// `InsufficientBalance` where the caller holds less, and with `Overflow`
    /// where the stake or the number of entries of a table would leave its
    /// range.
    pub fn stake(&mut self, caller: AccountId, amount: u128) -> (r: Result<(), Error>)
        requires
            old(self).wf(),
        ensures
            final(self).wf(),
            applied(old(self)@, final(self)@, r, old(self)@.stake(caller, amount)),
    {
        let (balance, balance_known) = held(&self.balances, &caller);
        if balance < amount {
            return Err(Error::InsufficientBalance);
        }
        let (staked, stake_known) = held(&self.stakes, &caller);
        let new_stake = match staked.checked_add(amount) {
            Some(sum) => sum,
            None => { return Err(Error::Overflow); },
        };
        proof {
            lemma_insert_len(balance_entries(self.balances), caller, (balance - amount) as u128);
            lemma_insert_len(balance_entries(self.stakes), caller, new_stake);
        }
        if !balance_known && self.balances.len() == u32::MAX {
            return Err(Error::Overflow);
        }
        if !stake_known && self.stakes.len() == u32::MAX {
            return Err(Error::Overflow);
        }
        self.balances.insert(caller, balance - amount);
        self.stakes.insert(caller, new_stake);
        Ok(())
    }

    /// Moves `amount` from the caller's stake back into its balance. Refused
    /// with `InsufficientStake` where the caller has staked less, and with
    /// `Overflow` where the balance or the number of entries of a table would
    /// leave its range.
    pub fn unstake(&mut self, caller: AccountId, amount: u128) -> (r: Result<(), Error>)
        requires
            old(self).wf(),
        ensures
            final(self).wf(),
            applied(old(self)@, final(self)@, r, old(self)@.unstake(caller, amount)),
    {
        let (staked, stake_known) = held(&self.stakes, &caller);
        if staked < amount {
            return Err(Error::InsufficientStake);
        }
        let (balance, balance_known) = held(&self.balances, &caller);
        let new_balance = match balance.checked_add(amount) {
            Some(sum) => sum,
            None => { return Err(Error::Overflow); },
        };
        proof {
            lemma_insert_len(balance_entries(self.stakes), caller, (staked - amount) as u128);
            lemma_insert_len(balance_entries(self.balances), caller, new_balance);
        }
        if !stake_known && self.stakes.len() == u32::MAX {
            return Err(Error::Overflow);
        }
        if !balance_known && self.balances.len() == u32::MAX {
            return Err(Error::Overflow);
        }
        self.stakes.insert(caller, staked - amount);
        self.balances.insert(caller, new_balance);
        Ok(())
    }

    /// Registers the agent `id` for the caller, with no reputation yet. The
    /// caller's stake must cover `stake`; it is recorded, not moved. A
    /// record already kept under `id` is replaced. Refused with
    /// `InsufficientStake` where the caller has staked less, and with
    /// `Overflow` where the registry has no room for a new id.
    pub fn register_agent(&mut self, caller: AccountId, id: AccountId, stake: u128) -> (r: Result<
        (),
        Error,
    >)
        requires
            old(self).wf(),
        ensures
            final(self).wf(),
            applied(old(self)@, final(self)@, r, old(self)@.register_agent(caller, id, stake)),
    {
        let (staked, _) = held(&self.stakes, &caller);
        if staked < stake {
            return Err(Error::InsufficientStake);
        }
        let agent = Agent { id, owner: caller, stake, reputation: 0 };
        proof {
            lemma_insert_len(agent_entries(self.agent_registry), id, agent);
        }
        let known = self.agent_registry.get(&id).is_some();
        if !known && self.agent_registry.len() == u32::MAX {
            return Err(Error::Overflow);
        }
        self.agent_registry.insert(id, agent);
        Ok(())
    }

    /// Requests a service of the agent `agent_id`: the payment moves from
    /// the caller to the agent at once. The constraints are carried for the
    /// agent to read and play no part here. Refused as a transfer is.
    pub fn request_service(
        &mut self,
        caller: AccountId,
        agent_id: AccountId,
        payment: u128,
        constraints: Vec<String>,
    ) -> (r: Result<(), Error>)
        requires
            old(self).wf(),
        ensures
            final(self).wf(),
            applied(
                old(self)@,
                final(self)@,
                r,
                old(self)@.request_service(caller, agent_id, payment),
            ),
    {
        self.move_balance(caller, agent_id, payment)
    }

    /// Whether every reward of the list can be credited, in the order of the
    /// list. The ledger is only read: the balances that the rewards would
    /// leave are kept in a table of their own beside it.
    fn rewards_fit(&self, recipients: &Vec<(AccountId, u128)>) -> (ok: bool)
        requires
            self.wf(),
        ensures
            ok == credited_all(self@.balances, recipients@) is Some,
    {
        let ghost base = balance_entries(self.balances);
        let entries: u32 = self.balances.len();
        let mut pending = BalanceTable::new();
        let mut fresh: u32 = 0;
        let mut i: usize = 0;
        proof {
            assert(balance_entries(pending) =~= Map::<AccountId, u128>::empty());
            assert(base.union_prefer_right(balance_entries(pending)) =~= base);
            assert(recipients@.take(0) =~= Seq::<(AccountId, u128)>::empty());
        }
        while i < recipients.len()
            invariant
                i <= recipients.len(),
                base == balance_entries(self.balances),
                fits(base),
                entries == base.dom().len(),
                balance_entries(pending).dom().finite(),
                fits(base.union_prefer_right(balance_entries(pending))),
                base.union_prefer_right(balance_entries(pending)).dom().len() == entries + fresh,
                credited_all(base, recipients@.take(i as int)) == Some(
                    base.union_prefer_right(balance_entries(pending)),
                ),
            decreases recipients.len() - i,
        {
            let ghost seen = balance_entries(pending);
            let ghost current = base.union_prefer_right(seen);
            let account: AccountId = recipients[i].0;
            let reward: u128 = recipients[i].1;
            let (balance, known) = match pending.get(&account) {
                Some(amount) => (amount, true),
                None => held(&self.balances, &account),
            };
            proof {
                lemma_credited_all_next(base, recipients@, i as int);
                lemma_insert_len(current, account, 0);
            }
            let new_balance = match balance.checked_add(reward) {
                Some(sum) => sum,
                None => {
                    proof {
                        lemma_credited_all_prefix(base, recipients@, i + 1);
                    }
                    return false;
                },
            };
            if !known {
                if entries as u64 + fresh as u64 == u32::MAX as u64 {
                    proof {
                        lemma_credited_all_prefix(base, recipients@, i + 1);
                    }
                    return false;
                }
                fresh = fresh + 1;
            }
            proof {
                let next = current.insert(account, new_balance);
                assert(base.union_prefer_right(seen.insert(account, new_balance)) =~= next);
                lemma_insert_len(seen, account, new_balance);
                assert(seen.insert(account, new_balance).dom().subset_of(next.dom()));
                vstd::set_lib::lemma_len_subset(
                    seen.insert(account, new_balance).dom(),
                    next.dom(),
                );
            }
            pending.insert(account, new_balance);
            i += 1;
        }
        proof {
            assert(recipients@.take(i as int) =~= recipients@);
        }
        true
    }

    /// Credits each listed account with its reward, in the order of the
    /// list. Nothing is debited and the supply stays as it is. All rewards
    /// are credited or none: refused with `Overflow`, before anything is
    /// written, where a balance or the number of balance entries would leave
    /// its range on the way.
    pub fn distribute_rewards(&mut self, recipients: Vec<(AccountId, u128)>) -> (r: Result<
        (),
        Error,
    >)
        requires
            old(self).wf(),
        ensures
            final(self).wf(),
            applied(old(self)@, final(self)@, r, old(self)@.distribute_rewards(recipients@)),
    {
        if !self.rewards_fit(&recipients) {
            return Err(Error::Overflow);
        }
        let ghost pre = self@;
        let mut i: usize = 0;
        proof {
            assert(recipients@.take(0) =~= Seq::<(AccountId, u128)>::empty());
        }
        while i < recipients.len()
            invariant
                i <= recipients.len(),
                pre.wf(),
                self@ == (LedgerView { balances: balance_entries(self.balances), ..pre }),
                fits(balance_entries(self.balances)),
                credited_all(pre.balances, recipients@) is Some,
                credited_all(pre.balances, recipients@.take(i as int)) == Some(
                    balance_entries(self.balances),
                ),
            decreases recipients.len() - i,
        {
            let account: AccountId = recipients[i].0;
            let reward: u128 = recipients[i].1;
            let (balance, known) = held(&self.balances, &account);
            proof {
                lemma_credited_all_next(pre.balances, recipients@, i as int);
                if credited_all(pre.balances, recipients@.take(i + 1)) is None {
                    lemma_credited_all_prefix(pre.balances, recipients@, i + 1);
                }
                lemma_insert_len(balance_entries(self.balances), account, 0);
            }
            self.balances.insert(account, balance + reward);
            i += 1;
        }
        proof {
            assert(recipients@.take(i as int) =~= recipients@);
        }
        Ok(())
    }

    /// Records that a service of `agent_id` has ended. A failure is refused
    /// with `ServiceFailed`; either way the ledger stays as it is.
    pub fn complete_service(&mut self, agent_id: AccountId, success: bool) -> (r: Result<
        (),
        Error,
    >)
        ensures
            *final(self) == *old(self),
            applied(old(self)@, final(self)@, r, old(self)@.complete_service(success)),
    {
        if success {
            Ok(())
        } else {
            Err(Error::ServiceFailed)
        }
    }
}

} // verus!
