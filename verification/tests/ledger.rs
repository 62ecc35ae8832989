use gaia_chain::account::AccountId;
use gaia_chain::error::Error;
use gaia_chain::ledger::{Agent, GaiaChain};

fn account(tag: u8) -> AccountId {
    AccountId::new([tag; 32])
}

fn owner() -> AccountId {
    account(1)
}

fn alice() -> AccountId {
    account(2)
}

fn bob() -> AccountId {
    account(3)
}

/// A ledger owned by `owner()` in which `alice()` holds `amount`.
fn ledger_with_alice(amount: u128) -> GaiaChain {
    let mut ledger = GaiaChain::new(owner(), 0);
    assert_eq!(ledger.mint(owner(), alice(), amount), Ok(()));
    ledger
}

#[test]
fn new_gives_the_caller_the_initial_supply() {
    let ledger = GaiaChain::new(owner(), 5000);
    assert_eq!(ledger.owner(), owner());
    assert_eq!(ledger.total_supply(), 5000);
    assert_eq!(ledger.balance_of(owner()), 5000);
    assert_eq!(ledger.balance_of(alice()), 0);
    assert_eq!(ledger.stake_of(owner()), 0);
    assert_eq!(ledger.holder_count(), 1);
    assert_eq!(ledger.staker_count(), 0);
    assert_eq!(ledger.agent_count(), 0);
    assert_eq!(ledger.get_agent(owner()), None);
}

#[test]
fn mint_then_transfer_moves_the_amount() {
    let mut ledger = GaiaChain::new(owner(), 0);
    assert_eq!(ledger.mint(owner(), owner(), 1000), Ok(()));
    assert_eq!(ledger.balance_of(owner()), 1000);
    assert_eq!(ledger.total_supply(), 1000);
    assert_eq!(ledger.transfer(owner(), bob(), 300), Ok(()));
    assert_eq!(ledger.balance_of(owner()), 700);
    assert_eq!(ledger.balance_of(bob()), 300);
    assert_eq!(ledger.total_supply(), 1000);
}

#[test]
fn stake_then_unstake_moves_between_balance_and_stake() {
    let mut ledger = ledger_with_alice(500);
    assert_eq!(ledger.stake(alice(), 200), Ok(()));
    assert_eq!(ledger.balance_of(alice()), 300);
    assert_eq!(ledger.stake_of(alice()), 200);
    assert_eq!(ledger.unstake(alice(), 50), Ok(()));
    assert_eq!(ledger.balance_of(alice()), 350);
    assert_eq!(ledger.stake_of(alice()), 150);
    assert_eq!(ledger.total_supply(), 500);
}

#[test]
fn register_agent_needs_the_stake_and_keeps_the_record_on_refusal() {
    let mut ledger = ledger_with_alice(200);
    assert_eq!(ledger.stake(alice(), 200), Ok(()));
    assert_eq!(ledger.register_agent(alice(), alice(), 150), Ok(()));
    let first = ledger.get_agent(alice()).unwrap();
    assert_eq!(first.reputation, 0);
    assert_eq!(first, Agent { id: alice(), owner: alice(), stake: 150, reputation: 0 });
    assert_eq!(ledger.register_agent(alice(), alice(), 500), Err(Error::InsufficientStake));
    assert_eq!(ledger.get_agent(alice()), Some(first));
    assert_eq!(ledger.agent_count(), 1);
    assert_eq!(ledger.stake_of(alice()), 200);
}

#[test]
fn register_agent_for_another_id_records_the_caller_as_owner() {
    let mut ledger = ledger_with_alice(100);
    assert_eq!(ledger.stake(alice(), 100), Ok(()));
    assert_eq!(ledger.register_agent(alice(), bob(), 100), Ok(()));
    assert_eq!(
        ledger.get_agent(bob()),
        Some(Agent { id: bob(), owner: alice(), stake: 100, reputation: 0 })
    );
    assert_eq!(ledger.get_agent(alice()), None);
    // The stake is recorded, not moved.
    assert_eq!(ledger.stake_of(alice()), 100);
    assert_eq!(ledger.balance_of(alice()), 0);
}

#[test]
fn register_agent_again_replaces_the_record() {
    let mut ledger = ledger_with_alice(100);
    assert_eq!(ledger.mint(owner(), bob(), 70), Ok(()));
    assert_eq!(ledger.stake(alice(), 100), Ok(()));
    assert_eq!(ledger.stake(bob(), 70), Ok(()));
    assert_eq!(ledger.register_agent(alice(), alice(), 100), Ok(()));
    assert_eq!(ledger.register_agent(bob(), alice(), 60), Ok(()));
    assert_eq!(
        ledger.get_agent(alice()),
        Some(Agent { id: alice(), owner: bob(), stake: 60, reputation: 0 })
    );
    assert_eq!(ledger.agent_count(), 1);
}

#[test]
fn register_agent_with_no_stake_asked_needs_none() {
    let mut ledger = GaiaChain::new(owner(), 0);
    assert_eq!(ledger.register_agent(bob(), bob(), 0), Ok(()));
    assert_eq!(ledger.register_agent(bob(), alice(), 1), Err(Error::InsufficientStake));
    assert_eq!(ledger.agent_count(), 1);
}

#[test]
fn mint_is_for_the_owner_only() {
    let mut ledger = GaiaChain::new(owner(), 10);
    assert_eq!(ledger.mint(alice(), alice(), 5), Err(Error::Unauthorized));
    assert_eq!(ledger.balance_of(alice()), 0);
    assert_eq!(ledger.total_supply(), 10);
    assert_eq!(ledger.holder_count(), 1);
}

#[test]
fn mint_refuses_what_the_supply_cannot_hold() {
    let mut ledger = GaiaChain::new(owner(), u128::MAX - 5);
    assert_eq!(ledger.mint(owner(), alice(), 6), Err(Error::Overflow));
    assert_eq!(ledger.balance_of(alice()), 0);
    assert_eq!(ledger.total_supply(), u128::MAX - 5);
    assert_eq!(ledger.holder_count(), 1);
    assert_eq!(ledger.mint(owner(), alice(), 5), Ok(()));
    assert_eq!(ledger.balance_of(alice()), 5);
    assert_eq!(ledger.total_supply(), u128::MAX);
}

#[test]
fn mint_refuses_what_a_balance_cannot_hold() {
    let mut ledger = GaiaChain::new(owner(), 0);
    assert_eq!(ledger.distribute_rewards(vec![(alice(), u128::MAX)]), Ok(()));
    assert_eq!(ledger.mint(owner(), alice(), 1), Err(Error::Overflow));
    assert_eq!(ledger.balance_of(alice()), u128::MAX);
    assert_eq!(ledger.total_supply(), 0);
}

#[test]
fn burn_takes_from_balance_and_supply() {
    let mut ledger = GaiaChain::new(owner(), 100);
    assert_eq!(ledger.burn(owner(), 40), Ok(()));
    assert_eq!(ledger.balance_of(owner()), 60);
    assert_eq!(ledger.total_supply(), 60);
    assert_eq!(ledger.burn(owner(), 60), Ok(()));
    assert_eq!(ledger.balance_of(owner()), 0);
    assert_eq!(ledger.total_supply(), 0);
}

#[test]
fn burn_refuses_more_than_the_balance() {
    let mut ledger = GaiaChain::new(owner(), 100);
    assert_eq!(ledger.burn(owner(), 101), Err(Error::InsufficientBalance));
    assert_eq!(ledger.burn(alice(), 1), Err(Error::InsufficientBalance));
    assert_eq!(ledger.balance_of(owner()), 100);
    assert_eq!(ledger.total_supply(), 100);
    assert_eq!(ledger.holder_count(), 1);
}

#[test]
fn burn_refuses_more_than_the_supply() {
    let mut ledger = GaiaChain::new(owner(), 10);
    assert_eq!(ledger.distribute_rewards(vec![(alice(), 50)]), Ok(()));
    assert_eq!(ledger.burn(alice(), 11), Err(Error::Overflow));
    assert_eq!(ledger.balance_of(alice()), 50);
    assert_eq!(ledger.total_supply(), 10);
    assert_eq!(ledger.burn(alice(), 10), Ok(()));
    assert_eq!(ledger.balance_of(alice()), 40);
    assert_eq!(ledger.total_supply(), 0);
}

#[test]
fn burn_of_nothing_by_a_stranger_makes_an_empty_entry() {
    let mut ledger = GaiaChain::new(owner(), 10);
    assert_eq!(ledger.burn(bob(), 0), Ok(()));
    assert_eq!(ledger.balance_of(bob()), 0);
    assert_eq!(ledger.holder_count(), 2);
    assert_eq!(ledger.total_supply(), 10);
}

#[test]
fn transfer_refuses_more_than_the_balance() {
    let mut ledger = ledger_with_alice(300);
    assert_eq!(ledger.transfer(alice(), bob(), 301), Err(Error::InsufficientBalance));
    assert_eq!(ledger.transfer(bob(), alice(), 1), Err(Error::InsufficientBalance));
    assert_eq!(ledger.balance_of(alice()), 300);
    assert_eq!(ledger.balance_of(bob()), 0);
    assert_eq!(ledger.holder_count(), 2);
}

#[test]
fn transfer_to_oneself_changes_nothing() {
    let mut ledger = ledger_with_alice(300);
    assert_eq!(ledger.transfer(alice(), alice(), 300), Ok(()));
    assert_eq!(ledger.balance_of(alice()), 300);
    assert_eq!(ledger.transfer(alice(), alice(), 120), Ok(()));
    assert_eq!(ledger.balance_of(alice()), 300);
    assert_eq!(ledger.transfer(alice(), alice(), 301), Err(Error::InsufficientBalance));
    assert_eq!(ledger.total_supply(), 300);
}

#[test]
fn transfer_to_oneself_at_the_top_of_the_range() {
    let mut ledger = GaiaChain::new(owner(), u128::MAX);
    assert_eq!(ledger.transfer(owner(), owner(), u128::MAX), Ok(()));
    assert_eq!(ledger.balance_of(owner()), u128::MAX);
}

#[test]
fn transfer_refuses_what_the_receiver_cannot_hold() {
    let mut ledger = ledger_with_alice(10);
    assert_eq!(ledger.distribute_rewards(vec![(bob(), u128::MAX - 3)]), Ok(()));
    assert_eq!(ledger.transfer(alice(), bob(), 4), Err(Error::Overflow));
    assert_eq!(ledger.balance_of(alice()), 10);
    assert_eq!(ledger.balance_of(bob()), u128::MAX - 3);
    assert_eq!(ledger.transfer(alice(), bob(), 3), Ok(()));
    assert_eq!(ledger.balance_of(alice()), 7);
    assert_eq!(ledger.balance_of(bob()), u128::MAX);
}

#[test]
fn transfer_of_the_whole_balance() {
    let mut ledger = ledger_with_alice(300);
    assert_eq!(ledger.transfer(alice(), bob(), 300), Ok(()));
    assert_eq!(ledger.balance_of(alice()), 0);
    assert_eq!(ledger.balance_of(bob()), 300);
    assert_eq!(ledger.transfer(bob(), alice(), 0), Ok(()));
    assert_eq!(ledger.balance_of(bob()), 300);
}

#[test]
fn stake_refuses_more_than_the_balance() {
    let mut ledger = ledger_with_alice(500);
    assert_eq!(ledger.stake(alice(), 501), Err(Error::InsufficientBalance));
    assert_eq!(ledger.balance_of(alice()), 500);
    assert_eq!(ledger.stake_of(alice()), 0);
    assert_eq!(ledger.staker_count(), 0);
}

#[test]
fn stake_refuses_what_the_stake_cannot_hold() {
    let mut ledger = GaiaChain::new(owner(), 0);
    assert_eq!(ledger.distribute_rewards(vec![(alice(), u128::MAX)]), Ok(()));
    assert_eq!(ledger.stake(alice(), u128::MAX), Ok(()));
    assert_eq!(ledger.distribute_rewards(vec![(alice(), 1)]), Ok(()));
    assert_eq!(ledger.stake(alice(), 1), Err(Error::Overflow));
    assert_eq!(ledger.balance_of(alice()), 1);
    assert_eq!(ledger.stake_of(alice()), u128::MAX);
}

#[test]
fn unstake_refuses_more_than_the_stake() {
    let mut ledger = ledger_with_alice(500);
    assert_eq!(ledger.stake(alice(), 200), Ok(()));
    assert_eq!(ledger.unstake(alice(), 201), Err(Error::InsufficientStake));
    assert_eq!(ledger.unstake(bob(), 1), Err(Error::InsufficientStake));
    assert_eq!(ledger.balance_of(alice()), 300);
    assert_eq!(ledger.stake_of(alice()), 200);
    assert_eq!(ledger.staker_count(), 1);
}

#[test]
fn unstake_refuses_what_the_balance_cannot_hold() {
    let mut ledger = ledger_with_alice(5);
    assert_eq!(ledger.stake(alice(), 5), Ok(()));
    assert_eq!(ledger.distribute_rewards(vec![(alice(), u128::MAX - 4)]), Ok(()));
    assert_eq!(ledger.unstake(alice(), 5), Err(Error::Overflow));
    assert_eq!(ledger.stake_of(alice()), 5);
    assert_eq!(ledger.balance_of(alice()), u128::MAX - 4);
    assert_eq!(ledger.unstake(alice(), 4), Ok(()));
    assert_eq!(ledger.stake_of(alice()), 1);
    assert_eq!(ledger.balance_of(alice()), u128::MAX);
}

#[test]
fn request_service_pays_the_agent_at_once() {
    let mut ledger = ledger_with_alice(90);
    let constraints = vec![String::from("within a day"), String::from("in writing")];
    assert_eq!(ledger.request_service(alice(), bob(), 60, constraints), Ok(()));
    assert_eq!(ledger.balance_of(alice()), 30);
    assert_eq!(ledger.balance_of(bob()), 60);
    assert_eq!(ledger.total_supply(), 90);
    assert_eq!(
        ledger.request_service(alice(), bob(), 31, Vec::new()),
        Err(Error::InsufficientBalance)
    );
    assert_eq!(ledger.balance_of(alice()), 30);
    assert_eq!(ledger.balance_of(bob()), 60);
}

#[test]
fn complete_service_reports_failure_and_changes_nothing() {
    let mut ledger = ledger_with_alice(90);
    assert_eq!(ledger.complete_service(bob(), true), Ok(()));
    assert_eq!(ledger.complete_service(bob(), false), Err(Error::ServiceFailed));
    assert_eq!(ledger.balance_of(alice()), 90);
    assert_eq!(ledger.balance_of(bob()), 0);
    assert_eq!(ledger.total_supply(), 90);
    assert_eq!(ledger.holder_count(), 2);
}

#[test]
fn distribute_rewards_credits_every_entry() {
    let mut ledger = ledger_with_alice(10);
    let rewards = vec![(alice(), 5), (bob(), 7), (alice(), 1), (bob(), 0)];
    assert_eq!(ledger.distribute_rewards(rewards), Ok(()));
    assert_eq!(ledger.balance_of(alice()), 16);
    assert_eq!(ledger.balance_of(bob()), 7);
    assert_eq!(ledger.balance_of(owner()), 0);
    // Rewards do not come out of any account and do not move the supply.
    assert_eq!(ledger.total_supply(), 10);
    assert_eq!(ledger.holder_count(), 3);
}

#[test]
fn distribute_rewards_of_an_empty_list() {
    let mut ledger = ledger_with_alice(10);
    assert_eq!(ledger.distribute_rewards(Vec::new()), Ok(()));
    assert_eq!(ledger.balance_of(alice()), 10);
    assert_eq!(ledger.holder_count(), 2);
}

#[test]
fn distribute_rewards_is_all_or_nothing() {
    let mut ledger = ledger_with_alice(10);
    let rewards = vec![(bob(), 7), (alice(), u128::MAX - 10), (alice(), 1)];
    assert_eq!(ledger.distribute_rewards(rewards), Err(Error::Overflow));
    assert_eq!(ledger.balance_of(alice()), 10);
    assert_eq!(ledger.balance_of(bob()), 0);
    assert_eq!(ledger.holder_count(), 2);
    let rewards = vec![(bob(), 7), (alice(), u128::MAX - 10)];
    assert_eq!(ledger.distribute_rewards(rewards), Ok(()));
    assert_eq!(ledger.balance_of(alice()), u128::MAX);
    assert_eq!(ledger.balance_of(bob()), 7);
}

#[test]
fn a_refused_call_leaves_everything_as_it_was() {
    let mut ledger = ledger_with_alice(500);
    assert_eq!(ledger.stake(alice(), 200), Ok(()));
    assert_eq!(ledger.register_agent(alice(), alice(), 150), Ok(()));
    let agent = ledger.get_agent(alice());

    assert_eq!(ledger.mint(alice(), alice(), 1), Err(Error::Unauthorized));
    assert_eq!(ledger.burn(alice(), 301), Err(Error::InsufficientBalance));
    assert_eq!(ledger.transfer(alice(), bob(), 301), Err(Error::InsufficientBalance));
    assert_eq!(ledger.stake(alice(), 301), Err(Error::InsufficientBalance));
    assert_eq!(ledger.unstake(alice(), 201), Err(Error::InsufficientStake));
    assert_eq!(ledger.register_agent(alice(), bob(), 201), Err(Error::InsufficientStake));
    assert_eq!(
        ledger.request_service(alice(), bob(), 301, Vec::new()),
        Err(Error::InsufficientBalance)
    );
    assert_eq!(ledger.complete_service(alice(), false), Err(Error::ServiceFailed));
    assert_eq!(ledger.distribute_rewards(vec![(bob(), 1), (alice(), u128::MAX)]), Err(Error::Overflow));

    assert_eq!(ledger.owner(), owner());
    assert_eq!(ledger.total_supply(), 500);
    assert_eq!(ledger.balance_of(owner()), 0);
    assert_eq!(ledger.balance_of(alice()), 300);
    assert_eq!(ledger.balance_of(bob()), 0);
    assert_eq!(ledger.stake_of(alice()), 200);
    assert_eq!(ledger.stake_of(bob()), 0);
    assert_eq!(ledger.get_agent(alice()), agent);
    assert_eq!(ledger.get_agent(bob()), None);
    assert_eq!(ledger.holder_count(), 2);
    assert_eq!(ledger.staker_count(), 1);
    assert_eq!(ledger.agent_count(), 1);
}

#[test]
fn supply_equals_the_sum_of_balances_under_mint_burn_and_transfer() {
    let mut ledger = GaiaChain::new(owner(), 1000);
    let everyone = [owner(), alice(), bob()];
    let total = |ledger: &GaiaChain| -> u128 {
        everyone.iter().map(|account| ledger.balance_of(*account)).sum()
    };
    assert_eq!(ledger.total_supply(), total(&ledger));
    assert_eq!(ledger.mint(owner(), alice(), 250), Ok(()));
    assert_eq!(ledger.total_supply(), total(&ledger));
    assert_eq!(ledger.transfer(alice(), bob(), 100), Ok(()));
    assert_eq!(ledger.total_supply(), total(&ledger));
    assert_eq!(ledger.burn(bob(), 30), Ok(()));
    assert_eq!(ledger.total_supply(), total(&ledger));
    assert_eq!(ledger.request_service(owner(), bob(), 500, Vec::new()), Ok(()));
    assert_eq!(ledger.total_supply(), total(&ledger));
    assert_eq!(ledger.transfer(bob(), alice(), 9999), Err(Error::InsufficientBalance));
    assert_eq!(ledger.total_supply(), total(&ledger));
    assert_eq!(ledger.total_supply(), 1220);
    assert_eq!(total(&ledger), 1220);
}

#[test]
fn staking_takes_tokens_out_of_the_balances_but_not_out_of_the_supply() {
    let mut ledger = ledger_with_alice(500);
    assert_eq!(ledger.stake(alice(), 200), Ok(()));
    assert_eq!(ledger.total_supply(), 500);
    assert_eq!(ledger.balance_of(alice()) + ledger.stake_of(alice()), 500);
    assert_eq!(ledger.unstake(alice(), 200), Ok(()));
    assert_eq!(ledger.balance_of(alice()), 500);
    assert_eq!(ledger.stake_of(alice()), 0);
    assert_eq!(ledger.staker_count(), 1);
}

#[test]
fn accounts_that_differ_in_one_byte_are_different_accounts() {
    let mut bytes = [7u8; 32];
    let first = AccountId::new(bytes);
    bytes[31] = 8;
    let second = AccountId::new(bytes);
    assert!(first != second);
    assert!(!first.same(&second));
    assert!(first.same(&AccountId::new([7u8; 32])));
    assert_eq!(first.to_bytes(), [7u8; 32]);

    let mut ledger = GaiaChain::new(first, 10);
    assert_eq!(ledger.balance_of(second), 0);
    assert_eq!(ledger.mint(second, second, 1), Err(Error::Unauthorized));
    assert_eq!(ledger.transfer(first, second, 4), Ok(()));
    assert_eq!(ledger.balance_of(first), 6);
    assert_eq!(ledger.balance_of(second), 4);
}
