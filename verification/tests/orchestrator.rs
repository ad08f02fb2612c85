//! Tests of the orchestrator: registry, rate limiter, both trigger
//! workflows, settlement and the reconciliation callbacks.

use autocompounder::chains::{CallArgs, ChainOutcome};
use autocompounder::guard::{AccessGuard, OwnerPolicy};
use autocompounder::settlement::settle_balance_delta;
use autocompounder::useraccs::{
    Contract, Preference, ReinvestTarget, TriggerError, COOLDOWN_NANOSECONDS,
    RESERVE_FLOOR_YOCTO,
};
use autocompounder::RegistryError;

const SELF_ID: &str = "orchestrator.near";

fn guard() -> AccessGuard {
    AccessGuard {
        root_operator: "near".to_string(),
        policy: OwnerPolicy::DashToDot,
    }
}

fn record(service: &str, seed: &str, active: bool, target: ReinvestTarget) -> Preference {
    Preference {
        seed_id: seed.to_string(),
        token_id: "token.near".to_string(),
        smart_contract_name: service.to_string(),
        is_active: active,
        reinvest_to: target,
    }
}

/// A registry with two participants: three active records in total, one
/// inactive record, all service identities well-formed.
fn populated_contract() -> Contract {
    let mut contract = Contract::default();
    contract.store_user("alice".to_string(), "alice-name".to_string(), "sub.alice".to_string());
    contract
        .update_preferences(
            "alice".to_string(),
            vec![
                record("farm-one.near", "seed1", true, ReinvestTarget::Burrow),
                record("farm-two.near", "seed2", false, ReinvestTarget::Stake),
            ],
        )
        .unwrap();
    contract.store_user("bob".to_string(), "bob-name".to_string(), "sub.bob".to_string());
    contract
        .update_preferences(
            "bob".to_string(),
            vec![
                record("farm-three.near", "seed3", true, ReinvestTarget::Stake),
                record("farm-four.near", "seed4", true, ReinvestTarget::Burrow),
            ],
        )
        .unwrap();
    contract
}

#[test]
fn store_and_get_account() {
    let mut contract = Contract::default();
    contract.store_user("alice".to_string(), "name".to_string(), "sub".to_string());
    let user = contract.get_user("alice".to_string()).unwrap();
    assert_eq!(user.username, "name");
    assert_eq!(user.wallet_id, "alice");
    assert_eq!(user.subaccount_id, "sub");
    assert!(user.preferences.is_empty());
    assert!(contract.get_user("bob".to_string()).is_none());
}

#[test]
fn reregistration_replaces_the_participant_whole() {
    let mut contract = Contract::default();
    contract.store_user("alice".to_string(), "name".to_string(), "sub".to_string());
    contract
        .update_preferences(
            "alice".to_string(),
            vec![record("farm-one.near", "seed1", true, ReinvestTarget::Burrow)],
        )
        .unwrap();
    contract.store_user("alice".to_string(), "newname".to_string(), "newsub".to_string());
    let user = contract.get_user("alice".to_string()).unwrap();
    assert_eq!(user.username, "newname");
    assert!(user.preferences.is_empty());
    assert_eq!(contract.get_all_users().len(), 1);
}

#[test]
fn update_preferences_appends_in_order() {
    let mut contract = Contract::default();
    contract.store_user("alice".to_string(), "name".to_string(), "sub".to_string());
    contract
        .update_preferences(
            "alice".to_string(),
            vec![record("farm-one.near", "seed1", true, ReinvestTarget::Burrow)],
        )
        .unwrap();
    contract
        .update_preferences(
            "alice".to_string(),
            vec![record("farm-two.near", "seed2", false, ReinvestTarget::Stake)],
        )
        .unwrap();
    let user = contract.get_user("alice".to_string()).unwrap();
    assert_eq!(user.preferences.len(), 2);
    assert_eq!(user.preferences[0].seed_id, "seed1");
    assert_eq!(user.preferences[1].seed_id, "seed2");
}

#[test]
fn update_preferences_requires_registration() {
    let mut contract = Contract::default();
    let outcome = contract.update_preferences(
        "alice".to_string(),
        vec![record("farm-one.near", "seed1", true, ReinvestTarget::Burrow)],
    );
    assert_eq!(outcome, Err(RegistryError::UserNotFound));
}

#[test]
fn update_preferences_rejects_seed_of_65_characters() {
    let mut contract = Contract::default();
    contract.store_user("alice".to_string(), "name".to_string(), "sub".to_string());
    let long_seed = "s".repeat(65);
    let outcome = contract.update_preferences(
        "alice".to_string(),
        vec![
            record("farm-one.near", "seed1", true, ReinvestTarget::Burrow),
            record("farm-two.near", &long_seed, true, ReinvestTarget::Stake),
        ],
    );
    assert_eq!(outcome, Err(RegistryError::SeedTooLong));
    let user = contract.get_user("alice".to_string()).unwrap();
    assert!(user.preferences.is_empty());
}

#[test]
fn try_trigger_enforces_the_cooldown_window() {
    let mut contract = Contract::default();
    let first = COOLDOWN_NANOSECONDS;
    assert_eq!(contract.try_trigger(first), Ok(()));
    assert_eq!(
        contract.try_trigger(first + 10),
        Err(TriggerError::CooldownActive)
    );
    assert_eq!(
        contract.try_trigger(first + COOLDOWN_NANOSECONDS - 1),
        Err(TriggerError::CooldownActive)
    );
    assert_eq!(contract.try_trigger(first + COOLDOWN_NANOSECONDS), Ok(()));
}

#[test]
fn restored_timestamp_keeps_the_window_closed() {
    let mut contract = Contract::default();
    contract.restore_last_trigger(5 * COOLDOWN_NANOSECONDS);
    assert_eq!(
        contract.try_trigger(5 * COOLDOWN_NANOSECONDS + 10),
        Err(TriggerError::CooldownActive)
    );
    assert_eq!(contract.try_trigger(6 * COOLDOWN_NANOSECONDS), Ok(()));
}

#[test]
fn compound_issues_two_chains_per_active_record() {
    let mut contract = populated_contract();
    let outcome = contract
        .compound(&guard(), SELF_ID, SELF_ID, COOLDOWN_NANOSECONDS, 0, 0)
        .unwrap();
    // Three active records over two participants: exactly six chains.
    assert_eq!(outcome.chains.len(), 6);
    assert!(outcome.skipped.is_empty());
    assert!(outcome.incentive.is_none());
    for chain in &outcome.chains {
        assert_eq!(chain.callback.contract_name, chain.target);
        assert_eq!(chain.callback.action, chain.method);
        assert_eq!(chain.callback.method, "handle_claim_result");
        assert_eq!(chain.callback.gas_tgas, 10);
        assert_eq!(chain.attached_amount, 0);
        assert_eq!(chain.gas_tgas, 130);
    }
    let first = &outcome.chains[0];
    assert_eq!(first.target, "farm-one.near");
    assert_eq!(first.method, "claim_all_rewards");
    match &first.args {
        CallArgs::ClaimAllRewards { seed_id, neargas, tokenid } => {
            assert_eq!(seed_id, "seed1");
            assert_eq!(*neargas, 50);
            assert_eq!(tokenid, "token.near");
        }
        _ => panic!("unexpected payload for claim_all_rewards"),
    }
    let second = &outcome.chains[1];
    assert_eq!(second.target, "farm-one.near");
    assert_eq!(second.method, "claim_from_burrow");
    match &second.args {
        CallArgs::ClaimFromBurrow { neargas } => assert_eq!(*neargas, 50),
        _ => panic!("unexpected payload for claim_from_burrow"),
    }
    // The inactive record's service never appears.
    for chain in &outcome.chains {
        assert_ne!(chain.target, "farm-two.near");
    }
}

#[test]
fn compound_rejects_second_trigger_inside_the_window() {
    let mut contract = populated_contract();
    contract
        .compound(&guard(), SELF_ID, SELF_ID, COOLDOWN_NANOSECONDS, 0, 0)
        .unwrap();
    let again = contract.compound(
        &guard(),
        SELF_ID,
        SELF_ID,
        COOLDOWN_NANOSECONDS + 10,
        0,
        0,
    );
    assert_eq!(again.err(), Some(TriggerError::CooldownActive));
    let later = contract.compound(
        &guard(),
        SELF_ID,
        SELF_ID,
        2 * COOLDOWN_NANOSECONDS,
        0,
        0,
    );
    assert!(later.is_ok());
}

#[test]
fn compound_denies_a_stranger_and_leaves_the_window_closed() {
    let mut contract = populated_contract();
    let denied = contract.compound(
        &guard(),
        SELF_ID,
        "mallory.near",
        COOLDOWN_NANOSECONDS,
        0,
        0,
    );
    assert_eq!(denied.err(), Some(TriggerError::Unauthorized));
    // The rate-limiter state is untouched: the same instant still triggers.
    let allowed = contract.compound(&guard(), SELF_ID, SELF_ID, COOLDOWN_NANOSECONDS, 0, 0);
    assert!(allowed.is_ok());
}

#[test]
fn compound_skips_an_unresolvable_record_with_a_note() {
    let mut contract = Contract::default();
    contract.store_user("alice".to_string(), "name".to_string(), "sub".to_string());
    contract
        .update_preferences(
            "alice".to_string(),
            vec![
                record("Bad!Name", "seed1", true, ReinvestTarget::Burrow),
                record("farm-one.near", "seed2", true, ReinvestTarget::Burrow),
            ],
        )
        .unwrap();
    let outcome = contract
        .compound(&guard(), SELF_ID, SELF_ID, COOLDOWN_NANOSECONDS, 0, 0)
        .unwrap();
    assert_eq!(outcome.chains.len(), 2);
    assert_eq!(outcome.skipped.len(), 1);
    assert_eq!(
        outcome.skipped[0],
        "Failed to parse smart_contract_name: Bad!Name"
    );
}

#[test]
fn compound_pays_five_percent_of_the_delta_above_threshold() {
    let mut contract = populated_contract();
    // Pre-value 10, post-issuance value 13 (in native units): delta 3 is
    // above the threshold of 2, so the caller is owed 5% of 3 = 0.15.
    let ten: u128 = 10_000_000_000_000_000_000_000_000;
    let thirteen: u128 = 13_000_000_000_000_000_000_000_000;
    let outcome = contract
        .compound(&guard(), SELF_ID, SELF_ID, COOLDOWN_NANOSECONDS, ten, thirteen)
        .unwrap();
    let transfer = outcome.incentive.unwrap();
    assert_eq!(transfer.receiver, SELF_ID);
    assert_eq!(transfer.amount, 150_000_000_000_000_000_000_000);
}

#[test]
fn settlement_pays_nothing_at_or_below_the_threshold() {
    let base: u128 = 1_000_000_000_000_000_000_000_000;
    assert!(settle_balance_delta(base, base + 2_000_000_000_000_000_000_000_000, "alice.near")
        .is_none());
    assert!(settle_balance_delta(base, base, "alice.near").is_none());
}

#[test]
fn settlement_pays_exactly_five_percent() {
    let ten: u128 = 10_000_000_000_000_000_000_000_000;
    let thirteen: u128 = 13_000_000_000_000_000_000_000_000;
    let transfer = settle_balance_delta(ten, thirteen, "caller.near").unwrap();
    assert_eq!(transfer.receiver, "caller.near");
    assert_eq!(transfer.amount, 150_000_000_000_000_000_000_000);
}

#[test]
fn reinvest_issues_nothing_at_or_below_the_reserve_floor() {
    let mut contract = populated_contract();
    let outcome = contract
        .reinvest(
            &guard(),
            SELF_ID,
            SELF_ID,
            RESERVE_FLOOR_YOCTO,
            "1".to_string(),
            "2".to_string(),
        )
        .unwrap();
    assert!(outcome.chains.is_empty());
    assert!(outcome.skipped.is_empty());
    let outcome = contract
        .reinvest(
            &guard(),
            SELF_ID,
            SELF_ID,
            0,
            "1".to_string(),
            "2".to_string(),
        )
        .unwrap();
    assert!(outcome.chains.is_empty());
}

#[test]
fn reinvest_attaches_the_whole_investable_amount_to_every_chain() {
    let mut contract = populated_contract();
    let extra: u128 = 7;
    let outcome = contract
        .reinvest(
            &guard(),
            SELF_ID,
            SELF_ID,
            RESERVE_FLOOR_YOCTO + extra,
            "1".to_string(),
            "2".to_string(),
        )
        .unwrap();
    // One chain per active record; the amount is not split among them.
    assert_eq!(outcome.chains.len(), 3);
    for chain in &outcome.chains {
        assert_eq!(chain.attached_amount, extra);
        assert_eq!(chain.gas_tgas, 120);
        assert_eq!(chain.callback.contract_name, chain.target);
        assert_eq!(chain.callback.action, chain.method);
        assert_eq!(chain.callback.method, "handle_reinvest_result");
    }
    let deposit = &outcome.chains[0];
    assert_eq!(deposit.target, "farm-one.near");
    assert_eq!(deposit.method, "deposit_into_burrow");
    match &deposit.args {
        CallArgs::DepositIntoBurrow { deposit_amount, neargas } => {
            assert_eq!(deposit_amount, "7");
            assert_eq!(*neargas, 50);
        }
        _ => panic!("unexpected payload for deposit_into_burrow"),
    }
    let stake = &outcome.chains[1];
    assert_eq!(stake.target, "farm-three.near");
    assert_eq!(stake.method, "stake_xRef");
    match &stake.args {
        CallArgs::StakeXRef {
            smart_contract_name,
            deposit_amount,
            neargas,
            receiver_id,
            min_amount_out,
            pool_id,
        } => {
            assert_eq!(smart_contract_name, "farm-three.near");
            assert_eq!(deposit_amount, "7");
            assert_eq!(*neargas, 50);
            assert_eq!(receiver_id, "xtoken.ref-finance.near");
            assert_eq!(min_amount_out, "1");
            assert_eq!(pool_id, "2");
        }
        _ => panic!("unexpected payload for stake_xRef"),
    }
}

#[test]
fn reinvest_denies_a_stranger() {
    let mut contract = populated_contract();
    let denied = contract.reinvest(
        &guard(),
        SELF_ID,
        "mallory.near",
        RESERVE_FLOOR_YOCTO + 1,
        "1".to_string(),
        "2".to_string(),
    );
    assert_eq!(denied.err(), Some(TriggerError::Unauthorized));
}

#[test]
fn claim_callback_logs_success_with_its_pair() {
    let contract = Contract::default();
    let line = contract
        .handle_claim_result(
            SELF_ID,
            SELF_ID,
            "farm-one.near".to_string(),
            "claim_all_rewards".to_string(),
            Some(ChainOutcome::Success),
        )
        .unwrap();
    assert_eq!(line, "claim_all_rewards succeeded for farm-one.near");
}

#[test]
fn claim_callback_logs_failure_with_the_registration_hint() {
    let contract = Contract::default();
    let line = contract
        .handle_claim_result(
            SELF_ID,
            SELF_ID,
            "farm-one.near".to_string(),
            "claim_from_burrow".to_string(),
            Some(ChainOutcome::Failed),
        )
        .unwrap();
    assert_eq!(
        line,
        "Failed to execute claim_from_burrow on farm-one.near: Account may not be registered"
    );
}

#[test]
fn callback_without_a_result_logs_the_distinct_no_result_line() {
    let contract = Contract::default();
    let line = contract
        .handle_claim_result(
            SELF_ID,
            SELF_ID,
            "farm-one.near".to_string(),
            "claim_all_rewards".to_string(),
            None,
        )
        .unwrap();
    assert_eq!(line, "No promise result available");
    let line = contract
        .handle_reinvest_result(
            SELF_ID,
            SELF_ID,
            "farm-one.near".to_string(),
            "deposit_into_burrow".to_string(),
            None,
        )
        .unwrap();
    assert_eq!(line, "No promise result available");
}

#[test]
fn reinvest_callback_logs_failure_with_the_balance_hint() {
    let contract = Contract::default();
    let line = contract
        .handle_reinvest_result(
            SELF_ID,
            SELF_ID,
            "farm-one.near".to_string(),
            "stake_xRef".to_string(),
            Some(ChainOutcome::Failed),
        )
        .unwrap();
    assert_eq!(
        line,
        "Failed to execute stake_xRef on farm-one.near: Check account registration or balance"
    );
}

#[test]
fn callbacks_are_restricted_to_the_contract_itself() {
    let contract = Contract::default();
    let outcome = contract.handle_claim_result(
        "mallory.near",
        SELF_ID,
        "farm-one.near".to_string(),
        "claim_all_rewards".to_string(),
        Some(ChainOutcome::Success),
    );
    assert_eq!(outcome.err(), Some(TriggerError::Unauthorized));
}
