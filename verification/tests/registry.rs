//! Tests of the participant registry at the crate root: one optional
//! strategy preference per participant.

use autocompounder::{Contract, InvestOption, Preference, RegistryError, ReinvestOption};

fn sample_preference(seed_id: &str) -> Preference {
    Preference {
        smart_contract_name: "charlie".to_string(),
        is_active: true,
        invested_in: InvestOption::Burrow {
            seed_id: seed_id.to_string(),
            token_id: "danny".to_string(),
        },
        reinvest_to: ReinvestOption::Burrow {
            seed_id: seed_id.to_string(),
            token_id: "danny".to_string(),
        },
    }
}

#[test]
fn test_store_and_get_user() {
    let mut contract = Contract::default();
    contract
        .store_user("alice".to_string(), "bob".to_string())
        .unwrap();
    let user = contract.get_user("alice".to_string()).unwrap();
    assert_eq!(user.wallet_id, "alice");
    assert_eq!(user.subaccount_id, "bob");
    assert!(user.preference.is_none());
}

#[test]
fn test_update_preference() {
    let mut contract = Contract::default();
    contract
        .store_user("alice".to_string(), "bob".to_string())
        .unwrap();
    let preference = sample_preference("seed1");
    contract
        .update_preference("alice".to_string(), preference)
        .unwrap();
    let user = contract.get_user("alice".to_string()).unwrap();
    let stored_pref = user.preference.unwrap();
    assert_eq!(stored_pref.is_active, true);
    match stored_pref.invested_in {
        InvestOption::Burrow { seed_id, .. } => {
            assert_eq!(seed_id, "seed1");
        }
    }
}

#[test]
fn test_delete_preference() {
    let mut contract = Contract::default();
    contract
        .store_user("alice".to_string(), "bob".to_string())
        .unwrap();
    let preference = sample_preference("seed1");
    contract
        .update_preference("alice".to_string(), preference)
        .unwrap();
    contract.delete_preference("alice".to_string()).unwrap();
    let user = contract.get_user("alice".to_string()).unwrap();
    assert!(user.preference.is_none());
}

#[test]
fn test_delete_nonexistent_preference() {
    let mut contract = Contract::default();
    contract
        .store_user("alice".to_string(), "bob".to_string())
        .unwrap();
    contract.delete_preference("alice".to_string()).unwrap();
    let user = contract.get_user("alice".to_string()).unwrap();
    assert!(user.preference.is_none());
}

#[test]
fn store_user_rejects_duplicate() {
    let mut contract = Contract::default();
    contract
        .store_user("alice".to_string(), "bob".to_string())
        .unwrap();
    let second = contract.store_user("alice".to_string(), "bob".to_string());
    assert_eq!(second, Err(RegistryError::AlreadyRegistered));
    let user = contract.get_user("alice".to_string()).unwrap();
    assert_eq!(user.subaccount_id, "bob");
}

#[test]
fn update_preference_requires_registration() {
    let mut contract = Contract::default();
    let outcome = contract.update_preference("alice".to_string(), sample_preference("seed1"));
    assert_eq!(outcome, Err(RegistryError::UserNotFound));
}

#[test]
fn update_preference_rejects_seed_of_65_characters() {
    let mut contract = Contract::default();
    contract
        .store_user("alice".to_string(), "bob".to_string())
        .unwrap();
    let long_seed = "s".repeat(65);
    let outcome = contract.update_preference("alice".to_string(), sample_preference(&long_seed));
    assert_eq!(outcome, Err(RegistryError::SeedTooLong));
    let user = contract.get_user("alice".to_string()).unwrap();
    assert!(user.preference.is_none());
}

#[test]
fn update_preference_accepts_seed_of_64_characters() {
    let mut contract = Contract::default();
    contract
        .store_user("alice".to_string(), "bob".to_string())
        .unwrap();
    let seed = "s".repeat(64);
    contract
        .update_preference("alice".to_string(), sample_preference(&seed))
        .unwrap();
    let user = contract.get_user("alice".to_string()).unwrap();
    assert!(user.preference.is_some());
}
