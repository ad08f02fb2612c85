//! Tests of the access guard's owner-derivation rule.

use autocompounder::guard::{AccessGuard, AuthDecision, OwnerPolicy};

fn dash_guard() -> AccessGuard {
    AccessGuard {
        root_operator: "near".to_string(),
        policy: OwnerPolicy::DashToDot,
    }
}

fn suffix_guard() -> AccessGuard {
    AccessGuard {
        root_operator: "factory.near".to_string(),
        policy: OwnerPolicy::AppendSuffix(".near".to_string()),
    }
}

#[test]
fn the_contract_may_always_act_on_itself() {
    let d = dash_guard().authorize("vault-main.near", "vault-main.near");
    assert_eq!(d, AuthDecision::Allowed);
}

#[test]
fn the_root_operator_is_always_allowed() {
    let d = dash_guard().authorize("near", "vault-main.near");
    assert_eq!(d, AuthDecision::Allowed);
}

#[test]
fn dash_to_dot_derives_the_owner() {
    let guard = dash_guard();
    assert_eq!(
        guard.authorize("vault.main", "vault-main.near"),
        AuthDecision::Allowed
    );
    assert_eq!(
        guard.authorize("vault-main", "vault-main.near"),
        AuthDecision::Denied
    );
    assert_eq!(
        guard.authorize("vault.main.x", "vault-main.near"),
        AuthDecision::Denied
    );
}

#[test]
fn suffix_append_derives_the_owner() {
    let guard = suffix_guard();
    assert_eq!(
        guard.authorize("vault.near", "vault.factory.near"),
        AuthDecision::Allowed
    );
    assert_eq!(
        guard.authorize("vault", "vault.factory.near"),
        AuthDecision::Denied
    );
}

#[test]
fn a_64_character_hex_delegate_names_its_owner_verbatim() {
    let hex = "0123456789abcdef0123456789abcdef0123456789abcdef0123456789abcdef";
    let self_id = format!("{}.near", hex);
    let guard = dash_guard();
    assert_eq!(guard.authorize(hex, &self_id), AuthDecision::Allowed);
    // Under the suffix policy too: the hex name is used verbatim, unsuffixed.
    let guard = AccessGuard {
        root_operator: "near".to_string(),
        policy: OwnerPolicy::AppendSuffix(".near".to_string()),
    };
    assert_eq!(guard.authorize(hex, &self_id), AuthDecision::Allowed);
}

#[test]
fn strangers_are_denied() {
    let guard = dash_guard();
    assert_eq!(
        guard.authorize("mallory.near", "vault-main.near"),
        AuthDecision::Denied
    );
    assert_eq!(guard.authorize("", "vault-main.near"), AuthDecision::Denied);
}

#[test]
fn outside_the_root_namespace_no_owner_is_derived() {
    let guard = dash_guard();
    // The contract identity does not end in ".near": only the contract
    // itself and the root operator are allowed.
    assert_eq!(
        guard.authorize("vault.main", "vault-main.other"),
        AuthDecision::Denied
    );
    assert_eq!(
        guard.authorize("near", "vault-main.other"),
        AuthDecision::Allowed
    );
}
