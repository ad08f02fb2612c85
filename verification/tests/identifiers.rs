//! Tests of the account-identifier grammar and the decimal rendering.

use autocompounder::account::{is_hex_account_name, is_valid_account_id};
use autocompounder::decimal::u128_to_decimal;

#[test]
fn well_formed_account_ids_are_accepted() {
    assert!(is_valid_account_id("ab"));
    assert!(is_valid_account_id("alice.near"));
    assert!(is_valid_account_id("a-b_c.d2"));
    assert!(is_valid_account_id("farm-one.near"));
    let longest = "a".repeat(64);
    assert!(is_valid_account_id(&longest));
}

#[test]
fn malformed_account_ids_are_rejected() {
    assert!(!is_valid_account_id(""));
    assert!(!is_valid_account_id("a"));
    assert!(!is_valid_account_id("-ab"));
    assert!(!is_valid_account_id("ab-"));
    assert!(!is_valid_account_id("a..b"));
    assert!(!is_valid_account_id("a.-b"));
    assert!(!is_valid_account_id("a_-b"));
    assert!(!is_valid_account_id("Alice.near"));
    assert!(!is_valid_account_id("a b"));
    assert!(!is_valid_account_id("Bad!Name"));
    let too_long = "a".repeat(65);
    assert!(!is_valid_account_id(&too_long));
}

#[test]
fn hex_names_are_64_lowercase_hex_characters() {
    let hex = "0123456789abcdef0123456789abcdef0123456789abcdef0123456789abcdef";
    assert!(is_hex_account_name(hex));
    assert!(!is_hex_account_name(&hex[..63]));
    let upper = hex.to_uppercase();
    assert!(!is_hex_account_name(&upper));
    let with_g = format!("g{}", &hex[..63]);
    assert!(!is_hex_account_name(&with_g));
}

#[test]
fn decimal_rendering_is_canonical() {
    assert_eq!(u128_to_decimal(0), "0");
    assert_eq!(u128_to_decimal(7), "7");
    assert_eq!(u128_to_decimal(10), "10");
    assert_eq!(u128_to_decimal(1234567890), "1234567890");
    assert_eq!(
        u128_to_decimal(2_000_000_000_000_000_000_000_000),
        "2000000000000000000000000"
    );
    assert_eq!(
        u128_to_decimal(u128::MAX),
        "340282366920938463463374607431768211455"
    );
}
