use delorean::address::Address;
use delorean::features::{feature_set_from_fixture, is_feature_active};

#[test]
fn fixture_features_are_active_and_others_are_not() {
    let enabled = vec![Address([1; 32]), Address([2; 32])];
    let fs = feature_set_from_fixture(&enabled);
    assert!(is_feature_active(&fs, &Address([1; 32])));
    assert!(is_feature_active(&fs, &Address([2; 32])));
    assert!(!is_feature_active(&fs, &Address([3; 32])));
}

#[test]
fn fixture_features_activate_at_slot_zero() {
    let enabled = vec![Address([5; 32])];
    let fs = feature_set_from_fixture(&enabled);
    let key = solana_pubkey::Pubkey::new_from_array([5; 32]);
    assert_eq!(fs.activated_slot(&key), Some(0));
    assert!(fs.inactive().is_empty());
}

#[test]
fn no_features_means_none_active() {
    let fs = feature_set_from_fixture(&vec![]);
    assert!(!is_feature_active(&fs, &Address([0; 32])));
    assert!(fs.active().is_empty());
}
