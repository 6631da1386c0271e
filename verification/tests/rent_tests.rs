use delorean::address::Address;
use delorean::fixture::FixtureSysvar;
use delorean::rent::{extract_rent, Rent};

fn rent_id() -> Address {
    Address(solana_sdk_ids::sysvar::rent::id().to_bytes())
}

fn rent_bytes(lamports_per_byte: u64, threshold: f64, burn: u8) -> Vec<u8> {
    let mut v = lamports_per_byte.to_le_bytes().to_vec();
    v.extend_from_slice(&threshold.to_le_bytes());
    v.push(burn);
    v
}

#[test]
fn default_rent_minimum_balances() {
    let rent = Rent::default();
    assert_eq!(rent.lamports_per_byte, 6960);
    assert_eq!(rent.exemption_threshold, 1.0f64.to_le_bytes());
    assert_eq!(rent.burn_percent, 50);
    assert_eq!(rent.minimum_balance(0), 128 * 6960);
    assert_eq!(rent.minimum_balance(100), 228 * 6960);
}

#[test]
fn minimum_balance_grows_with_length() {
    let rent = Rent::default();
    assert!(rent.minimum_balance(10) <= rent.minimum_balance(11));
    assert!(rent.minimum_balance(0) < rent.minimum_balance(1000));
}

#[test]
fn threshold_two_doubles_the_balance() {
    let rent = Rent { lamports_per_byte: 3480, exemption_threshold: 2.0f64.to_le_bytes(), burn_percent: 50 };
    assert_eq!(rent.minimum_balance(0), 2 * 128 * 3480);
    assert_eq!(rent.minimum_balance(0), Rent::default().minimum_balance(0));
}

#[test]
fn minimum_balance_defined_only_up_to_ten_mebibytes() {
    let rent = Rent::default();
    assert!(rent.minimum_balance_is_defined(10 * 1024 * 1024));
    assert!(!rent.minimum_balance_is_defined(10 * 1024 * 1024 + 1));
    let huge = Rent { lamports_per_byte: u64::MAX, exemption_threshold: 1.0f64.to_le_bytes(), burn_percent: 0 };
    assert!(!huge.minimum_balance_is_defined(0));
}

#[test]
fn extract_rent_reads_the_rent_sysvar() {
    let sysvars = vec![
        FixtureSysvar { sysvar_id: Address([1; 32]), data: vec![] },
        FixtureSysvar { sysvar_id: rent_id(), data: rent_bytes(1000, 2.0, 40) },
    ];
    let rent = extract_rent(&sysvars);
    assert_eq!(rent.lamports_per_byte, 1000);
    assert_eq!(rent.exemption_threshold, 2.0f64.to_le_bytes());
    assert_eq!(rent.burn_percent, 40);
}

#[test]
fn extract_rent_takes_the_first_rent_sysvar() {
    let sysvars = vec![
        FixtureSysvar { sysvar_id: rent_id(), data: rent_bytes(11, 1.0, 1) },
        FixtureSysvar { sysvar_id: rent_id(), data: rent_bytes(22, 1.0, 2) },
    ];
    assert_eq!(extract_rent(&sysvars).lamports_per_byte, 11);
}

#[test]
fn extract_rent_defaults_when_absent_or_undecodable() {
    assert_eq!(extract_rent(&[]).lamports_per_byte, 6960);
    let bad = vec![FixtureSysvar { sysvar_id: rent_id(), data: vec![1, 2, 3] }];
    let rent = extract_rent(&bad);
    assert_eq!(rent.lamports_per_byte, 6960);
    assert_eq!(rent.burn_percent, 50);
}
