use delorean::accounts::{AccountState, AccountStore};
use delorean::address::Address;

fn acct(lamports: u64, data: Vec<u8>) -> AccountState {
    AccountState { lamports, data, owner: Address([3; 32]), executable: false, rent_epoch: 0 }
}

#[test]
fn read_after_write_returns_written_account() {
    let mut store = AccountStore::new();
    assert_eq!(store.len(), 0);
    store.insert(Address([1; 32]), acct(10, vec![1]));
    store.insert(Address([2; 32]), acct(20, vec![2, 2]));
    let a = store.get(&Address([1; 32])).expect("present");
    assert_eq!(a.lamports, 10);
    assert_eq!(a.data, vec![1]);
    assert!(store.contains(&Address([2; 32])));
    assert!(!store.contains(&Address([3; 32])));
    assert!(store.get(&Address([3; 32])).is_none());
}

#[test]
fn rewrite_replaces_and_keeps_length() {
    let mut store = AccountStore::new();
    store.insert(Address([1; 32]), acct(10, vec![1]));
    store.insert(Address([2; 32]), acct(20, vec![]));
    assert_eq!(store.len(), 2);
    store.insert(Address([1; 32]), acct(99, vec![7, 7]));
    assert_eq!(store.len(), 2);
    assert_eq!(store.get(&Address([1; 32])).unwrap().lamports, 99);
    assert_eq!(store.get(&Address([2; 32])).unwrap().lamports, 20);
}

#[test]
fn empty_and_duplicate_accounts() {
    let e = AccountState::empty();
    assert_eq!(e.lamports, 0);
    assert!(e.data.is_empty());
    assert_eq!(e.owner, Address([0; 32]));
    assert!(!e.executable);
    assert_eq!(e.rent_epoch, 0);
    let a = acct(5, vec![1, 2, 3]);
    let d = a.duplicate();
    assert_eq!(d.lamports, 5);
    assert_eq!(d.data, vec![1, 2, 3]);
    assert_eq!(d.owner, a.owner);
}

#[test]
fn address_equality_is_bytewise() {
    assert_eq!(Address([4; 32]), Address([4; 32]));
    let mut b = [4u8; 32];
    b[31] = 5;
    assert_ne!(Address([4; 32]), Address(b));
    assert_eq!(Address::zeroed(), Address([0; 32]));
}
