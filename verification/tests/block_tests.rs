use delorean::address::Address;
use delorean::block::{
    is_simple_vote_transaction, parse_block_args, parse_u64, select_replay_signatures, signature_fee,
    BlockArgError, BlockRelation, IntErrorKind, ReplayForkGraph, TransactionSummary,
};

fn vote() -> Address {
    Address(solana_sdk_ids::vote::id().to_bytes())
}

fn tx(keys: Vec<Address>, programs: Vec<u8>, sig: Option<[u8; 64]>) -> TransactionSummary {
    TransactionSummary { static_account_keys: keys, program_id_indices: programs, first_signature: sig }
}

fn args(v: &[&str]) -> Vec<String> {
    v.iter().map(|s| s.to_string()).collect()
}

#[test]
fn decimal_parsing_follows_std() {
    assert_eq!(parse_u64("0"), Ok(0));
    assert_eq!(parse_u64("+17"), Ok(17));
    assert_eq!(parse_u64("18446744073709551615"), Ok(u64::MAX));
    assert_eq!(parse_u64("18446744073709551616"), Err(IntErrorKind::PosOverflow));
    assert_eq!(parse_u64(""), Err(IntErrorKind::Empty));
    assert_eq!(parse_u64("+"), Err(IntErrorKind::InvalidDigit));
    assert_eq!(parse_u64("-1"), Err(IntErrorKind::InvalidDigit));
    assert_eq!(parse_u64("12a"), Err(IntErrorKind::InvalidDigit));
    for s in ["0", "42", "+9", "007", "99999999999999999999", "-0", "1_000", " 1"] {
        let expected = s.parse::<u64>().map_err(|e| e.kind().clone());
        let ours = parse_u64(s).map_err(|k| match k {
            IntErrorKind::Empty => std::num::IntErrorKind::Empty,
            IntErrorKind::InvalidDigit => std::num::IntErrorKind::InvalidDigit,
            IntErrorKind::PosOverflow => std::num::IntErrorKind::PosOverflow,
        });
        assert_eq!(ours, expected, "input {s:?}");
    }
}

#[test]
fn block_arguments() {
    assert!(matches!(parse_block_args(&args(&["d", "block", "5"]), None), Err(BlockArgError::Usage)));
    let b = parse_block_args(&args(&["d", "block", "5", "http://a"]), None).unwrap();
    assert_eq!(b.slot, 5);
    assert_eq!(b.solana_rpc_url, "http://a");
    assert_eq!(b.penrose_rpc_url, "http://a");
    let b = parse_block_args(&args(&["d", "block", "5", "http://a"]), Some("http://env".to_string())).unwrap();
    assert_eq!(b.penrose_rpc_url, "http://env");
    let b = parse_block_args(&args(&["d", "block", "5", "http://a", "http://b"]), Some("http://env".to_string())).unwrap();
    assert_eq!(b.penrose_rpc_url, "http://b");
    match parse_block_args(&args(&["d", "block", "x5", "http://a"]), None) {
        Err(BlockArgError::BadSlot { text, kind }) => {
            assert_eq!(text, "x5");
            assert_eq!(kind, IntErrorKind::InvalidDigit);
        }
        other => panic!("unexpected {other:?}"),
    }
}

#[test]
fn simple_vote_detection() {
    let other = Address([5; 32]);
    assert!(is_simple_vote_transaction(&tx(vec![other, vote()], vec![1, 1], None)));
    assert!(!is_simple_vote_transaction(&tx(vec![other, vote()], vec![1, 0], None)));
    assert!(!is_simple_vote_transaction(&tx(vec![vote()], vec![], None)));
    assert!(!is_simple_vote_transaction(&tx(vec![vote()], vec![3], None)));
}

#[test]
fn block_selection_skips_votes_and_undecodable() {
    let txs = vec![
        Some(tx(vec![Address([5; 32])], vec![0], Some([1; 64]))),
        Some(tx(vec![vote()], vec![0], Some([2; 64]))),
        None,
        Some(tx(vec![Address([5; 32])], vec![0], None)),
        Some(tx(vec![Address([6; 32])], vec![0], Some([3; 64]))),
    ];
    let s = select_replay_signatures(&txs);
    assert_eq!(s.total_txs, 5);
    assert_eq!(s.vote_txs, 1);
    assert_eq!(s.signatures, vec![[1; 64], [3; 64]]);
}

#[test]
fn signature_fee_saturates() {
    assert_eq!(signature_fee(1, 2, 0, 1, 5000), 20000);
    assert_eq!(signature_fee(u64::MAX, 1, 0, 0, 1), u64::MAX);
    assert_eq!(signature_fee(3, 0, 0, 0, u64::MAX), u64::MAX);
    assert_eq!(signature_fee(0, 0, 0, 0, 5000), 0);
}

#[test]
fn fork_graph_is_one_chain() {
    let g = ReplayForkGraph;
    assert_eq!(g.relationship(1, 2), BlockRelation::Ancestor);
    assert_eq!(g.relationship(2, 2), BlockRelation::Equal);
    assert_eq!(g.relationship(3, 2), BlockRelation::Descendant);
}
