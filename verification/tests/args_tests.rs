use delorean::address::Address;
use delorean::args::{parse_args, parse_one_program_replacement, ArgError, DEFAULT_RPC_URL};

const SIG: &str = "99eUso3aSbE9tqGSTXzo3TLfKb9RkMTURrHKQ1K7Zh3BbeqPevr5E1iCbpTjqHuTFLtfxTTD5ekfVuZFzQyEQf8";
const KEY1: &str = "4vJ9JU1bJJE96FWSJKvHsmmFADCg4gpZQff4P3bkLKi";
const KEY2: &str = "8qbHbw2BbbTHBW1sbeqakYXVKRQM8Ne7pLK7m6CVfeR";

fn args(v: &[&str]) -> Vec<String> {
    v.iter().map(|s| s.to_string()).collect()
}

#[test]
fn signature_with_default_url() {
    let (sig, url, reps) = parse_args(&args(&["delorean", SIG])).unwrap();
    assert_eq!(sig, [7u8; 64]);
    assert_eq!(url, DEFAULT_RPC_URL);
    assert_eq!(url, "http://localhost:8899");
    assert!(reps.is_empty());
}

#[test]
fn explicit_url_and_both_replacement_forms() {
    let a = args(&[
        "delorean",
        &format!("--replace-program={KEY1}:/tmp/a.so"),
        SIG,
        "--replace-program",
        &format!("{KEY2}:/tmp/b:c.so"),
        "http://example:1",
    ]);
    let (sig, url, reps) = parse_args(&a).unwrap();
    assert_eq!(sig, [7u8; 64]);
    assert_eq!(url, "http://example:1");
    assert_eq!(reps.len(), 2);
    assert_eq!(reps[0].program_id, Address([1; 32]));
    assert_eq!(reps[0].elf_path, "/tmp/a.so");
    assert_eq!(reps[1].program_id, Address([2; 32]));
    assert_eq!(reps[1].elf_path, "/tmp/b:c.so");
}

#[test]
fn argument_errors() {
    assert!(matches!(parse_args(&args(&["delorean"])), Err(ArgError::MissingSignature)));
    assert!(matches!(parse_args(&args(&["delorean", "--replace-program"])), Err(ArgError::MissingReplacementValue)));
    assert!(matches!(parse_args(&args(&["delorean", "not-a-signature"])), Err(ArgError::BadSignature { .. })));
    match parse_args(&args(&["delorean", "--replace-program=nokey", SIG])) {
        Err(ArgError::ExpectedPubkeyPath { flag_span }) => assert_eq!(flag_span, "--replace-program=nokey"),
        other => panic!("unexpected {other:?}"),
    }
    match parse_args(&args(&["delorean", "--replace-program", "bad!:/x", SIG])) {
        Err(ArgError::BadPubkey { key, reason }) => {
            assert_eq!(key, "bad!");
            assert_eq!(reason, "bad!".parse::<solana_pubkey::Pubkey>().unwrap_err().to_string());
        }
        other => panic!("unexpected {other:?}"),
    }
}

#[test]
fn first_error_wins_before_signature_check() {
    assert!(matches!(
        parse_args(&args(&["delorean", "garbage", "--replace-program=x"])),
        Err(ArgError::ExpectedPubkeyPath { .. })
    ));
}

#[test]
fn single_replacement_parsing() {
    let r = parse_one_program_replacement(&format!("{KEY1}:"), "span").unwrap();
    assert_eq!(r.program_id, Address([1; 32]));
    assert_eq!(r.elf_path, "");
    match parse_one_program_replacement("abc", "the-span") {
        Err(ArgError::ExpectedPubkeyPath { flag_span }) => assert_eq!(flag_span, "the-span"),
        other => panic!("unexpected {other:?}"),
    }
}
