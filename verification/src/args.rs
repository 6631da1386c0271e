use vstd::prelude::*;
use vstd::string::StringSliceAdditionalSpecFns;
use vstd::utf8::{encode_utf8, is_ascii_chars, is_ascii_chars_encode_utf8};
use crate::address::Address;
use crate::text::{find_byte, first_index_of, split_around_ascii, starts_with, text_bytes};
use solana_pubkey::Pubkey;
use solana_signature::Signature;

verus! {

/// The RPC endpoint used when none is given.
pub const DEFAULT_RPC_URL: &'static str = "http://localhost:8899";

/// A deployed program to be replaced by the ELF at `elf_path` before replay.
#[derive(Clone, Debug)]
pub struct ProgramReplacement {
    pub program_id: Address,
    pub elf_path: String,
}

/// Why the command line of a replay was refused.
#[derive(Debug)]
pub enum ArgError {
    /// A replacement is not of the form `<PUBKEY>:<PATH>`; `flag_span` is
    /// the argument that carried it.
    ExpectedPubkeyPath { flag_span: String },
    /// The key of a replacement is no valid public key.
    BadPubkey { key: String, reason: String },
    /// `--replace-program` is the last argument.
    MissingReplacementValue,
    /// No positional argument gives the transaction signature.
    MissingSignature,
    /// The first positional argument is no valid signature.
    BadSignature { reason: String },
}

/// The kind of an `ArgError` and the texts it is about.
pub enum ArgFailure {
    ExpectedPubkeyPath { flag_span: Seq<u8> },
    BadPubkey { key: Seq<u8>, reason: Seq<char> },
    MissingReplacementValue,
    MissingSignature,
    BadSignature { reason: Seq<char> },
}

/// The UTF-8 bytes of a `String`.
pub open spec fn string_bytes(s: String) -> Seq<u8> {
    encode_utf8(s@)
}

pub open spec fn failure_of(e: ArgError) -> ArgFailure {
    match e {
        ArgError::ExpectedPubkeyPath { flag_span } => ArgFailure::ExpectedPubkeyPath { flag_span: string_bytes(flag_span) },
        ArgError::BadPubkey { key, reason } => ArgFailure::BadPubkey { key: string_bytes(key), reason: reason@ },
        ArgError::MissingReplacementValue => ArgFailure::MissingReplacementValue,
        ArgError::MissingSignature => ArgFailure::MissingSignature,
        ArgError::BadSignature { reason } => ArgFailure::BadSignature { reason: reason@ },
    }
}

/// What parsing base58 text as a public key gives: its 32 bytes, or the
/// message of the parse error.
pub uninterp spec fn parsed_pubkey(text: Seq<u8>) -> Result<Seq<u8>, Seq<char>>;

/// What parsing base58 text as a signature gives: its 64 bytes, or the
/// message of the parse error.
pub uninterp spec fn parsed_signature(text: Seq<u8>) -> Result<Seq<u8>, Seq<char>>;

/// Calls `<Pubkey as FromStr>::from_str`, base58 decoding into 32 bytes;
/// the result, with the error as its message, is named by `parsed_pubkey`.
#[verifier::external_body]
fn parse_pubkey(text: &str) -> (r: Result<Address, String>)
    ensures
        match parsed_pubkey(text_bytes(text)) {
            Ok(k) => r matches Ok(a) && a@ == k,
            Err(m) => r matches Err(e) && e@ == m,
        },
{
    match text.parse::<Pubkey>() {
        Ok(k) => Ok(Address(k.to_bytes())),
        Err(e) => Err(format!("{e}")),
    }
}

/// Calls `<Signature as FromStr>::from_str`, base58 decoding into 64
/// bytes; the result, with the error as its message, is named by
/// `parsed_signature`.
#[verifier::external_body]
fn parse_signature(text: &str) -> (r: Result<[u8; 64], String>)
    ensures
        match parsed_signature(text_bytes(text)) {
            Ok(g) => r matches Ok(s) && s@ == g,
            Err(m) => r matches Err(e) && e@ == m,
        },
{
    match text.parse::<Signature>() {
        Ok(s) => Ok(s.into()),
        Err(e) => Err(format!("{e}")),
    }
}

/// `--replace-program=`
pub open spec fn replace_flag_with_value() -> Seq<u8> {
    seq![45u8, 45, 114, 101, 112, 108, 97, 99, 101, 45, 112, 114, 111, 103, 114, 97, 109, 61]
}

/// `--replace-program`
pub open spec fn replace_flag() -> Seq<u8> {
    seq![45u8, 45, 114, 101, 112, 108, 97, 99, 101, 45, 112, 114, 111, 103, 114, 97, 109]
}

/// `http://localhost:8899`
pub open spec fn default_rpc_url() -> Seq<u8> {
    seq![104u8, 116, 116, 112, 58, 47, 47, 108, 111, 99, 97, 108, 104, 111, 115, 116, 58, 56, 56, 57, 57]
}

proof fn lemma_literal_bytes()
    ensures
        text_bytes("--replace-program=") == replace_flag_with_value(),
        text_bytes("--replace-program") == replace_flag(),
        text_bytes(DEFAULT_RPC_URL) == default_rpc_url(),
{
    reveal_strlit("--replace-program=");
    reveal_strlit("--replace-program");
    reveal_strlit("http://localhost:8899");
    let a = "--replace-program=";
    let b = "--replace-program";
    let c = "http://localhost:8899";
    assert(is_ascii_chars(a@));
    assert(is_ascii_chars(b@));
    assert(is_ascii_chars(c@));
    is_ascii_chars_encode_utf8(a@);
    is_ascii_chars_encode_utf8(b@);
    is_ascii_chars_encode_utf8(c@);
    assert(text_bytes(a) =~= replace_flag_with_value());
    assert(text_bytes(b) =~= replace_flag());
    assert(text_bytes(c) =~= default_rpc_url());
}

/// A replacement `<PUBKEY>:<PATH>`: the program key decoded from the text
/// before the first `:`, and the path after it.
pub open spec fn replacement_spec(text: Seq<u8>, flag_span: Seq<u8>) -> Result<(Seq<u8>, Seq<u8>), ArgFailure> {
    match first_index_of(text, 58) {
        None => Err(ArgFailure::ExpectedPubkeyPath { flag_span }),
        Some(c) => match parsed_pubkey(text.subrange(0, c)) {
            Err(reason) => Err(ArgFailure::BadPubkey { key: text.subrange(0, c), reason }),
            Ok(k) => Ok((k, text.subrange(c + 1, text.len() as int))),
        },
    }
}

pub open spec fn replacement_view(r: ProgramReplacement) -> (Seq<u8>, Seq<u8>) {
    (r.program_id@, string_bytes(r.elf_path))
}

/// Parses one `<PUBKEY>:<PATH>` replacement; `flag_span` is the argument
/// that carried it, for the error.
pub fn parse_one_program_replacement(spec: &str, flag_span: &str) -> (r: Result<ProgramReplacement, ArgError>)
    ensures
        match replacement_spec(text_bytes(spec), text_bytes(flag_span)) {
            Ok(v) => r matches Ok(p) && replacement_view(p) == v,
            Err(f) => r matches Err(e) && failure_of(e) == f,
        },
{
    let colon = match find_byte(spec.as_bytes(), 58) {
        Some(c) => c,
        None => return Err(ArgError::ExpectedPubkeyPath { flag_span: flag_span.to_owned() }),
    };
    let (key, path) = split_around_ascii(spec, colon);
    match parse_pubkey(key) {
        Ok(program_id) => Ok(ProgramReplacement { program_id, elf_path: path.to_owned() }),
        Err(reason) => Err(ArgError::BadPubkey { key: key.to_owned(), reason }),
    }
}

/// The replacements and positional arguments of `args` from index `i` on,
/// after the replacements `reps` and positionals `pos` already read.
pub open spec fn parse_from(
    args: Seq<Seq<u8>>,
    i: int,
    reps: Seq<(Seq<u8>, Seq<u8>)>,
    pos: Seq<Seq<u8>>,
) -> Result<(Seq<(Seq<u8>, Seq<u8>)>, Seq<Seq<u8>>), ArgFailure>
    decreases args.len() - i,
{
    if i < 0 || i >= args.len() {
        Ok((reps, pos))
    } else {
        let a = args[i];
        let n = replace_flag_with_value().len() as int;
        if n <= a.len() && a.subrange(0, n) == replace_flag_with_value() {
            match replacement_spec(a.subrange(n, a.len() as int), a) {
                Err(f) => Err(f),
                Ok(r) => parse_from(args, i + 1, reps.push(r), pos),
            }
        } else if a == replace_flag() {
            if i + 1 >= args.len() {
                Err(ArgFailure::MissingReplacementValue)
            } else {
                match replacement_spec(args[i + 1], args[i + 1]) {
                    Err(f) => Err(f),
                    Ok(r) => parse_from(args, i + 2, reps.push(r), pos),
                }
            }
        } else {
            parse_from(args, i + 1, reps, pos.push(a))
        }
    }
}

/// A replay command line: `[--replace-program=<PUBKEY>:<PATH> |
/// --replace-program <PUBKEY>:<PATH> ...] <signature> [rpc_url]`, with the
/// program name first. Flags and positionals may be mixed; the first
/// positional is the signature, the second the RPC URL, which defaults to
/// `http://localhost:8899`.
pub open spec fn replay_args_spec(args: Seq<Seq<u8>>) -> Result<(Seq<u8>, Seq<u8>, Seq<(Seq<u8>, Seq<u8>)>), ArgFailure> {
    match parse_from(args, 1, seq![], seq![]) {
        Err(f) => Err(f),
        Ok((reps, pos)) => {
            if pos.len() == 0 {
                Err(ArgFailure::MissingSignature)
            } else {
                match parsed_signature(pos[0]) {
                    Err(reason) => Err(ArgFailure::BadSignature { reason }),
                    Ok(sig) => Ok((sig, if pos.len() > 1 { pos[1] } else { default_rpc_url() }, reps)),
                }
            }
        },
    }
}

pub open spec fn args_bytes(args: Seq<String>) -> Seq<Seq<u8>> {
    args.map_values(|s: String| string_bytes(s))
}

pub open spec fn replacements_view(reps: Seq<ProgramReplacement>) -> Seq<(Seq<u8>, Seq<u8>)> {
    reps.map_values(|r: ProgramReplacement| replacement_view(r))
}

/// Reads the argument at index `i`: a replacement flag with its value, or
/// a positional argument. Returns the index of the next argument to read.
fn parse_arg_at(
    args: &[String],
    i: usize,
    replace_programs: &mut Vec<ProgramReplacement>,
    positionals: &mut Vec<String>,
) -> (r: Result<usize, ArgError>)
    requires
        1 <= i < args@.len(),
        text_bytes("--replace-program=") == replace_flag_with_value(),
        text_bytes("--replace-program") == replace_flag(),
    ensures
        match r {
            Ok(j) => i < j <= args@.len() && parse_from(
                args_bytes(args@),
                i as int,
                replacements_view(old(replace_programs)@),
                old(positionals)@.map_values(|s: String| string_bytes(s)),
            ) == parse_from(
                args_bytes(args@),
                j as int,
                replacements_view(final(replace_programs)@),
                final(positionals)@.map_values(|s: String| string_bytes(s)),
            ),
            Err(e) => parse_from(
                args_bytes(args@),
                i as int,
                replacements_view(old(replace_programs)@),
                old(positionals)@.map_values(|s: String| string_bytes(s)),
            ) == Err::<(Seq<(Seq<u8>, Seq<u8>)>, Seq<Seq<u8>>), ArgFailure>(failure_of(e)),
        },
{
    let arg = args[i].as_str();
    if starts_with(arg.as_bytes(), "--replace-program=".as_bytes()) {
        take_flag_with_value(args, i, replace_programs, positionals)
    } else if crate::bytes::bytes_equal(arg.as_bytes(), "--replace-program".as_bytes()) {
        take_flag_and_value(args, i, replace_programs, positionals)
    } else {
        take_positional(args, i, replace_programs, positionals)
    }
}

#[verifier::rlimit(40)]
fn take_flag_with_value(
    args: &[String],
    i: usize,
    replace_programs: &mut Vec<ProgramReplacement>,
    positionals: &mut Vec<String>,
) -> (r: Result<usize, ArgError>)
    requires
        1 <= i < args@.len(),
        text_bytes("--replace-program=") == replace_flag_with_value(),
        ({
            let b = string_bytes(args@[i as int]);
            replace_flag_with_value().len() <= b.len()
                && b.subrange(0, replace_flag_with_value().len() as int) == replace_flag_with_value()
        }),
    ensures
        match r {
            Ok(j) => i < j <= args@.len() && parse_from(
                args_bytes(args@),
                i as int,
                replacements_view(old(replace_programs)@),
                old(positionals)@.map_values(|s: String| string_bytes(s)),
            ) == parse_from(
                args_bytes(args@),
                j as int,
                replacements_view(final(replace_programs)@),
                final(positionals)@.map_values(|s: String| string_bytes(s)),
            ),
            Err(e) => parse_from(
                args_bytes(args@),
                i as int,
                replacements_view(old(replace_programs)@),
                old(positionals)@.map_values(|s: String| string_bytes(s)),
            ) == Err::<(Seq<(Seq<u8>, Seq<u8>)>, Seq<Seq<u8>>), ArgFailure>(failure_of(e)),
        },
{
    let ghost a = args_bytes(args@);
    let ghost reps = replacements_view(replace_programs@);
    let ghost pos = positionals@.map_values(|s: String| string_bytes(s));
    let arg = args[i].as_str();
    assert(text_bytes(arg) == a[i as int]);
    assert(a[i as int][17] == replace_flag_with_value()[17]);
    let (_, rest) = split_around_ascii(arg, 17);
    assert(text_bytes(rest) =~= a[i as int].subrange(18, a[i as int].len() as int));
    match parse_one_program_replacement(rest, arg) {
        Ok(rep) => {
            replace_programs.push(rep);
            assert(replacements_view(replace_programs@) =~= reps.push(replacement_view(rep)));
            assert(positionals@.map_values(|s: String| string_bytes(s)) == pos);
            Ok(i + 1)
        },
        Err(e) => Err(e),
    }
}

fn take_flag_and_value(
    args: &[String],
    i: usize,
    replace_programs: &mut Vec<ProgramReplacement>,
    positionals: &mut Vec<String>,
) -> (r: Result<usize, ArgError>)
    requires
        1 <= i < args@.len(),
        text_bytes("--replace-program=") == replace_flag_with_value(),
        text_bytes("--replace-program") == replace_flag(),
        string_bytes(args@[i as int]) == replace_flag(),
    ensures
        match r {
            Ok(j) => i < j <= args@.len() && parse_from(
                args_bytes(args@),
                i as int,
                replacements_view(old(replace_programs)@),
                old(positionals)@.map_values(|s: String| string_bytes(s)),
            ) == parse_from(
                args_bytes(args@),
                j as int,
                replacements_view(final(replace_programs)@),
                final(positionals)@.map_values(|s: String| string_bytes(s)),
            ),
            Err(e) => parse_from(
                args_bytes(args@),
                i as int,
                replacements_view(old(replace_programs)@),
                old(positionals)@.map_values(|s: String| string_bytes(s)),
            ) == Err::<(Seq<(Seq<u8>, Seq<u8>)>, Seq<Seq<u8>>), ArgFailure>(failure_of(e)),
        },
{
    let ghost a = args_bytes(args@);
    let ghost reps = replacements_view(replace_programs@);
    let ghost pos = positionals@.map_values(|s: String| string_bytes(s));
    assert(!(replace_flag_with_value().len() <= a[i as int].len()));
    if i >= args.len() - 1 {
        return Err(ArgError::MissingReplacementValue);
    }
    let next = args[i + 1].as_str();
    assert(text_bytes(next) == a[i + 1]);
    match parse_one_program_replacement(next, next) {
        Ok(rep) => {
            replace_programs.push(rep);
            assert(replacements_view(replace_programs@) =~= reps.push(replacement_view(rep)));
            assert(positionals@.map_values(|s: String| string_bytes(s)) == pos);
            Ok(i + 2)
        },
        Err(e) => Err(e),
    }
}

fn take_positional(
    args: &[String],
    i: usize,
    replace_programs: &mut Vec<ProgramReplacement>,
    positionals: &mut Vec<String>,
) -> (r: Result<usize, ArgError>)
    requires
        1 <= i < args@.len(),
        ({
            let b = string_bytes(args@[i as int]);
            &&& !(replace_flag_with_value().len() <= b.len()
                && b.subrange(0, replace_flag_with_value().len() as int) == replace_flag_with_value())
            &&& b != replace_flag()
        }),
    ensures
        match r {
            Ok(j) => i < j <= args@.len() && parse_from(
                args_bytes(args@),
                i as int,
                replacements_view(old(replace_programs)@),
                old(positionals)@.map_values(|s: String| string_bytes(s)),
            ) == parse_from(
                args_bytes(args@),
                j as int,
                replacements_view(final(replace_programs)@),
                final(positionals)@.map_values(|s: String| string_bytes(s)),
            ),
            Err(e) => parse_from(
                args_bytes(args@),
                i as int,
                replacements_view(old(replace_programs)@),
                old(positionals)@.map_values(|s: String| string_bytes(s)),
            ) == Err::<(Seq<(Seq<u8>, Seq<u8>)>, Seq<Seq<u8>>), ArgFailure>(failure_of(e)),
        },
{
    let ghost a = args_bytes(args@);
    let ghost reps = replacements_view(replace_programs@);
    let ghost pos = positionals@.map_values(|s: String| string_bytes(s));
    positionals.push(args[i].clone());
    assert(positionals@.map_values(|s: String| string_bytes(s)) =~= pos.push(a[i as int]));
    assert(replacements_view(replace_programs@) == reps);
    Ok(i + 1)
}

/// Parses a replay command line into the transaction signature, the RPC URL
/// and the programs to replace.
pub fn parse_args(args: &[String]) -> (r: Result<([u8; 64], String, Vec<ProgramReplacement>), ArgError>)
    ensures
        match replay_args_spec(args_bytes(args@)) {
            Ok((sig, url, reps)) => r matches Ok((s, u, rs)) && s@ == sig && string_bytes(u) == url
                && replacements_view(rs@) == reps,
            Err(f) => r matches Err(e) && failure_of(e) == f,
        },
{
    proof {
        lemma_literal_bytes();
    }
    let ghost a = args_bytes(args@);
    let mut replace_programs: Vec<ProgramReplacement> = Vec::new();
    let mut positionals: Vec<String> = Vec::new();
    let mut i: usize = 1;
    assert(replacements_view(replace_programs@) =~= seq![]);
    assert(positionals@.map_values(|s: String| string_bytes(s)) =~= seq![]);
    while i < args.len()
        invariant
            1 <= i,
            a == args_bytes(args@),
            text_bytes("--replace-program=") == replace_flag_with_value(),
            text_bytes("--replace-program") == replace_flag(),
            parse_from(a, 1, seq![], seq![]) == parse_from(
                a,
                i as int,
                replacements_view(replace_programs@),
                positionals@.map_values(|s: String| string_bytes(s)),
            ),
        decreases args@.len() - i,
    {
        i = parse_arg_at(args, i, &mut replace_programs, &mut positionals)?;
    }
    if positionals.len() == 0 {
        return Err(ArgError::MissingSignature);
    }
    let signature = match parse_signature(positionals[0].as_str()) {
        Ok(s) => s,
        Err(reason) => return Err(ArgError::BadSignature { reason }),
    };
    let rpc_url = if positionals.len() > 1 {
        positionals[1].clone()
    } else {
        String::from_str(DEFAULT_RPC_URL)
    };
    Ok((signature, rpc_url, replace_programs))
}

} // verus!
