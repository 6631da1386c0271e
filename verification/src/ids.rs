use vstd::prelude::*;
use crate::address::Address;

verus! {

// The well-known program and sysvar addresses. Each `*_key` spec function
// gives the 32 bytes that the base58 name decodes to; each exec function
// returns the address as the `solana_sdk_ids` crate defines it.

/// The address of the vote program, `Vote111111111111111111111111111111111111111`.
pub open spec fn vote_key() -> Seq<u8> {
    seq![7u8, 97, 72, 29, 53, 116, 116, 187, 124, 77, 118, 36, 235, 211, 189, 179, 216, 53, 94, 115, 209, 16, 67, 252, 13, 163, 83, 128, 0, 0, 0, 0]
}

/// Calls `solana_sdk_ids::vote::id()`, which returns the constant
/// `Vote111111111111111111111111111111111111111`; the contract states its bytes.
#[verifier::external_body]
pub(crate) fn vote_id() -> (r: Address)
    ensures
        r@ == vote_key(),
{
    Address(solana_sdk_ids::vote::id().to_bytes())
}

/// The address of the owner of sysvar accounts, `Sysvar1111111111111111111111111111111111111`.
pub open spec fn sysvar_owner_key() -> Seq<u8> {
    seq![6u8, 167, 213, 23, 24, 117, 247, 41, 199, 61, 147, 64, 143, 33, 97, 32, 6, 126, 216, 140, 118, 224, 140, 40, 127, 193, 148, 96, 0, 0, 0, 0]
}

/// Calls `solana_sdk_ids::sysvar::id()`, which returns the constant
/// `Sysvar1111111111111111111111111111111111111`; the contract states its bytes.
#[verifier::external_body]
pub(crate) fn sysvar_owner_id() -> (r: Address)
    ensures
        r@ == sysvar_owner_key(),
{
    Address(solana_sdk_ids::sysvar::id().to_bytes())
}

/// The address of the instructions sysvar, `Sysvar1nstructions1111111111111111111111111`.
pub open spec fn instructions_sysvar_key() -> Seq<u8> {
    seq![6u8, 167, 213, 23, 24, 123, 209, 102, 53, 218, 212, 4, 85, 253, 194, 192, 193, 36, 198, 143, 33, 86, 117, 165, 219, 186, 203, 95, 8, 0, 0, 0]
}

/// Calls `solana_sdk_ids::sysvar::instructions::id()`, which returns the constant
/// `Sysvar1nstructions1111111111111111111111111`; the contract states its bytes.
#[verifier::external_body]
pub(crate) fn instructions_sysvar_id() -> (r: Address)
    ensures
        r@ == instructions_sysvar_key(),
{
    Address(solana_sdk_ids::sysvar::instructions::id().to_bytes())
}

/// The address of the rent sysvar, `SysvarRent111111111111111111111111111111111`.
pub open spec fn rent_sysvar_key() -> Seq<u8> {
    seq![6u8, 167, 213, 23, 25, 44, 92, 81, 33, 140, 201, 76, 61, 74, 241, 127, 88, 218, 238, 8, 155, 161, 253, 68, 227, 219, 217, 138, 0, 0, 0, 0]
}

/// Calls `solana_sdk_ids::sysvar::rent::id()`, which returns the constant
/// `SysvarRent111111111111111111111111111111111`; the contract states its bytes.
#[verifier::external_body]
pub(crate) fn rent_sysvar_id() -> (r: Address)
    ensures
        r@ == rent_sysvar_key(),
{
    Address(solana_sdk_ids::sysvar::rent::id().to_bytes())
}

/// The address of the BPF loader, `BPFLoader2111111111111111111111111111111111`.
pub open spec fn bpf_loader_key() -> Seq<u8> {
    seq![2u8, 168, 246, 145, 78, 136, 161, 110, 57, 90, 225, 40, 148, 143, 250, 105, 86, 147, 55, 104, 24, 221, 71, 67, 82, 33, 243, 198, 0, 0, 0, 0]
}

/// Calls `solana_sdk_ids::bpf_loader::id()`, which returns the constant
/// `BPFLoader2111111111111111111111111111111111`; the contract states its bytes.
#[verifier::external_body]
pub(crate) fn bpf_loader_id() -> (r: Address)
    ensures
        r@ == bpf_loader_key(),
{
    Address(solana_sdk_ids::bpf_loader::id().to_bytes())
}

/// The address of the deprecated BPF loader, `BPFLoader1111111111111111111111111111111111`.
pub open spec fn bpf_loader_deprecated_key() -> Seq<u8> {
    seq![2u8, 168, 246, 145, 78, 136, 161, 107, 189, 35, 149, 133, 95, 100, 4, 217, 180, 244, 86, 183, 130, 27, 176, 20, 87, 73, 66, 140, 0, 0, 0, 0]
}

/// Calls `solana_sdk_ids::bpf_loader_deprecated::id()`, which returns the constant
/// `BPFLoader1111111111111111111111111111111111`; the contract states its bytes.
#[verifier::external_body]
pub(crate) fn bpf_loader_deprecated_id() -> (r: Address)
    ensures
        r@ == bpf_loader_deprecated_key(),
{
    Address(solana_sdk_ids::bpf_loader_deprecated::id().to_bytes())
}

/// The address of the upgradeable BPF loader, `BPFLoaderUpgradeab1e11111111111111111111111`.
pub open spec fn bpf_loader_upgradeable_key() -> Seq<u8> {
    seq![2u8, 168, 246, 145, 78, 136, 161, 176, 226, 16, 21, 62, 247, 99, 174, 43, 0, 194, 185, 61, 22, 193, 36, 210, 192, 83, 122, 16, 4, 128, 0, 0]
}

/// Calls `solana_sdk_ids::bpf_loader_upgradeable::id()`, which returns the constant
/// `BPFLoaderUpgradeab1e11111111111111111111111`; the contract states its bytes.
#[verifier::external_body]
pub(crate) fn bpf_loader_upgradeable_id() -> (r: Address)
    ensures
        r@ == bpf_loader_upgradeable_key(),
{
    Address(solana_sdk_ids::bpf_loader_upgradeable::id().to_bytes())
}

/// The address of loader v4, `LoaderV411111111111111111111111111111111111`.
pub open spec fn loader_v4_key() -> Seq<u8> {
    seq![5u8, 18, 180, 17, 81, 81, 227, 122, 173, 10, 139, 197, 211, 136, 46, 123, 127, 218, 76, 243, 210, 192, 40, 200, 207, 131, 54, 24, 0, 0, 0, 0]
}

/// Calls `solana_sdk_ids::loader_v4::id()`, which returns the constant
/// `LoaderV411111111111111111111111111111111111`; the contract states its bytes.
#[verifier::external_body]
pub(crate) fn loader_v4_id() -> (r: Address)
    ensures
        r@ == loader_v4_key(),
{
    Address(solana_sdk_ids::loader_v4::id().to_bytes())
}

/// The address of the native loader, `NativeLoader1111111111111111111111111111111`.
pub open spec fn native_loader_key() -> Seq<u8> {
    seq![5u8, 135, 132, 191, 20, 139, 164, 40, 47, 176, 18, 87, 72, 136, 169, 241, 83, 160, 125, 173, 247, 101, 192, 69, 92, 154, 151, 3, 128, 0, 0, 0]
}

/// Calls `solana_sdk_ids::native_loader::id()`, which returns the constant
/// `NativeLoader1111111111111111111111111111111`; the contract states its bytes.
#[verifier::external_body]
pub(crate) fn native_loader_id() -> (r: Address)
    ensures
        r@ == native_loader_key(),
{
    Address(solana_sdk_ids::native_loader::id().to_bytes())
}

/// The address of the system program, `11111111111111111111111111111111`.
pub open spec fn system_program_key() -> Seq<u8> {
    seq![0u8, 0, 0, 0, 0, 0, 0, 0, 0, 0, 0, 0, 0, 0, 0, 0, 0, 0, 0, 0, 0, 0, 0, 0, 0, 0, 0, 0, 0, 0, 0, 0]
}

/// Calls `solana_sdk_ids::system_program::id()`, which returns the constant
/// `11111111111111111111111111111111`; the contract states its bytes.
#[verifier::external_body]
pub(crate) fn system_program_id() -> (r: Address)
    ensures
        r@ == system_program_key(),
{
    Address(solana_sdk_ids::system_program::id().to_bytes())
}

/// The address of the compute budget program, `ComputeBudget111111111111111111111111111111`.
pub open spec fn compute_budget_key() -> Seq<u8> {
    seq![3u8, 6, 70, 111, 229, 33, 23, 50, 255, 236, 173, 186, 114, 195, 155, 231, 188, 140, 229, 187, 197, 247, 18, 107, 44, 67, 155, 58, 64, 0, 0, 0]
}

/// Calls `solana_sdk_ids::compute_budget::id()`, which returns the constant
/// `ComputeBudget111111111111111111111111111111`; the contract states its bytes.
#[verifier::external_body]
pub(crate) fn compute_budget_id() -> (r: Address)
    ensures
        r@ == compute_budget_key(),
{
    Address(solana_sdk_ids::compute_budget::id().to_bytes())
}

/// The address of the secp256k1 signature-verification program, `KeccakSecp256k11111111111111111111111111111`.
pub open spec fn secp256k1_program_key() -> Seq<u8> {
    seq![4u8, 198, 252, 32, 240, 80, 204, 240, 85, 132, 215, 33, 28, 159, 140, 245, 158, 193, 71, 133, 187, 22, 106, 30, 40, 48, 232, 18, 32, 0, 0, 0]
}

/// Calls `solana_sdk_ids::secp256k1_program::id()`, which returns the constant
/// `KeccakSecp256k11111111111111111111111111111`; the contract states its bytes.
#[verifier::external_body]
pub(crate) fn secp256k1_program_id() -> (r: Address)
    ensures
        r@ == secp256k1_program_key(),
{
    Address(solana_sdk_ids::secp256k1_program::id().to_bytes())
}

/// The address of the ed25519 signature-verification program, `Ed25519SigVerify111111111111111111111111111`.
pub open spec fn ed25519_program_key() -> Seq<u8> {
    seq![3u8, 125, 70, 214, 124, 147, 251, 190, 18, 249, 66, 143, 131, 141, 64, 255, 5, 112, 116, 73, 39, 244, 138, 100, 252, 202, 112, 68, 128, 0, 0, 0]
}

/// Calls `solana_sdk_ids::ed25519_program::id()`, which returns the constant
/// `Ed25519SigVerify111111111111111111111111111`; the contract states its bytes.
#[verifier::external_body]
pub(crate) fn ed25519_program_id() -> (r: Address)
    ensures
        r@ == ed25519_program_key(),
{
    Address(solana_sdk_ids::ed25519_program::id().to_bytes())
}

/// The address of the secp256r1 signature-verification program, `Secp256r1SigVerify1111111111111111111111111`.
pub open spec fn secp256r1_program_key() -> Seq<u8> {
    seq![6u8, 146, 13, 236, 47, 234, 113, 181, 183, 35, 129, 77, 116, 45, 169, 3, 28, 131, 231, 95, 219, 121, 93, 86, 142, 117, 71, 128, 32, 0, 0, 0]
}

/// Calls `solana_sdk_ids::secp256r1_program::id()`, which returns the constant
/// `Secp256r1SigVerify1111111111111111111111111`; the contract states its bytes.
#[verifier::external_body]
pub(crate) fn secp256r1_program_id() -> (r: Address)
    ensures
        r@ == secp256r1_program_key(),
{
    Address(solana_sdk_ids::secp256r1_program::id().to_bytes())
}

} // verus!
