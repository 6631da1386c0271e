use vstd::prelude::*;
use crate::fixture::TransactionFixture;
use crate::text::text_bytes;
use base64::Engine;
use solana_version::Prerelease as VersionPrerelease;

verus! {

#[verifier::external_type_specification]
#[verifier::external_body]
pub struct ExWincodeReadError(wincode::ReadError);

#[verifier::external_type_specification]
#[verifier::external_body]
pub struct ExBincodeErrorKind(bincode::ErrorKind);


/// Errors in decoding fixtures and their fields.
#[derive(Debug)]
pub enum PenroseTypesError {
    WincodeRead(wincode::ReadError),
    Bincode(bincode::Error),
}

/// A prerelease tag of a client version.
#[derive(Clone, Copy, Debug, PartialEq, Eq, Structural)]
pub enum Prerelease {
    Stable,
    ReleaseCandidate(u16),
    Beta(u16),
    Alpha(u16),
}

/// The version of the node that captured a fixture: its release numbers,
/// source commit, feature-set id, client id and prerelease tag.
#[derive(Clone, Copy, Debug, PartialEq, Eq, Structural)]
pub struct ClientVersion {
    pub major: u16,
    pub minor: u16,
    pub patch: u16,
    pub commit: u32,
    pub feature_set: u32,
    pub client: u16,
    pub prerelease: Prerelease,
}

/// The client version that bincode decodes from the serialized bytes, if
/// they decode.
pub uninterp spec fn decoded_client_version(bytes: Seq<u8>) -> Option<ClientVersion>;

/// Calls `bincode::deserialize::<solana_version::Version>`; the result is
/// named by `decoded_client_version`. The version is read through its
/// getters; the client id comes back as the `u16` it was decoded from
/// (`ClientId::from(u16)` and `u16::try_from(ClientId)` invert each other on
/// decoded ids), the prerelease tag variant by variant.
#[verifier::external_body]
fn decode_client_version(bytes: &[u8]) -> (r: Result<ClientVersion, bincode::Error>)
    ensures
        r is Ok <==> decoded_client_version(bytes@) is Some,
        r matches Ok(v) ==> decoded_client_version(bytes@) == Some(v),
{
    let v: solana_version::Version = bincode::deserialize(bytes)?;
    let prerelease = match v.prerelease() {
        VersionPrerelease::Stable => Prerelease::Stable,
        VersionPrerelease::ReleaseCandidate(n) => Prerelease::ReleaseCandidate(*n),
        VersionPrerelease::Beta(n) => Prerelease::Beta(*n),
        VersionPrerelease::Alpha(n) => Prerelease::Alpha(*n),
    };
    let client = u16::try_from(v.client().clone()).unwrap_or_default();
    let (major, minor, patch, commit) = (v.major(), v.minor(), v.patch(), v.commit());
    Ok(ClientVersion { major, minor, patch, commit, feature_set: v.feature_set(), client, prerelease })
}

impl TransactionFixture {
    /// The client version of the node that captured the fixture.
    pub fn client_version(&self) -> (r: Result<ClientVersion, PenroseTypesError>)
        ensures
            match decoded_client_version(self.client_version@) {
                Some(v) => r matches Ok(c) && c == v,
                None => r matches Err(PenroseTypesError::Bincode(_)),
            },
    {
        match decode_client_version(self.client_version.as_slice()) {
            Ok(v) => Ok(v),
            Err(e) => Err(PenroseTypesError::Bincode(e)),
        }
    }
}

/// What standard base64 decoding of the text gives: the bytes, or the
/// message of the decode error.
pub uninterp spec fn base64_decoded(text: Seq<u8>) -> Result<Seq<u8>, Seq<char>>;

/// Calls `base64::prelude::BASE64_STANDARD.decode`; the result, with the
/// error as its message, is named by `base64_decoded`.
#[verifier::external_body]
fn decode_base64(text: &str) -> (r: Result<Vec<u8>, String>)
    ensures
        match base64_decoded(text_bytes(text)) {
            Ok(d) => r matches Ok(b) && b@ == d,
            Err(m) => r matches Err(e) && e@ == m,
        },
{
    base64::prelude::BASE64_STANDARD.decode(text).map_err(|e| format!("{e}"))
}

/// Why a payload that the server returned could not be used.
#[derive(Debug)]
pub enum PayloadError {
    /// The payload is not standard base64.
    NotBase64 { message: String },
}

/// The fixture bytes that a base64 payload of the server carries.
pub fn decode_payload(encoded: &str) -> (r: Result<Vec<u8>, PayloadError>)
    ensures
        match base64_decoded(text_bytes(encoded)) {
            Ok(b) => r matches Ok(v) && v@ == b,
            Err(m) => r matches Err(PayloadError::NotBase64 { message }) && message@ == m,
        },
{
    match decode_base64(encoded) {
        Ok(b) => Ok(b),
        Err(message) => Err(PayloadError::NotBase64 { message }),
    }
}

} // verus!
