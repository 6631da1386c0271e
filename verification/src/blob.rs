use vstd::prelude::*;

verus! {

/// Length of the content hash that stands in for a spilled blob.
pub const BLOB_HASH_LEN: usize = 32;

/// A blob field of a fixture: either the bytes themselves or the hash of
/// bytes that were spilled out of the fixture.
#[derive(Debug)]
pub enum FixtureBlob {
    Inline(Vec<u8>),
    Hash([u8; BLOB_HASH_LEN]),
}

impl FixtureBlob {
    /// The inline bytes, or `None` for a hash reference.
    pub fn inline_bytes(&self) -> (r: Option<&[u8]>)
        ensures
            r is Some <==> self is Inline,
            r matches Some(b) ==> b@ == self->Inline_0@,
    {
        match self {
            FixtureBlob::Inline(d) => Some(d.as_slice()),
            FixtureBlob::Hash(_) => None,
        }
    }

    /// The blob hash, or `None` for inline bytes.
    pub fn hash(&self) -> (r: Option<&[u8; BLOB_HASH_LEN]>)
        ensures
            r is Some <==> self is Hash,
            r matches Some(h) ==> h@ == self->Hash_0@,
    {
        match self {
            FixtureBlob::Inline(_) => None,
            FixtureBlob::Hash(h) => Some(h),
        }
    }

    /// The inline bytes of a blob that is known to be inline.
    pub fn expect_inline(&self) -> (r: &Vec<u8>)
        requires
            self is Inline,
        ensures
            r@ == self->Inline_0@,
    {
        match self {
            FixtureBlob::Inline(d) => d,
            FixtureBlob::Hash(_) => {
                proof {
                    assert(false);
                }
                unreached()
            },
        }
    }
}

} // verus!
