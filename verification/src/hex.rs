use vstd::prelude::*;

verus! {

/// How many leading bytes of account data a mismatch report shows in hex.
pub const HEX_PREVIEW_BYTES: usize = 96;

/// The lowercase hex digit of a nibble.
pub open spec fn hex_digit(n: u8) -> u8 {
    if n < 10 { (48 + n) as u8 } else { (87 + n) as u8 }
}

/// A byte as two lowercase hex digits.
pub open spec fn hex_pair(b: u8) -> Seq<u8> {
    seq![hex_digit(b / 16), hex_digit(b % 16)]
}

/// The bytes of `d` as two-digit lowercase hex, separated by single spaces.
pub open spec fn hex_joined(d: Seq<u8>) -> Seq<u8>
    decreases d.len(),
{
    if d.len() == 0 {
        seq![]
    } else if d.len() == 1 {
        hex_pair(d[0])
    } else {
        hex_joined(d.drop_last()) + seq![32u8] + hex_pair(d.last())
    }
}

/// The part of `d` that a preview shows.
pub open spec fn previewed(d: Seq<u8>) -> Seq<u8> {
    if d.len() <= HEX_PREVIEW_BYTES { d } else { d.subrange(0, HEX_PREVIEW_BYTES as int) }
}

fn push_hex_pair(out: &mut Vec<u8>, b: u8)
    ensures
        final(out)@ == old(out)@ + hex_pair(b),
{
    let hi = b / 16;
    let lo = b % 16;
    out.push(if hi < 10 { 48 + hi } else { 87 + hi });
    out.push(if lo < 10 { 48 + lo } else { 87 + lo });
}

/// The hex rendering (lowercase, space-separated) of at most the first
/// `HEX_PREVIEW_BYTES` bytes of `data`, as ASCII bytes.
pub fn hex_preview(data: &[u8]) -> (r: Vec<u8>)
    ensures
        r@ == hex_joined(previewed(data@)),
        r@.len() == if data@.len() == 0 { 0 } else if data@.len() <= HEX_PREVIEW_BYTES { 3 * data@.len() - 1 } else {
            3 * HEX_PREVIEW_BYTES - 1
        },
        forall|i: int| 0 <= i < data@.len() && i < HEX_PREVIEW_BYTES ==> {
            let hi = (#[trigger] data@[i]) / 16;
            let lo = data@[i] % 16;
            &&& r@[3 * i] == if hi < 10 { 48 + hi } else { 87 + hi }
            &&& r@[3 * i + 1] == if lo < 10 { 48 + lo } else { 87 + lo }
        },
{
    proof {
        lemma_hex_joined_index(previewed(data@));
        lemma_hex_joined_len(previewed(data@));
        assert forall|i: int| 0 <= i < data@.len() && i < HEX_PREVIEW_BYTES implies previewed(data@)[i] == data@[i] by {}
    }
    let n = if data.len() <= HEX_PREVIEW_BYTES { data.len() } else { HEX_PREVIEW_BYTES };
    let mut out: Vec<u8> = Vec::new();
    let mut i: usize = 0;
    while i < n
        invariant
            n == previewed(data@).len(),
            i <= n,
            forall|k: int| 0 <= k < n ==> previewed(data@)[k] == data@[k],
            out@ == hex_joined(previewed(data@).subrange(0, i as int)),
        decreases n - i,
    {
        let ghost before = previewed(data@).subrange(0, i as int);
        let ghost after = previewed(data@).subrange(0, i + 1);
        assert(after.drop_last() =~= before);
        if i > 0 {
            out.push(32u8);
        }
        push_hex_pair(&mut out, data[i]);
        proof {
            if i == 0 {
                assert(out@ =~= hex_pair(after[0]));
            } else {
                assert(out@ =~= hex_joined(before) + seq![32u8] + hex_pair(after.last()));
            }
        }
        i = i + 1;
    }
    assert(previewed(data@).subrange(0, n as int) =~= previewed(data@));
    out
}

/// A preview of `n` bytes takes three characters per byte, less the
/// separator that the last byte lacks.
pub proof fn lemma_hex_joined_len(d: Seq<u8>)
    ensures
        d.len() > 0 ==> hex_joined(d).len() == 3 * d.len() - 1,
        d.len() == 0 ==> hex_joined(d).len() == 0,
    decreases d.len(),
{
    if d.len() > 1 {
        lemma_hex_joined_len(d.drop_last());
    }
}

/// Every character of a preview is a lowercase hex digit or a space.
pub proof fn lemma_hex_joined_charset(d: Seq<u8>)
    ensures
        forall|i: int| 0 <= i < hex_joined(d).len() ==> {
            let c = #[trigger] hex_joined(d)[i];
            (48 <= c <= 57) || (97 <= c <= 102) || c == 32
        },
    decreases d.len(),
{
    if d.len() > 1 {
        lemma_hex_joined_charset(d.drop_last());
        let a = hex_joined(d.drop_last());
        let full = a + seq![32u8] + hex_pair(d.last());
        assert forall|i: int| 0 <= i < full.len() implies {
            let c = #[trigger] full[i];
            (48 <= c <= 57) || (97 <= c <= 102) || c == 32
        } by {
            if i < a.len() {
                assert(full[i] == a[i]);
            }
        }
    }
}

/// Byte `i` of the data shows as characters `3i` and `3i + 1` of the
/// preview, its high nibble then its low nibble as lowercase hex (`0`-`9`,
/// `a`-`f`), and a space follows it unless it is the last byte.
pub proof fn lemma_hex_joined_index(d: Seq<u8>)
    ensures
        forall|i: int| 0 <= i < d.len() ==> {
            let hi = (#[trigger] d[i]) / 16;
            let lo = d[i] % 16;
            &&& hex_joined(d)[3 * i] == if hi < 10 { 48 + hi } else { 87 + hi }
            &&& hex_joined(d)[3 * i + 1] == if lo < 10 { 48 + lo } else { 87 + lo }
            &&& i + 1 < d.len() ==> hex_joined(d)[3 * i + 2] == 32
        },
    decreases d.len(),
{
    if d.len() > 1 {
        let init = d.drop_last();
        lemma_hex_joined_index(init);
        lemma_hex_joined_len(init);
        let a = hex_joined(init);
        let full = a + seq![32u8] + hex_pair(d.last());
        assert(hex_joined(d) == full);
        assert forall|i: int| 0 <= i < d.len() implies {
            let hi = (#[trigger] d[i]) / 16;
            let lo = d[i] % 16;
            &&& hex_joined(d)[3 * i] == if hi < 10 { 48 + hi } else { 87 + hi }
            &&& hex_joined(d)[3 * i + 1] == if lo < 10 { 48 + lo } else { 87 + lo }
            &&& i + 1 < d.len() ==> hex_joined(d)[3 * i + 2] == 32
        } by {
            if i < d.len() - 1 {
                assert(init[i] == d[i]);
                assert(full[3 * i] == a[3 * i]);
                assert(full[3 * i + 1] == a[3 * i + 1]);
                if i + 1 < d.len() - 1 {
                    assert(full[3 * i + 2] == a[3 * i + 2]);
                }
            }
        }
    }
}

} // verus!
