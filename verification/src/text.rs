use vstd::prelude::*;
use vstd::string::StringSliceAdditionalSpecFns;
use vstd::utf8::*;

verus! {

broadcast use vstd::utf8::encode_utf8_valid_utf8;

/// The UTF-8 bytes of a string.
pub open spec fn text_bytes(s: &str) -> Seq<u8> {
    s.spec_bytes()
}

/// In valid UTF-8, the byte after an ASCII byte is never a continuation byte.
proof fn lemma_after_ascii(b: Seq<u8>, i: int)
    requires
        valid_utf8(b),
        0 <= i,
        i + 1 < b.len(),
        b[i] <= 0x7f,
    ensures
        !is_continuation_byte(b[i + 1]),
    decreases b.len(),
{
    reveal_with_fuel(valid_utf8, 2);
    let w = length_of_first_scalar(b);
    let rest = pop_first_scalar(b);
    assert(rest.len() == b.len() - w);
    if i < w {
        if i == 0 {
            assert(w == 1);
            assert(rest[0] == b[1]);
            assert(rest.len() > 0);
            assert(valid_first_scalar(rest));
        } else {
            assert(is_continuation_byte(b[i]));
        }
    } else {
        assert(rest[i - w] == b[i]);
        assert(rest[i - w + 1] == b[i + 1]);
        lemma_after_ascii(rest, i - w);
    }
}

/// An index at an ASCII byte, or just after one, is a character boundary.
proof fn lemma_ascii_boundaries(b: Seq<u8>, i: int)
    requires
        valid_utf8(b),
        0 <= i < b.len(),
        b[i] <= 0x7f,
    ensures
        is_char_boundary(b, i),
        is_char_boundary(b, i + 1),
{
    is_char_boundary_iff_not_is_continuation_byte(b, i);
    is_char_boundary_start_end_of_seq(b);
    if i + 1 < b.len() {
        lemma_after_ascii(b, i);
        is_char_boundary_iff_not_is_continuation_byte(b, i + 1);
    }
}

/// The text before and the text after the ASCII byte at index `i`.
pub fn split_around_ascii(s: &str, i: usize) -> (r: (&str, &str))
    requires
        i < text_bytes(s).len(),
        text_bytes(s)[i as int] <= 0x7f,
    ensures
        text_bytes(r.0) == text_bytes(s).subrange(0, i as int),
        text_bytes(r.1) == text_bytes(s).subrange(i + 1, text_bytes(s).len() as int),
{
    proof {
        lemma_ascii_boundaries(s.spec_bytes(), i as int);
    }
    let (before, rest) = s.split_at(i);
    proof {
        let b = s.spec_bytes();
        assert(rest.spec_bytes() =~= b.subrange(i as int, b.len() as int));
        valid_utf8_split(b, i as int);
        assert(rest.spec_bytes()[0] == b[i as int]);
        lemma_ascii_boundaries(rest.spec_bytes(), 0);
    }
    let (_, after) = rest.split_at(1);
    proof {
        let b = s.spec_bytes();
        assert(after.spec_bytes() =~= b.subrange(i + 1, b.len() as int));
    }
    (before, after)
}

/// The index of the first byte of `b` equal to `c`, if any.
pub open spec fn first_index_of(b: Seq<u8>, c: u8) -> Option<int> {
    if exists|i: int| 0 <= i < b.len() && b[i] == c {
        Some(choose|i: int| 0 <= i < b.len() && b[i] == c && forall|j: int| 0 <= j < i ==> b[j] != c)
    } else {
        None
    }
}

/// Finds the first occurrence of the byte `c` in `b`.
pub fn find_byte(b: &[u8], c: u8) -> (r: Option<usize>)
    ensures
        r matches Some(i) ==> first_index_of(b@, c) == Some(i as int) && i < b@.len() && b@[i as int] == c,
        r is None ==> first_index_of(b@, c) is None,
{
    let mut i: usize = 0;
    while i < b.len()
        invariant
            i <= b@.len(),
            forall|j: int| 0 <= j < i ==> b@[j] != c,
        decreases b@.len() - i,
    {
        if b[i] == c {
            proof {
                let k = choose|k: int| 0 <= k < b@.len() && b@[k] == c && forall|j: int| 0 <= j < k ==> b@[j] != c;
                if k < i as int {
                } else if k > i as int {
                    assert(b@[i as int] == c);
                }
            }
            return Some(i);
        }
        i = i + 1;
    }
    None
}

/// Whether `b` begins with `prefix`.
pub fn starts_with(b: &[u8], prefix: &[u8]) -> (r: bool)
    ensures
        r == (prefix@.len() <= b@.len() && b@.subrange(0, prefix@.len() as int) == prefix@),
{
    if prefix.len() > b.len() {
        return false;
    }
    let mut i: usize = 0;
    while i < prefix.len()
        invariant
            i <= prefix@.len(),
            prefix@.len() <= b@.len(),
            forall|j: int| 0 <= j < i ==> b@[j] == prefix@[j],
        decreases prefix@.len() - i,
    {
        if b[i] != prefix[i] {
            assert(b@.subrange(0, prefix@.len() as int)[i as int] != prefix@[i as int]);
            return false;
        }
        i = i + 1;
    }
    assert(b@.subrange(0, prefix@.len() as int) =~= prefix@);
    true
}

} // verus!
