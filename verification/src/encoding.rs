//! Byte strings as numbers: the big-endian reading that scalars, coordinates
//! and the participant id share.

use vstd::prelude::*;

verus! {

/// The number that `bytes` denotes when read as a big-endian integer.
pub open spec fn be_value(bytes: Seq<u8>) -> nat
    decreases bytes.len(),
{
    if bytes.len() == 0 {
        0
    } else {
        be_value(bytes.drop_last()) * 256 + bytes.last() as nat
    }
}

/// A byte string whose bytes are all zero but perhaps the last denotes the
/// number that its last byte holds.
pub proof fn lemma_be_value_of_small(bytes: Seq<u8>)
    requires
        bytes.len() > 0,
        forall|i: int| 0 <= i < bytes.len() - 1 ==> bytes[i] == 0,
    ensures
        be_value(bytes) == bytes.last(),
    decreases bytes.len(),
{
    let front = bytes.drop_last();
    if front.len() > 0 {
        assert forall|i: int| 0 <= i < front.len() - 1 implies front[i] == 0 by {
            assert(front[i] == bytes[i]);
        }
        lemma_be_value_of_small(front);
        assert(front.last() == bytes[bytes.len() - 2]);
    } else {
        assert(be_value(front) == 0);
    }
}

/// The four bytes of `v`, most significant first.
pub open spec fn u32_be_bytes(v: u32) -> Seq<u8> {
    seq![
        (v / 0x100_0000) as u8,
        ((v / 0x1_0000) % 0x100) as u8,
        ((v / 0x100) % 0x100) as u8,
        (v % 0x100) as u8,
    ]
}

/// Reading the four big-endian bytes of `v` gives `v` back.
pub proof fn lemma_u32_be_bytes_value(v: u32)
    ensures
        u32_be_bytes(v).len() == 4,
        be_value(u32_be_bytes(v)) == v,
{
    let b = u32_be_bytes(v);
    let b3 = b.drop_last();
    let b2 = b3.drop_last();
    let b1 = b2.drop_last();
    assert(b1.drop_last().len() == 0);
    assert(be_value(b1.drop_last()) == 0);
    assert(be_value(b1) == b[0]);
    assert(be_value(b2) == b[0] * 256 + b[1]);
    assert(be_value(b3) == (b[0] * 256 + b[1]) * 256 + b[2]);
    assert(be_value(b) == ((b[0] * 256 + b[1]) * 256 + b[2]) * 256 + b[3]);
}

/// Two numbers with the same four big-endian bytes are the same number.
pub proof fn lemma_u32_be_bytes_injective(v: u32, w: u32)
    requires
        u32_be_bytes(v) == u32_be_bytes(w),
    ensures
        v == w,
{
    lemma_u32_be_bytes_value(v);
    lemma_u32_be_bytes_value(w);
}

/// The four bytes of `v`, most significant first.
pub fn u32_to_be_bytes(v: u32) -> (r: [u8; 4])
    ensures
        r@ == u32_be_bytes(v),
{
    let b0: u8 = (v >> 24) as u8;
    let b1: u8 = ((v >> 16) & 0xff) as u8;
    let b2: u8 = ((v >> 8) & 0xff) as u8;
    let b3: u8 = (v & 0xff) as u8;
    assert(v >> 24 == v / 0x100_0000 && v >> 24 < 0x100) by (bit_vector);
    assert((v >> 16) & 0xff == (v / 0x1_0000) % 0x100) by (bit_vector);
    assert((v >> 8) & 0xff == (v / 0x100) % 0x100) by (bit_vector);
    assert(v & 0xff == v % 0x100) by (bit_vector);
    let r = [b0, b1, b2, b3];
    assert(r@ =~= u32_be_bytes(v));
    r
}

/// Whether two byte strings hold the same bytes.
pub fn bytes_eq(a: &[u8], b: &[u8]) -> (r: bool)
    ensures
        r == (a@ == b@),
{
    if a.len() != b.len() {
        return false;
    }
    let mut i: usize = 0;
    while i < a.len()
        invariant
            a@.len() == b@.len(),
            i <= a@.len(),
            forall|j: int| 0 <= j < i ==> a@[j] == b@[j],
        decreases a@.len() - i,
    {
        if a[i] != b[i] {
            return false;
        }
        i += 1;
    }
    assert(a@ =~= b@);
    true
}

} // verus!
