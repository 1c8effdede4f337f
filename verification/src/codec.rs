//! Little-endian encoding of 64-bit integers and byte-string comparison,
//! used for the reserved records of the durable replay store.

use vstd::prelude::*;

verus! {

/// The eight little-endian bytes of `v`: least significant byte first.
pub open spec fn le64_of(v: u64) -> Seq<u8> {
    seq![
        (v & 0xff) as u8,
        ((v >> 8) & 0xff) as u8,
        ((v >> 16) & 0xff) as u8,
        ((v >> 24) & 0xff) as u8,
        ((v >> 32) & 0xff) as u8,
        ((v >> 40) & 0xff) as u8,
        ((v >> 48) & 0xff) as u8,
        ((v >> 56) & 0xff) as u8,
    ]
}

/// Encode `v` as its eight little-endian bytes.
pub fn le64_encode(v: u64) -> (r: Vec<u8>)
    ensures
        r@ == le64_of(v),
{
    let mut r: Vec<u8> = Vec::new();
    r.push((v & 0xff) as u8);
    r.push(((v >> 8) & 0xff) as u8);
    r.push(((v >> 16) & 0xff) as u8);
    r.push(((v >> 24) & 0xff) as u8);
    r.push(((v >> 32) & 0xff) as u8);
    r.push(((v >> 40) & 0xff) as u8);
    r.push(((v >> 48) & 0xff) as u8);
    r.push(((v >> 56) & 0xff) as u8);
    proof {
        assert(r@ =~= le64_of(v));
    }
    r
}

/// Distinct integers have distinct little-endian encodings.
pub proof fn lemma_le64_of_injective(a: u64, b: u64)
    requires
        le64_of(a) == le64_of(b),
    ensures
        a == b,
{
    assert(le64_of(a)[0] == le64_of(b)[0]);
    assert(le64_of(a)[1] == le64_of(b)[1]);
    assert(le64_of(a)[2] == le64_of(b)[2]);
    assert(le64_of(a)[3] == le64_of(b)[3]);
    assert(le64_of(a)[4] == le64_of(b)[4]);
    assert(le64_of(a)[5] == le64_of(b)[5]);
    assert(le64_of(a)[6] == le64_of(b)[6]);
    assert(le64_of(a)[7] == le64_of(b)[7]);
    assert((
        (a & 0xff) as u8 == (b & 0xff) as u8
        && ((a >> 8) & 0xff) as u8 == ((b >> 8) & 0xff) as u8
        && ((a >> 16) & 0xff) as u8 == ((b >> 16) & 0xff) as u8
        && ((a >> 24) & 0xff) as u8 == ((b >> 24) & 0xff) as u8
        && ((a >> 32) & 0xff) as u8 == ((b >> 32) & 0xff) as u8
        && ((a >> 40) & 0xff) as u8 == ((b >> 40) & 0xff) as u8
        && ((a >> 48) & 0xff) as u8 == ((b >> 48) & 0xff) as u8
        && ((a >> 56) & 0xff) as u8 == ((b >> 56) & 0xff) as u8
    ) ==> a == b) by (bit_vector);
}

/// Compare two byte vectors for equality of contents.
pub fn bytes_eq(a: &Vec<u8>, b: &Vec<u8>) -> (r: bool)
    ensures
        r == (a@ == b@),
{
    if a.len() != b.len() {
        assert(a@ != b@);
        return false;
    }
    let mut i: usize = 0;
    while i < a.len()
        invariant
            i <= a@.len(),
            a@.len() == b@.len(),
            forall|j: int| 0 <= j < i ==> a@[j] == b@[j],
        decreases a@.len() - i,
    {
        if a[i] != b[i] {
            assert(a@ != b@);
            return false;
        }
        i += 1;
    }
    proof {
        assert(a@ =~= b@);
    }
    true
}

} // verus!
