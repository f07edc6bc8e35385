//! The XOR checksum that guards every sentence against garbled input.

use vstd::prelude::*;

verus! {

/// XOR fold of a byte span, the sentence checksum.
pub open spec fn spec_checksum(s: Seq<u8>) -> u8
    decreases s.len()
{
    if s.len() == 0 {
        0
    } else {
        spec_checksum(s.drop_last()) ^ s.last()
    }
}

/// XOR-fold every byte of the span.
#[verifier::loop_isolation(false)]
pub fn checksum(bytes: &[u8]) -> (r: u8)
    ensures
        r == spec_checksum(bytes@),
{
    let mut c: u8 = 0;
    let mut i: usize = 0;
    while i < bytes.len()
        invariant
            i <= bytes@.len(),
            c == spec_checksum(bytes@.take(i as int)),
        decreases bytes@.len() - i,
    {
        proof {
            assert(bytes@.take(i + 1).drop_last() =~= bytes@.take(i as int));
            assert(bytes@.take(i + 1).last() == bytes@[i as int]);
        }
        c = c ^ bytes[i];
        i = i + 1;
    }
    proof {
        assert(bytes@.take(bytes@.len() as int) =~= bytes@);
    }
    c
}

/// Corrupting a single byte of a span always changes its XOR fold: the
/// checksum detects every one-byte error.
pub proof fn lemma_checksum_flip(s1: Seq<u8>, s2: Seq<u8>, i: int)
    requires
        s1.len() == s2.len(),
        0 <= i < s1.len(),
        forall|k: int| 0 <= k < s1.len() && k != i ==> s1[k] == #[trigger] s2[k],
        s1[i] != s2[i],
    ensures
        spec_checksum(s1) != spec_checksum(s2),
    decreases s1.len()
{
    let n = s1.len() as int;
    if i == n - 1 {
        assert(s1.drop_last() =~= s2.drop_last());
        let x = spec_checksum(s1.drop_last());
        let a = s1.last();
        let b = s2.last();
        assert(a != b ==> x ^ a != x ^ b) by (bit_vector);
    } else {
        lemma_checksum_flip(s1.drop_last(), s2.drop_last(), i);
        let x = spec_checksum(s1.drop_last());
        let y = spec_checksum(s2.drop_last());
        let a = s1.last();
        assert(s1.last() == s2.last());
        assert(x != y ==> x ^ a != y ^ a) by (bit_vector);
    }
}

} // verus!
