//! The genetic combiner: a pure function deriving an offspring genome from
//! two parent genomes and a random mask, byte by byte.
//!
//! Each result byte is `(parent1[i] & mask[i]) | (parent2[i] & mask[i])`: the
//! same mask byte is applied to both parents, so the combiner is not a true
//! bit-split between the parents; the formula is kept exactly as the registry
//! defines it.

use vstd::prelude::*;

verus! {

/// One byte of the offspring genome.
pub open spec fn combine_byte(b1: u8, b2: u8, m: u8) -> u8 {
    (b1 & m) | (b2 & m)
}

/// The offspring genome derived from two parent genomes and a mask.
pub open spec fn combine_spec(s1: Seq<u8>, s2: Seq<u8>, m: Seq<u8>) -> Seq<u8> {
    Seq::new(s1.len(), |i: int| combine_byte(s1[i], s2[i], m[i]))
}

/// Derives the offspring genome from two 16-byte parent genomes and a 16-byte
/// mask. The result is a function of the arguments alone: identical inputs
/// always produce the identical genome.
pub fn combine(p1: &Vec<u8>, p2: &Vec<u8>, mask: &Vec<u8>) -> (r: Vec<u8>)
    requires
        p1@.len() == 16,
        p2@.len() == mask@.len() == 16,
    ensures
        r@ == combine_spec(p1@, p2@, mask@),
{
    let mut r: Vec<u8> = Vec::new();
    let mut i: usize = 0;
    while i < 16
        invariant
            p1@.len() == 16,
            p2@.len() == mask@.len() == 16,
            0 <= i <= 16,
            r@.len() == i,
            forall|j: int| 0 <= j < i ==> r@[j] == combine_byte(p1@[j], p2@[j], mask@[j]),
        decreases 16 - i,
    {
        r.push((p1[i] & mask[i]) | (p2[i] & mask[i]));
        i = i + 1;
    }
    proof {
        assert(r@ =~= combine_spec(p1@, p2@, mask@));
    }
    r
}

/// A mask byte of all ones selects every bit of both parents: the result byte
/// is the bitwise or of the parents' bytes.
pub proof fn lemma_combine_full_mask(s1: Seq<u8>, s2: Seq<u8>, m: Seq<u8>)
    requires
        s1.len() == s2.len() == m.len(),
        forall|i: int| 0 <= i < m.len() ==> m[i] == 0xffu8,
    ensures
        forall|i: int|
            0 <= i < s1.len() ==> #[trigger] combine_spec(s1, s2, m)[i] == (s1[i] | s2[i]),
{
    assert forall|i: int|
        0 <= i < s1.len() implies #[trigger] combine_spec(s1, s2, m)[i] == (s1[i] | s2[i]) by {
        let a = s1[i];
        let b = s2[i];
        assert((a & 0xffu8) | (b & 0xffu8) == a | b) by (bit_vector);
    }
}

/// A mask byte of all zeros selects nothing: the result byte is zero.
pub proof fn lemma_combine_zero_mask(s1: Seq<u8>, s2: Seq<u8>, m: Seq<u8>)
    requires
        s1.len() == s2.len() == m.len(),
        forall|i: int| 0 <= i < m.len() ==> m[i] == 0u8,
    ensures
        forall|i: int| 0 <= i < s1.len() ==> #[trigger] combine_spec(s1, s2, m)[i] == 0u8,
{
    assert forall|i: int|
        0 <= i < s1.len() implies #[trigger] combine_spec(s1, s2, m)[i] == 0u8 by {
        let a = s1[i];
        let b = s2[i];
        assert((a & 0u8) | (b & 0u8) == 0u8) by (bit_vector);
    }
}

} // verus!
