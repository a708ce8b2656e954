//! Content fingerprinting: 64-bit FNV-1a over byte content.

use vstd::prelude::*;

verus! {

/// FNV-1a 64-bit offset basis.
pub const FNV_OFFSET_BASIS: u64 = 0xCBF2_9CE4_8422_2325;

/// FNV-1a 64-bit prime.
pub const FNV_PRIME: u64 = 0x100_0000_01B3;

/// One FNV-1a step: fold the byte into the running hash.
pub open spec fn fnv1a_update(h: u64, b: u8) -> u64 {
    (h ^ (b as u64)).wrapping_mul(FNV_PRIME)
}

/// The FNV-1a 64-bit hash of a byte sequence: start from the offset
/// basis and fold the bytes in from left to right.
pub open spec fn fnv1a(data: Seq<u8>) -> u64
    decreases data.len(),
{
    if data.len() == 0 {
        FNV_OFFSET_BASIS
    } else {
        fnv1a_update(fnv1a(data.drop_last()), data.last())
    }
}

/// The hash is a function of the byte content alone: equal content,
/// equal fingerprint, independent of where the bytes came from.
pub proof fn lemma_hash_content_determined(x: Seq<u8>, y: Seq<u8>)
    requires
        x == y,
    ensures
        fnv1a(x) == fnv1a(y),
{
}

/// Compute the FNV-1a 64-bit fingerprint of `data`.
pub fn fnv1a_hash(data: &[u8]) -> (hash: u64)
    ensures
        hash == fnv1a(data@),
{
    let mut hash: u64 = FNV_OFFSET_BASIS;
    let mut i: usize = 0;
    while i < data.len()
        invariant
            i <= data@.len(),
            hash == fnv1a(data@.take(i as int)),
        decreases data@.len() - i,
    {
        let b = data[i];
        hash = (hash ^ (b as u64)).wrapping_mul(FNV_PRIME);
        proof {
            assert(data@.take(i + 1).drop_last() =~= data@.take(i as int));
        }
        i = i + 1;
    }
    proof {
        assert(data@.take(data@.len() as int) =~= data@);
    }
    hash
}

} // verus!
