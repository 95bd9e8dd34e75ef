use vstd::prelude::*;
use vstd::string::StringSliceAdditionalSpecFns;

verus! {

/// FNV-1a 64-bit offset basis.
pub const FNV_OFFSET_BASIS: u64 = 0xcbf29ce484222325;

/// FNV-1a 64-bit prime.
pub const FNV_PRIME: u64 = 0x100000001b3;

/// One round of FNV-1a: fold `byte` into `hash`.
pub open spec fn fnv1a_step(hash: u64, byte: u8) -> u64 {
    (hash ^ (byte as u64)).wrapping_mul(FNV_PRIME)
}

/// The FNV-1a 64-bit hash of a byte sequence.
pub open spec fn spec_fnv1a(bytes: Seq<u8>) -> u64
    decreases bytes.len(),
{
    if bytes.len() == 0 {
        FNV_OFFSET_BASIS
    } else {
        fnv1a_step(spec_fnv1a(bytes.drop_last()), bytes.last())
    }
}

/// Hashes the UTF-8 bytes of `input` with 64-bit FNV-1a.
pub fn fnv1a_hash64(input: &str) -> (hash: u64)
    ensures
        hash == spec_fnv1a(input.spec_bytes()),
{
    let bytes = input.as_bytes();
    let mut hash: u64 = FNV_OFFSET_BASIS;
    let mut i: usize = 0;
    while i < bytes.len()
        invariant
            i <= bytes@.len(),
            bytes@ == input.spec_bytes(),
            hash == spec_fnv1a(bytes@.take(i as int)),
        decreases bytes@.len() - i,
    {
        assert(bytes@.take(i + 1).drop_last() =~= bytes@.take(i as int));
        hash = (hash ^ (bytes[i] as u64)).wrapping_mul(FNV_PRIME);
        i = i + 1;
    }
    assert(bytes@.take(i as int) =~= bytes@);
    hash
}

/// FNV-1a 64: the hash of no bytes is the offset basis 0xcbf29ce484222325,
/// and each further byte, zero-extended to 64 bits, is XORed into the hash,
/// which is then multiplied by the prime 0x100000001b3 modulo 2^64.
pub proof fn lemma_fnv1a_rounds(bytes: Seq<u8>, b: u8)
    ensures
        spec_fnv1a(Seq::<u8>::empty()) == 0xcbf29ce484222325u64,
        0 <= (b as u64) < 256,
        spec_fnv1a(bytes.push(b)) as nat == ((spec_fnv1a(bytes) ^ (b as u64)) as nat * 0x100000001b3nat)
            % 0x1_0000_0000_0000_0000nat,
{
    assert(bytes.push(b).drop_last() =~= bytes);
}

} // verus!
