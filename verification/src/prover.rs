use vstd::prelude::*;
use crate::bytes::append_bytes;

verus! {

/// Relies on `ark_bn254::Fr::rand` seeded by `ark_std::test_rng`, with
/// `ark_ff::PrimeField::into_bigint` and `ark_ff::BigInteger::to_bytes_be`
/// converting the sampled element: a BN254 scalar field element serializes
/// to exactly 32 big-endian bytes, its backing integer being four 64-bit
/// limbs. Nothing else is assumed of the sampled value.
#[verifier::external_body]
fn sample_field_bytes() -> (r: Vec<u8>)
    ensures
        r@.len() == 32,
{
    let mut rng = ark_std::test_rng();
    let fr: ark_bn254::Fr = ark_ff::UniformRand::rand(&mut rng);
    ark_ff::BigInteger::to_bytes_be(&ark_ff::PrimeField::into_bigint(fr))
}

/// Builds a demonstration state commitment: a sampled field element's 32
/// big-endian bytes followed by the data, with the 32-byte prefix doubling
/// as the root.
pub fn compress_state(data: &Vec<u8>) -> (r: (Vec<u8>, [u8; 32]))
    ensures
        r.0@.len() == 32 + data@.len(),
        r.0@.subrange(32, r.0@.len() as int) == data@,
        r.1@ == r.0@.subrange(0, 32),
{
    let mut bytes = sample_field_bytes();
    append_bytes(&mut bytes, data);
    let mut root = [0u8; 32];
    let mut i: usize = 0;
    while i < 32
        invariant
            0 <= i <= 32,
            bytes@.len() == 32 + data@.len(),
            bytes@.subrange(32, bytes@.len() as int) == data@,
            forall|j: int| 0 <= j < i ==> root@[j] == bytes@[j],
        decreases 32 - i,
    {
        root[i] = bytes[i];
        i = i + 1;
    }
    proof {
        assert(root@ =~= bytes@.subrange(0, 32));
    }
    (bytes, root)
}

} // verus!
