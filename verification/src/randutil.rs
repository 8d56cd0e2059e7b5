//! Randomness acquisition and the raw byte-to-scalar / byte-to-point maps.
//!
//! The operating system's generator is the one ambient capability: it is
//! reached through a single trusted wrapper, and nothing is promised of the
//! bytes it returns beyond their number.

use vstd::prelude::*;

use crate::bytes::le_val;
use crate::group::{
    ell, is_point_enc, is_scalar, point_from_uniform, pt_from_uniform, scalar_reduce_wide,
};
use crate::hash::to_array64;

verus! {

/// Relies on rand's OsRng (rand_core::OsRng): fills the buffer with bytes from
/// the operating system's generator. Nothing is promised of the bytes. Aborts
/// if the generator fails, surfacing RNG failure rather than falling back.
#[verifier::external_body]
pub(crate) fn os_random_bytes(n: usize) -> (r: Vec<u8>)
    ensures
        r@.len() == n,
{
    let mut buf = vec![0u8; n];
    <rand::rngs::OsRng as rand::TryRngCore>::try_fill_bytes(&mut rand::rngs::OsRng, &mut buf)
        .expect("operating system RNG failed");
    buf
}

/// A fresh 32-byte random string.
pub fn random_bytes32() -> (r: [u8; 32])
    ensures
        r@.len() == 32,
{
    let v = os_random_bytes(32);
    crate::hash::to_array32(v.as_slice())
}

/// A uniformly random scalar: 64 fresh bytes reduced modulo the group order.
pub fn random_scalar() -> (r: [u8; 32])
    ensures
        is_scalar(r@),
{
    let v = os_random_bytes(64);
    let wide = to_array64(v.as_slice());
    scalar_reduce_wide(&wide)
}

/// The input, truncated or right-padded with zero bytes to exactly 64 bytes.
pub open spec fn wide_pad(b: Seq<u8>) -> Seq<u8> {
    if b.len() >= 64 {
        b.subrange(0, 64)
    } else {
        b + Seq::new((64 - b.len()) as nat, |j: int| 0u8)
    }
}

fn pad_to_64(bytes: &[u8]) -> (r: [u8; 64])
    ensures
        r@ == wide_pad(bytes@),
{
    let mut v: Vec<u8> = Vec::new();
    let take = if bytes.len() < 64 {
        bytes.len()
    } else {
        64
    };
    let mut i: usize = 0;
    while i < take
        invariant
            take <= bytes@.len(),
            take <= 64,
            i <= take,
            v@ =~= bytes@.subrange(0, i as int),
        decreases take - i,
    {
        v.push(bytes[i]);
        proof {
            assert(v@ =~= bytes@.subrange(0, i + 1));
        }
        i += 1;
    }
    while v.len() < 64
        invariant
            v@.len() <= 64,
            v@.subrange(0, take as int) =~= bytes@.subrange(0, take as int),
            take <= v@.len(),
            forall|j: int| take <= j < v@.len() ==> v@[j] == 0u8,
        decreases 64 - v@.len(),
    {
        v.push(0u8);
    }
    proof {
        assert forall|j: int| 0 <= j < 64 implies v@[j] == wide_pad(bytes@)[j] by {
            if j < take {
                assert(v@.subrange(0, take as int)[j] == bytes@.subrange(0, take as int)[j]);
            }
        }
        assert(v@ =~= wide_pad(bytes@));
    }
    to_array64(v.as_slice())
}

/// The scalar value of up to 64 input bytes read little-endian and reduced
/// modulo the group order; longer inputs are truncated to their first 64
/// bytes.
pub fn hash_to_scalar(bytes: &[u8]) -> (r: [u8; 32])
    ensures
        is_scalar(r@),
        le_val(r@) == le_val(wide_pad(bytes@)) % ell(),
{
    let wide = pad_to_64(bytes);
    scalar_reduce_wide(&wide)
}

/// The group element derived from up to 64 input bytes via the uniform map;
/// longer inputs are truncated to their first 64 bytes.
pub fn hash_to_point(bytes: &[u8]) -> (r: [u8; 32])
    ensures
        is_point_enc(r@),
        r@ == pt_from_uniform(wide_pad(bytes@)),
{
    let wide = pad_to_64(bytes);
    point_from_uniform(&wide)
}

} // verus!
