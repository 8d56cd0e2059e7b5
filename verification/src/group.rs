//! Scalar and point arithmetic over the Ristretto prime-order group.
//!
//! A scalar is carried as its canonical 32-byte little-endian encoding and
//! specified by its integer value modulo the group order `ell()`; a group
//! element is carried as its canonical 32-byte compressed encoding. Ristretto
//! decoding accepts exactly the canonical encodings, so two group elements are
//! equal exactly when their encodings are equal as byte strings, and the
//! contracts below speak of encodings throughout.

use vstd::prelude::*;

use crate::bytes::le_val;

verus! {

/// Order of the Ristretto group: 2^252 + 27742317777372353535851937790883648493,
/// a prime.
pub open spec fn ell() -> nat {
    7237005577332262213973186563042994240857116359379907606001950938285454250989nat
}

/// A canonical scalar encoding: 32 little-endian bytes of a value below the
/// group order.
pub open spec fn is_scalar(b: Seq<u8>) -> bool {
    b.len() == 32 && le_val(b) < ell()
}

/// Whether a 32-byte string is the canonical encoding of a group element;
/// names the success of `CompressedRistretto::decompress`.
pub uninterp spec fn is_point_enc(b: Seq<u8>) -> bool;

/// Addition in the group, on canonical encodings; names
/// `RistrettoPoint::add` composed with canonical decoding and encoding.
pub uninterp spec fn pt_add(a: Seq<u8>, b: Seq<u8>) -> Seq<u8>;

/// Subtraction in the group, on canonical encodings; names
/// `RistrettoPoint::sub` composed with canonical decoding and encoding.
pub uninterp spec fn pt_sub(a: Seq<u8>, b: Seq<u8>) -> Seq<u8>;

/// Scalar multiplication in the group, on a canonical point encoding and a
/// reduced scalar value; names `RistrettoPoint::mul` composed with canonical
/// decoding and encoding.
pub uninterp spec fn pt_mul(p: Seq<u8>, k: nat) -> Seq<u8>;

/// The element derived from 64 uniform bytes; names
/// `RistrettoPoint::from_uniform_bytes` composed with canonical encoding.
pub uninterp spec fn pt_from_uniform(b: Seq<u8>) -> Seq<u8>;

/// The canonical encoding of the group's neutral element: 32 zero bytes.
pub open spec fn identity_enc() -> Seq<u8> {
    Seq::new(32, |j: int| 0u8)
}

/// The canonical encoding of the Ristretto basepoint, the constant
/// `RISTRETTO_BASEPOINT_COMPRESSED` of curve25519_dalek.
pub open spec fn basepoint_enc() -> Seq<u8> {
    seq![
        0xe2u8, 0xf2u8, 0xaeu8, 0x0au8, 0x6au8, 0xbcu8, 0x4eu8, 0x71u8,
        0xa8u8, 0x84u8, 0xa9u8, 0x61u8, 0xc5u8, 0x00u8, 0x51u8, 0x5fu8,
        0x58u8, 0xe3u8, 0x0bu8, 0x6au8, 0xa5u8, 0x82u8, 0xddu8, 0x8du8,
        0xb6u8, 0xa6u8, 0x59u8, 0x45u8, 0xe0u8, 0x8du8, 0x2du8, 0x76u8,
    ]
}

/// Relies on curve25519_dalek::Scalar: a scalar is an integer modulo the prime
/// group order, `from_bytes_mod_order` reduces a 256-bit little-endian integer
/// modulo that order, addition is modular, and `to_bytes` is the canonical
/// little-endian encoding.
#[verifier::external_body]
pub(crate) fn scalar_add(a: &[u8; 32], b: &[u8; 32]) -> (r: [u8; 32])
    ensures
        is_scalar(r@),
        le_val(r@) == (le_val(a@) + le_val(b@)) % ell(),
{
    (curve25519_dalek::scalar::Scalar::from_bytes_mod_order(*a)
        + curve25519_dalek::scalar::Scalar::from_bytes_mod_order(*b)).to_bytes()
}

/// Relies on curve25519_dalek::Scalar subtraction modulo the prime group order.
#[verifier::external_body]
pub(crate) fn scalar_sub(a: &[u8; 32], b: &[u8; 32]) -> (r: [u8; 32])
    ensures
        is_scalar(r@),
        le_val(r@) as int == (le_val(a@) as int - le_val(b@) as int) % (ell() as int),
{
    (curve25519_dalek::scalar::Scalar::from_bytes_mod_order(*a)
        - curve25519_dalek::scalar::Scalar::from_bytes_mod_order(*b)).to_bytes()
}

/// Relies on curve25519_dalek::Scalar multiplication modulo the group order;
/// that order is prime, so a product of two values that are nonzero modulo it
/// is again nonzero.
#[verifier::external_body]
pub(crate) fn scalar_mul(a: &[u8; 32], b: &[u8; 32]) -> (r: [u8; 32])
    ensures
        is_scalar(r@),
        le_val(r@) == (le_val(a@) * le_val(b@)) % ell(),
        le_val(a@) % ell() != 0 && le_val(b@) % ell() != 0 ==> le_val(r@) != 0,
{
    (curve25519_dalek::scalar::Scalar::from_bytes_mod_order(*a)
        * curve25519_dalek::scalar::Scalar::from_bytes_mod_order(*b)).to_bytes()
}

/// Relies on curve25519_dalek::Scalar::invert: the multiplicative inverse of a
/// nonzero scalar modulo the prime group order.
#[verifier::external_body]
pub(crate) fn scalar_invert(a: &[u8; 32]) -> (r: [u8; 32])
    requires
        le_val(a@) % ell() != 0,
    ensures
        is_scalar(r@),
        (le_val(r@) * le_val(a@)) % ell() == 1,
{
    curve25519_dalek::scalar::Scalar::from_bytes_mod_order(*a).invert().to_bytes()
}

/// Relies on curve25519_dalek::Scalar::from(u64): the scalar with that value,
/// which is already below the group order.
#[verifier::external_body]
pub fn scalar_from_u64(x: u64) -> (r: [u8; 32])
    ensures
        is_scalar(r@),
        le_val(r@) == x as nat,
{
    curve25519_dalek::scalar::Scalar::from(x).to_bytes()
}

/// Relies on curve25519_dalek::Scalar::from_bytes_mod_order: reduction of a
/// 256-bit little-endian integer modulo the group order.
#[verifier::external_body]
pub(crate) fn scalar_reduce(b: &[u8; 32]) -> (r: [u8; 32])
    ensures
        is_scalar(r@),
        le_val(r@) == le_val(b@) % ell(),
{
    curve25519_dalek::scalar::Scalar::from_bytes_mod_order(*b).to_bytes()
}

/// Relies on curve25519_dalek::Scalar::from_bytes_mod_order_wide: reduction of
/// a 512-bit little-endian integer modulo the group order.
#[verifier::external_body]
pub(crate) fn scalar_reduce_wide(b: &[u8; 64]) -> (r: [u8; 32])
    ensures
        is_scalar(r@),
        le_val(r@) == le_val(b@) % ell(),
{
    curve25519_dalek::scalar::Scalar::from_bytes_mod_order_wide(b).to_bytes()
}

/// Relies on CompressedRistretto::decompress, which succeeds exactly on the
/// canonical encodings of group elements.
#[verifier::external_body]
pub(crate) fn point_decode_ok(b: &[u8; 32]) -> (r: bool)
    ensures
        r == is_point_enc(b@),
{
    curve25519_dalek::ristretto::CompressedRistretto(*b).decompress().is_some()
}

/// Relies on RistrettoPoint::add, the commutative and associative group
/// operation of the Ristretto group, and on the canonical compressed encoding.
#[verifier::external_body]
pub fn point_add(a: &[u8; 32], b: &[u8; 32]) -> (r: [u8; 32])
    requires
        is_point_enc(a@),
        is_point_enc(b@),
    ensures
        is_point_enc(r@),
        r@ == pt_add(a@, b@),
        r@ == pt_add(b@, a@),
        forall|c: Seq<u8>| #[trigger] pt_add(r@, c) == pt_add(a@, pt_add(b@, c)),
{
    let pa = curve25519_dalek::ristretto::CompressedRistretto(*a).decompress().expect("point");
    let pb = curve25519_dalek::ristretto::CompressedRistretto(*b).decompress().expect("point");
    (pa + pb).compress().to_bytes()
}

/// Relies on RistrettoPoint::sub, the inverse of the group operation.
#[verifier::external_body]
pub fn point_sub(a: &[u8; 32], b: &[u8; 32]) -> (r: [u8; 32])
    requires
        is_point_enc(a@),
        is_point_enc(b@),
    ensures
        is_point_enc(r@),
        r@ == pt_sub(a@, b@),
        pt_add(r@, b@) == a@,
{
    let pa = curve25519_dalek::ristretto::CompressedRistretto(*a).decompress().expect("point");
    let pb = curve25519_dalek::ristretto::CompressedRistretto(*b).decompress().expect("point");
    (pa - pb).compress().to_bytes()
}

/// Relies on RistrettoPoint::mul by a Scalar: scalar multiplication in the
/// group, which depends only on the scalar's value modulo the group order and
/// distributes over scalar addition.
#[verifier::external_body]
pub fn point_mul(base: &[u8; 32], k: &[u8; 32]) -> (r: [u8; 32])
    requires
        is_point_enc(base@),
    ensures
        is_point_enc(r@),
        r@ == pt_mul(base@, le_val(k@) % ell()),
        forall|j: nat|
            j < ell() ==> #[trigger] pt_add(r@, pt_mul(base@, j)) == pt_mul(
                base@,
                (le_val(k@) % ell() + j) % ell(),
            ),
{
    let p = curve25519_dalek::ristretto::CompressedRistretto(*base).decompress().expect("point");
    let s = curve25519_dalek::scalar::Scalar::from_bytes_mod_order(*k);
    (p * s).compress().to_bytes()
}

/// Relies on RistrettoPoint::identity, the neutral element of the group, whose
/// compressed encoding is the all-zero string.
#[verifier::external_body]
pub(crate) fn point_identity() -> (r: [u8; 32])
    ensures
        is_point_enc(r@),
        r@ == identity_enc(),
        forall|a: Seq<u8>| is_point_enc(a) ==> #[trigger] pt_add(r@, a) == a,
{
    <curve25519_dalek::ristretto::RistrettoPoint as curve25519_dalek::traits::Identity>::identity()
        .compress()
        .to_bytes()
}

/// Relies on the constant RISTRETTO_BASEPOINT_COMPRESSED of curve25519_dalek.
#[verifier::external_body]
pub(crate) fn point_basepoint() -> (r: [u8; 32])
    ensures
        is_point_enc(r@),
        r@ == basepoint_enc(),
{
    curve25519_dalek::constants::RISTRETTO_BASEPOINT_COMPRESSED.to_bytes()
}

/// Relies on RistrettoPoint::from_uniform_bytes, the uniform map from 64 bytes
/// into the group, a function of its argument alone.
#[verifier::external_body]
pub(crate) fn point_from_uniform(b: &[u8; 64]) -> (r: [u8; 32])
    ensures
        is_point_enc(r@),
        r@ == pt_from_uniform(b@),
{
    curve25519_dalek::ristretto::RistrettoPoint::from_uniform_bytes(b).compress().to_bytes()
}


/// Whether a 32-byte string is a canonical scalar encoding.
pub fn scalar_canonical(z: &[u8; 32]) -> (r: bool)
    ensures
        r == is_scalar(z@),
{
    let red = scalar_reduce(z);
    let r = crate::bytes::bytes32_eq(&red, z);
    proof {
        vstd::arithmetic::div_mod::lemma_mod_bound(le_val(z@) as int, ell() as int);
        if !r && is_scalar(z@) {
            vstd::arithmetic::div_mod::lemma_small_mod(le_val(z@), ell());
            crate::bytes::lemma_le_val_injective(red@, z@);
        }
    }
    r
}

/// Group addition on encodings that are first validated; `None` exactly when
/// one of them does not decode.
pub fn point_add_checked(a: &[u8; 32], b: &[u8; 32]) -> (r: Option<[u8; 32]>)
    ensures
        (r is Some) == (is_point_enc(a@) && is_point_enc(b@)),
        r is Some ==> r->Some_0@ == pt_add(a@, b@) && is_point_enc(r->Some_0@),
{
    if point_decode_ok(a) && point_decode_ok(b) {
        Some(point_add(a, b))
    } else {
        None
    }
}

/// Group subtraction on encodings that are first validated; `None` exactly
/// when one of them does not decode.
pub fn point_sub_checked(a: &[u8; 32], b: &[u8; 32]) -> (r: Option<[u8; 32]>)
    ensures
        (r is Some) == (is_point_enc(a@) && is_point_enc(b@)),
        r is Some ==> r->Some_0@ == pt_sub(a@, b@) && is_point_enc(r->Some_0@),
{
    if point_decode_ok(a) && point_decode_ok(b) {
        Some(point_sub(a, b))
    } else {
        None
    }
}

/// Scalar multiplication on an encoding that is first validated; `None`
/// exactly when the base does not decode.
pub fn point_mul_checked(base: &[u8; 32], k: &[u8; 32]) -> (r: Option<[u8; 32]>)
    ensures
        (r is Some) == is_point_enc(base@),
        r is Some ==> r->Some_0@ == pt_mul(base@, le_val(k@) % ell()) && is_point_enc(
            r->Some_0@,
        ),
{
    if point_decode_ok(base) {
        Some(point_mul(base, k))
    } else {
        None
    }
}

} // verus!
