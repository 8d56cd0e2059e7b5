//! Domain-separated random oracles: SHA-512 expanded to 32 bytes, to a scalar
//! (512-bit little-endian representative reduced modulo the group order), or
//! to a group element (uniform 64 bytes mapped into the group). Every oracle
//! prefixes its own domain tag, so no two oracles ever hash the same string.

use vstd::bytes::{spec_u32_to_le_bytes, u32_to_le_bytes};
use vstd::prelude::*;

use crate::bytes::{le_val, push_bytes};
use crate::tags::{
    push_tag_f0, push_tag_f1, push_tag_g0, push_tag_g1, push_tag_gen, push_tag_hcom_inner,
    push_tag_hcom_outer, push_tag_hfs, push_tag_hsig, tag_f0, tag_f1, tag_g0, tag_g1, tag_gen,
    tag_hcom_inner, tag_hcom_outer, tag_hfs, tag_hsig,
};
use crate::group::{
    ell, is_point_enc, is_scalar, point_from_uniform, pt_from_uniform, scalar_reduce_wide,
};

verus! {

/// What SHA-512 returns on a byte string: 64 bytes, a function of the input
/// alone.
pub uninterp spec fn sha512_of(m: Seq<u8>) -> Seq<u8>;

/// What SHA-256 returns on a byte string: 32 bytes, a function of the input
/// alone.
pub uninterp spec fn sha256_of(m: Seq<u8>) -> Seq<u8>;

/// Relies on sha2::Sha512: the SHA-512 digest of the input, 64 bytes.
#[verifier::external_body]
pub(crate) fn sha512(m: &[u8]) -> (r: [u8; 64])
    ensures
        r@ == sha512_of(m@),
{
    let d = <sha2::Sha512 as sha2::Digest>::digest(m);
    let mut out = [0u8; 64];
    out.copy_from_slice(&d);
    out
}

/// Relies on sha2::Sha256: the SHA-256 digest of the input, 32 bytes.
#[verifier::external_body]
pub(crate) fn sha256(m: &[u8]) -> (r: [u8; 32])
    ensures
        r@ == sha256_of(m@),
{
    let d = <sha2::Sha256 as sha2::Digest>::digest(m);
    let mut out = [0u8; 32];
    out.copy_from_slice(&d);
    out
}

/// Relies on core's slice-to-array conversion: the 32-byte array with exactly
/// the bytes of a 32-byte slice.
#[verifier::external_body]
pub(crate) fn to_array32(v: &[u8]) -> (r: [u8; 32])
    requires
        v@.len() == 32,
    ensures
        r@ == v@,
{
    let mut out = [0u8; 32];
    out.copy_from_slice(v);
    out
}

/// Relies on core's slice-to-array conversion: the 64-byte array with exactly
/// the bytes of a 64-byte slice.
#[verifier::external_body]
pub(crate) fn to_array64(v: &[u8]) -> (r: [u8; 64])
    requires
        v@.len() == 64,
    ensures
        r@ == v@,
{
    let mut out = [0u8; 64];
    out.copy_from_slice(v);
    out
}

/// SHA-512 of `domain || data`, truncated to its first 32 bytes.
pub open spec fn spec_hash_32(domain: Seq<u8>, data: Seq<u8>) -> Seq<u8> {
    sha512_of(domain + data).subrange(0, 32)
}

/// SHA-512 of `domain || data`.
pub open spec fn spec_hash_64(domain: Seq<u8>, data: Seq<u8>) -> Seq<u8> {
    sha512_of(domain + data)
}

fn hash_64(domain: &[u8], data: &[u8]) -> (r: [u8; 64])
    ensures
        r@ == spec_hash_64(domain@, data@),
{
    let mut buf: Vec<u8> = Vec::new();
    push_bytes(&mut buf, domain);
    push_bytes(&mut buf, data);
    proof {
        assert(buf@ =~= domain@ + data@);
    }
    sha512(buf.as_slice())
}

fn hash_32(domain: &[u8], data: &[u8]) -> (r: [u8; 32])
    ensures
        r@ == spec_hash_32(domain@, data@),
{
    let wide = hash_64(domain, data);
    let mut t: Vec<u8> = Vec::new();
    let mut i: usize = 0;
    while i < 32
        invariant
            i <= 32,
            t@ =~= wide@.subrange(0, i as int),
        decreases 32 - i,
    {
        t.push(wide[i]);
        proof {
            assert(t@ =~= wide@.subrange(0, i + 1));
        }
        i += 1;
    }
    to_array32(t.as_slice())
}

/// The group element a domain-separated oracle maps `data` to.
pub open spec fn spec_hash_to_point(domain: Seq<u8>, data: Seq<u8>) -> Seq<u8> {
    pt_from_uniform(spec_hash_64(domain, data))
}

/// The scalar value a domain-separated oracle maps `data` to.
pub open spec fn spec_hash_to_scalar(domain: Seq<u8>, data: Seq<u8>) -> nat {
    le_val(spec_hash_64(domain, data)) % ell()
}

fn hash_to_point(domain: &[u8], data: &[u8]) -> (r: [u8; 32])
    ensures
        is_point_enc(r@),
        r@ == spec_hash_to_point(domain@, data@),
{
    let wide = hash_64(domain, data);
    point_from_uniform(&wide)
}

fn hash_to_scalar(domain: &[u8], data: &[u8]) -> (r: [u8; 32])
    ensures
        is_scalar(r@),
        le_val(r@) == spec_hash_to_scalar(domain@, data@),
{
    let wide = hash_64(domain, data);
    scalar_reduce_wide(&wide)
}

/// Canonical encoding of a group element; on this representation the identity.
pub fn enc_point(p: &[u8; 32]) -> (r: [u8; 32])
    ensures
        r@ == p@,
{
    *p
}

/// Canonical encoding of a scalar; on this representation the identity.
pub fn enc_scalar(s: &[u8; 32]) -> (r: [u8; 32])
    ensures
        r@ == s@,
{
    *s
}

/// The byte string hashed by the commitment oracle.
pub open spec fn hcom_transcript(i: u32, rho: Seq<u8>, b: Seq<u8>) -> Seq<u8> {
    tag_hcom_inner() + spec_u32_to_le_bytes(i) + rho + b
}

/// The 32-byte commitment the oracle `Hcom` assigns to `(i, rho, B)`.
pub open spec fn spec_hcom(i: u32, rho: Seq<u8>, b: Seq<u8>) -> Seq<u8> {
    spec_hash_32(tag_hcom_outer(), hcom_transcript(i, rho, b))
}

/// Commitment oracle: `mu = Hcom(i, rho, B)`.
pub fn hcom(i: u32, rho: &[u8; 32], b: &[u8; 32]) -> (r: [u8; 32])
    ensures
        r@ == spec_hcom(i, rho@, b@),
{
    let mut buf: Vec<u8> = Vec::new();
    push_tag_hcom_inner(&mut buf);
    let ib = u32_to_le_bytes(i);
    push_bytes(&mut buf, ib.as_slice());
    push_bytes(&mut buf, rho);
    push_bytes(&mut buf, b);
    proof {
        assert(buf@ =~= hcom_transcript(i, rho@, b@));
    }
    let mut dom: Vec<u8> = Vec::new();
    push_tag_hcom_outer(&mut dom);
    hash_32(dom.as_slice(), buf.as_slice())
}

/// The group element the oracle `F0` assigns to `rho`.
pub open spec fn spec_f0(rho: Seq<u8>) -> Seq<u8> {
    spec_hash_to_point(tag_f0(), rho)
}

/// The group element the oracle `F1` assigns to `rho`.
pub open spec fn spec_f1(rho: Seq<u8>) -> Seq<u8> {
    spec_hash_to_point(tag_f1(), rho)
}

/// Oracle `F0 : {0,1}^256 -> G`.
pub fn f0(rho: &[u8; 32]) -> (r: [u8; 32])
    ensures
        is_point_enc(r@),
        r@ == spec_f0(rho@),
{
    let mut dom: Vec<u8> = Vec::new();
    push_tag_f0(&mut dom);
    hash_to_point(dom.as_slice(), rho)
}

/// Oracle `F1 : {0,1}^256 -> G`.
pub fn f1(rho: &[u8; 32]) -> (r: [u8; 32])
    ensures
        is_point_enc(r@),
        r@ == spec_f1(rho@),
{
    let mut dom: Vec<u8> = Vec::new();
    push_tag_f1(&mut dom);
    hash_to_point(dom.as_slice(), rho)
}

/// Serialization of a commitment vector: each entry as its 4-byte
/// little-endian id followed by the 32-byte commitment.
pub open spec fn mu_vec_bytes(mus: Seq<(u32, [u8; 32])>) -> Seq<u8>
    decreases mus.len(),
{
    if mus.len() == 0 {
        Seq::<u8>::empty()
    } else {
        mu_vec_bytes(mus.drop_last()) + spec_u32_to_le_bytes(mus.last().0) + mus.last().1@
    }
}

fn mu_buf(message: &[u8], mu_vec: &[(u32, [u8; 32])]) -> (r: Vec<u8>)
    ensures
        r@ == message@ + mu_vec_bytes(mu_vec@),
{
    let mut buf: Vec<u8> = Vec::new();
    push_bytes(&mut buf, message);
    let mut k: usize = 0;
    while k < mu_vec.len()
        invariant
            k <= mu_vec@.len(),
            buf@ == message@ + mu_vec_bytes(mu_vec@.subrange(0, k as int)),
        decreases mu_vec@.len() - k,
    {
        let (id, mu) = mu_vec[k];
        let ib = u32_to_le_bytes(id);
        push_bytes(&mut buf, ib.as_slice());
        push_bytes(&mut buf, &mu);
        proof {
            let pre = mu_vec@.subrange(0, k as int);
            let post = mu_vec@.subrange(0, k + 1);
            assert(post.drop_last() =~= pre);
            assert(buf@ =~= message@ + mu_vec_bytes(post));
        }
        k += 1;
    }
    proof {
        assert(mu_vec@.subrange(0, mu_vec@.len() as int) =~= mu_vec@);
    }
    buf
}

/// The group element the oracle `G0` assigns to `(m, mu_vec)`.
pub open spec fn spec_g0(message: Seq<u8>, mus: Seq<(u32, [u8; 32])>) -> Seq<u8> {
    spec_hash_to_point(tag_g0(), message + mu_vec_bytes(mus))
}

/// The group element the oracle `G1` assigns to `(m, mu_vec)`.
pub open spec fn spec_g1(message: Seq<u8>, mus: Seq<(u32, [u8; 32])>) -> Seq<u8> {
    spec_hash_to_point(tag_g1(), message + mu_vec_bytes(mus))
}

/// Oracle `G0 : M x R* -> G`.
pub fn g0(message: &[u8], mu_vec: &[(u32, [u8; 32])]) -> (r: [u8; 32])
    ensures
        is_point_enc(r@),
        r@ == spec_g0(message@, mu_vec@),
{
    let buf = mu_buf(message, mu_vec);
    let mut dom: Vec<u8> = Vec::new();
    push_tag_g0(&mut dom);
    hash_to_point(dom.as_slice(), buf.as_slice())
}

/// Oracle `G1 : M x R* -> G`.
pub fn g1(message: &[u8], mu_vec: &[(u32, [u8; 32])]) -> (r: [u8; 32])
    ensures
        is_point_enc(r@),
        r@ == spec_g1(message@, mu_vec@),
{
    let buf = mu_buf(message, mu_vec);
    let mut dom: Vec<u8> = Vec::new();
    push_tag_g1(&mut dom);
    hash_to_point(dom.as_slice(), buf.as_slice())
}

/// The scalar value the oracle `Hsig` assigns to `(A_hat, pk, m)`.
pub open spec fn spec_hsig(a_hat: Seq<u8>, pk: Seq<u8>, message: Seq<u8>) -> nat {
    spec_hash_to_scalar(tag_hsig(), a_hat + pk + message)
}

/// Signature challenge oracle `Hsig : G^2 x M -> scalars`.
pub fn hsig(a_hat: &[u8; 32], pk: &[u8; 32], message: &[u8]) -> (r: [u8; 32])
    ensures
        is_scalar(r@),
        le_val(r@) == spec_hsig(a_hat@, pk@, message@),
{
    let mut buf: Vec<u8> = Vec::new();
    push_bytes(&mut buf, a_hat);
    push_bytes(&mut buf, pk);
    push_bytes(&mut buf, message);
    proof {
        assert(buf@ =~= a_hat@ + pk@ + message@);
    }
    let mut dom: Vec<u8> = Vec::new();
    push_tag_hsig(&mut dom);
    hash_to_scalar(dom.as_slice(), buf.as_slice())
}

/// The byte string hashed by the Fiat-Shamir oracle.
pub open spec fn hfs_transcript(
    xa: Seq<u8>,
    xb: Seq<u8>,
    xpk: Seq<u8>,
    a: Seq<u8>,
    b: Seq<u8>,
    pk: Seq<u8>,
    gg0: Seq<u8>,
    gg1: Seq<u8>,
    rho: Seq<u8>,
) -> Seq<u8> {
    xa + xb + xpk + a + b + pk + gg0 + gg1 + rho
}

/// The scalar value the Fiat-Shamir oracle `HFS` assigns to a proof
/// transcript.
pub open spec fn spec_hfs(
    xa: Seq<u8>,
    xb: Seq<u8>,
    xpk: Seq<u8>,
    a: Seq<u8>,
    b: Seq<u8>,
    pk: Seq<u8>,
    gg0: Seq<u8>,
    gg1: Seq<u8>,
    rho: Seq<u8>,
) -> nat {
    spec_hash_to_scalar(tag_hfs(), hfs_transcript(xa, xb, xpk, a, b, pk, gg0, gg1, rho))
}

/// Fiat-Shamir challenge oracle for the sigma-protocol.
pub fn hfs(
    xa: &[u8; 32],
    xb: &[u8; 32],
    xpk: &[u8; 32],
    a: &[u8; 32],
    b: &[u8; 32],
    pk: &[u8; 32],
    gg0: &[u8; 32],
    gg1: &[u8; 32],
    rho: &[u8; 32],
) -> (r: [u8; 32])
    ensures
        is_scalar(r@),
        le_val(r@) == spec_hfs(xa@, xb@, xpk@, a@, b@, pk@, gg0@, gg1@, rho@),
{
    let mut buf: Vec<u8> = Vec::new();
    push_bytes(&mut buf, xa);
    push_bytes(&mut buf, xb);
    push_bytes(&mut buf, xpk);
    push_bytes(&mut buf, a);
    push_bytes(&mut buf, b);
    push_bytes(&mut buf, pk);
    push_bytes(&mut buf, gg0);
    push_bytes(&mut buf, gg1);
    push_bytes(&mut buf, rho);
    proof {
        assert(buf@ =~= hfs_transcript(xa@, xb@, xpk@, a@, b@, pk@, gg0@, gg1@, rho@));
    }
    let mut dom: Vec<u8> = Vec::new();
    push_tag_hfs(&mut dom);
    hash_to_scalar(dom.as_slice(), buf.as_slice())
}

/// The deterministically derived generator for a tag.
pub open spec fn spec_derive_generator(tag: Seq<u8>) -> Seq<u8> {
    spec_hash_to_point(tag_gen(), tag)
}

/// Deterministic nothing-up-my-sleeve generator for a fixed tag.
pub fn derive_generator(tag: &[u8]) -> (r: [u8; 32])
    ensures
        is_point_enc(r@),
        r@ == spec_derive_generator(tag@),
{
    let mut dom: Vec<u8> = Vec::new();
    push_tag_gen(&mut dom);
    hash_to_point(dom.as_slice(), tag)
}

} // verus!
