//! Message-bound authorized tracing: a designated authority issues a token
//! for one specific message; the token decrypts only ciphertexts bound to
//! that message's hash.

use vstd::prelude::*;

use crate::bytes::{bytes32_eq, le_val, lemma_xor32_involution, push_bytes, xor32, xor32_exec};
use crate::group::{
    basepoint_enc, ell, is_point_enc, is_scalar, point_basepoint, point_mul, pt_mul,
};
use crate::hash::{sha256, sha256_of, to_array32};
use crate::randutil::random_scalar;

verus! {

/// Tracing authority's key: the master scalar and its public point.
#[derive(Clone, Debug)]
pub struct AdmitterKey {
    pub sk: [u8; 32],
    pub pk: [u8; 32],
}

/// Token for one message: the message hash and the authorization scalar.
#[derive(Clone, Debug)]
pub struct TraceToken {
    pub msg_hash: [u8; 32],
    pub tau: [u8; 32],
}

/// Tracing ciphertext: an ephemeral group element, the 32-byte xor
/// ciphertext, and the hash of the message the token is bound to.
#[derive(Clone, Debug)]
pub struct TraceCiphertext {
    pub c1: [u8; 32],
    pub c2: [u8; 32],
    pub msg_hash: [u8; 32],
}

/// Set up the tracing authority: a fresh master scalar and its public point
/// under the canonical basepoint.
pub fn setup_admitter() -> (r: AdmitterKey)
    ensures
        is_scalar(r.sk@),
        is_point_enc(r.pk@),
        r.pk@ == pt_mul(basepoint_enc(), le_val(r.sk@)),
{
    let sk = random_scalar();
    let base = point_basepoint();
    proof {
        vstd::arithmetic::div_mod::lemma_small_mod(le_val(sk@), ell());
    }
    let pk = point_mul(&base, &sk);
    AdmitterKey { sk, pk }
}

/// The authorization scalar of a token: the message hash read as a scalar,
/// times the master scalar.
pub open spec fn spec_trace_tau(message: Seq<u8>, skv: nat) -> nat {
    ((le_val(sha256_of(message)) % ell()) * skv) % ell()
}

/// Issue a token for one message: `tau = H(m) * sk`, bound to `H(m)`.
pub fn admitter_issue_token(ad: &AdmitterKey, message: &[u8]) -> (r: TraceToken)
    requires
        is_scalar(ad.sk@),
    ensures
        r.msg_hash@ == sha256_of(message@),
        is_scalar(r.tau@),
        le_val(r.tau@) == spec_trace_tau(message@, le_val(ad.sk@)),
{
    let mh = sha256(message);
    let mh_s = crate::group::scalar_reduce(&mh);
    let tau = crate::group::scalar_mul(&mh_s, &ad.sk);
    TraceToken { msg_hash: mh, tau }
}

/// The xor key of the tracing channel: SHA-256 of the ephemeral point, the
/// authorization scalar, and the label.
pub open spec fn spec_trace_key(c1: Seq<u8>, tau: Seq<u8>, label: Seq<u8>) -> Seq<u8> {
    sha256_of(c1 + tau + label)
}

/// Encrypt a 32-byte share under a token: a fresh ephemeral point `C1`, and
/// `C2 = SHA-256(C1 || tau || label) xor share`. The ciphertext carries the
/// token's message hash.
pub fn trace_encrypt(token: &TraceToken, share: &[u8], label: &[u8]) -> (r: TraceCiphertext)
    requires
        share@.len() == 32,
    ensures
        r.msg_hash@ == token.msg_hash@,
        is_point_enc(r.c1@),
        exists|rv: nat| rv < ell() && r.c1@ == #[trigger] pt_mul(basepoint_enc(), rv),
        r.c2@ == xor32(spec_trace_key(r.c1@, token.tau@, label@), share@),
{
    let rsc = random_scalar();
    let base = point_basepoint();
    proof {
        vstd::arithmetic::div_mod::lemma_small_mod(le_val(rsc@), ell());
    }
    let c1 = point_mul(&base, &rsc);

    let mut buf: Vec<u8> = Vec::new();
    push_bytes(&mut buf, &c1);
    push_bytes(&mut buf, &token.tau);
    push_bytes(&mut buf, label);
    proof {
        assert(buf@ =~= c1@ + token.tau@ + label@);
    }
    let key = sha256(buf.as_slice());
    let share32 = to_array32(share);
    let c2v = xor32_exec(&key, &share32);
    let c2 = to_array32(c2v.as_slice());
    TraceCiphertext { c1, c2, msg_hash: token.msg_hash }
}

/// Decrypt a traced share: refuse a ciphertext for another message, then
/// strip the key `SHA-256(C1 || tau)`. The label is associated data of the
/// encryption side alone and is not part of the decryption key.
pub fn trace_decrypt(token: &TraceToken, tc: &TraceCiphertext) -> (r: Option<Vec<u8>>)
    ensures
        (r is None) <==> tc.msg_hash@ != token.msg_hash@,
        r is Some ==> r->Some_0@ == xor32(sha256_of(tc.c1@ + token.tau@), tc.c2@),
{
    if !bytes32_eq(&tc.msg_hash, &token.msg_hash) {
        return None;
    }
    let mut buf: Vec<u8> = Vec::new();
    push_bytes(&mut buf, &tc.c1);
    push_bytes(&mut buf, &token.tau);
    proof {
        assert(buf@ =~= tc.c1@ + token.tau@);
    }
    let key = sha256(buf.as_slice());
    let out = xor32_exec(&key, &tc.c2);
    Some(out)
}

/// Tracing round trip: with a matching message hash and an empty label, the
/// decryption key equals the encryption key, so stripping it recovers the
/// share. (With a nonempty label the two keys hash different strings, the
/// encrypt side's including the label; nothing relates their outputs.)
pub proof fn lemma_trace_round_trip(c1: Seq<u8>, tau: Seq<u8>, label: Seq<u8>, share: Seq<u8>)
    requires
        share.len() == 32,
        label.len() == 0,
    ensures
        xor32(sha256_of(c1 + tau), xor32(spec_trace_key(c1, tau, label), share)) =~= share,
{
    assert(c1 + tau + label =~= c1 + tau);
    lemma_xor32_involution(sha256_of(c1 + tau), share);
}

} // verus!
