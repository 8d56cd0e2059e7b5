//! Validating front doors: each public operation whose contract assumes
//! canonical encodings has a counterpart here that first checks every
//! encoding, calls the operation only where the checks hold, and returns
//! `None` where they do not. Unverified callers enter through these.

use vstd::prelude::*;

use crate::bytes::le_val;
use crate::group::{ell, is_point_enc, is_scalar, point_decode_ok, pt_add, pt_mul, scalar_canonical};
use crate::hash::spec_hsig;
use crate::keygen::{kgen, kgen_consistent};
use crate::nizk::{nizk_ok, sig_prove, sig_verify, proof_built_from, Proof};
use crate::protocol::{sig1, sig1_post, sig2, sig2_post, sig3_post, sig3_with_pk, verify};
use crate::types::{
    CommitmentMessage, OpeningMessage, Params, PartialSignature, ProtoError, PublicKeyShare,
    SecretKeyShare, Signature, SignerState,
};

verus! {

/// Whether the parameters carry canonical generator encodings.
pub fn params_ok(par: &Params) -> (r: bool)
    ensures
        r == par.wf(),
{
    point_decode_ok(&par.g) && point_decode_ok(&par.h) && point_decode_ok(&par.v)
}

/// Whether a secret share carries canonical scalar encodings.
pub fn share_ok(sk: &SecretKeyShare) -> (r: bool)
    ensures
        r == sk.wf(),
{
    scalar_canonical(&sk.s) && scalar_canonical(&sk.r) && scalar_canonical(&sk.u)
}

/// Whether a signer state carries canonical encodings.
pub fn state_ok(st: &SignerState) -> (r: bool)
    ensures
        r == st.wf(),
{
    scalar_canonical(&st.a_i) && point_decode_ok(&st.b_i) && point_decode_ok(&st.a_i_point)
        && point_decode_ok(&st.g0) && point_decode_ok(&st.g1)
}

/// Whether a signature carries canonical encodings.
pub fn signature_ok(sig: &Signature) -> (r: bool)
    ensures
        r == sig.wf(),
{
    point_decode_ok(&sig.a_hat) && scalar_canonical(&sig.z)
}

/// Whether every public share encoding in a key map decodes.
pub fn pk_shares_ok(pk_shares: &[(u32, [u8; 32])]) -> (r: bool)
    ensures
        r == (forall|j: int|
            0 <= j < pk_shares@.len() ==> is_point_enc((#[trigger] pk_shares@[j]).1@)),
{
    let mut k: usize = 0;
    while k < pk_shares.len()
        invariant
            k <= pk_shares@.len(),
            forall|j: int| 0 <= j < k ==> is_point_enc((#[trigger] pk_shares@[j]).1@),
        decreases pk_shares@.len() - k,
    {
        if !point_decode_ok(&pk_shares[k].1) {
            return false;
        }
        k += 1;
    }
    true
}

/// Whether every id of a signing subset is at least one.
pub fn ss_ok(ss: &[u32]) -> (r: bool)
    ensures
        r == (forall|j: int| 0 <= j < ss@.len() ==> 1 <= #[trigger] ss@[j]),
{
    let mut k: usize = 0;
    while k < ss.len()
        invariant
            k <= ss@.len(),
            forall|j: int| 0 <= j < k ==> 1 <= #[trigger] ss@[j],
        decreases ss@.len() - k,
    {
        if ss[k] < 1 {
            return false;
        }
        k += 1;
    }
    true
}

/// Key generation after validating the parameters.
pub fn kgen_checked(par: &Params) -> (r: Option<([u8; 32], Vec<PublicKeyShare>, Vec<SecretKeyShare>)>)
    ensures
        (r is Some) == (par.wf() && par.t < usize::MAX && par.n < usize::MAX),
        r is Some ==> is_point_enc(r->Some_0.0@) && exists|sv: Seq<nat>, rv: Seq<nat>, uv: Seq<nat>|
            kgen_consistent(*par, sv, rv, uv, r->Some_0.0@, r->Some_0.1@, r->Some_0.2@),
{
    if params_ok(par) && par.t < usize::MAX && par.n < usize::MAX {
        Some(kgen(par))
    } else {
        None
    }
}

/// Round 1 after validating parameters and share.
pub fn sig1_checked(par: &Params, i: u32, sk_i: &SecretKeyShare) -> (r: Option<
    (CommitmentMessage, SignerState),
>)
    ensures
        (r is Some) == (par.wf() && sk_i.wf()),
        r is Some ==> sig1_post(*par, i, *sk_i, r->Some_0.0, r->Some_0.1),
{
    if params_ok(par) && share_ok(sk_i) {
        Some(sig1(par, i, sk_i))
    } else {
        None
    }
}

/// Round 2 after validating parameters, share and state.
pub fn sig2_checked(
    par: &Params,
    message: &[u8],
    i: u32,
    mu_vec: &[(u32, [u8; 32])],
    pk_i: &PublicKeyShare,
    sk_i: &SecretKeyShare,
    st: &SignerState,
) -> (r: Option<(OpeningMessage, SignerState)>)
    ensures
        (r is Some) == (par.wf() && sk_i.wf() && st.wf()),
        r is Some ==> sig2_post(
            *par,
            message@,
            i,
            mu_vec@,
            *pk_i,
            *sk_i,
            *st,
            r->Some_0.0,
            r->Some_0.1,
        ),
{
    if params_ok(par) && share_ok(sk_i) && state_ok(st) {
        Some(sig2(par, message, i, mu_vec, pk_i, sk_i, st))
    } else {
        None
    }
}

/// Round 3 after validating parameters, share, state, subset and key map.
pub fn sig3_checked(
    par: &Params,
    message: &[u8],
    ss: &[u32],
    i: u32,
    pk_joint: &[u8; 32],
    pk_shares: &[(u32, [u8; 32])],
    sk_i: &SecretKeyShare,
    st: &SignerState,
    commitments: &[(u32, [u8; 32])],
    openings: &[OpeningMessage],
) -> (r: Option<Result<PartialSignature, ProtoError>>)
    ensures
        (r is Some) == (par.wf() && sk_i.wf() && st.wf() && (forall|j: int|
            0 <= j < ss@.len() ==> 1 <= #[trigger] ss@[j]) && (forall|j: int|
            0 <= j < pk_shares@.len() ==> is_point_enc((#[trigger] pk_shares@[j]).1@))),
        r is Some ==> sig3_post(
            *par,
            message@,
            ss@,
            i,
            pk_joint@,
            pk_shares@,
            *sk_i,
            *st,
            commitments@,
            openings@,
            r->Some_0,
        ),
{
    if params_ok(par) && share_ok(sk_i) && state_ok(st) && ss_ok(ss) && pk_shares_ok(pk_shares) {
        Some(sig3_with_pk(par, message, ss, i, pk_joint, pk_shares, sk_i, st, commitments, openings))
    } else {
        None
    }
}

/// Verification after validating parameters, key and signature encodings.
pub fn verify_checked(par: &Params, pk_joint: &[u8; 32], message: &[u8], sig: &Signature) -> (r:
    Option<bool>)
    ensures
        (r is Some) == (par.wf() && is_point_enc(pk_joint@) && sig.wf()),
        r is Some ==> r->Some_0 == (pt_mul(par.g@, le_val(sig.z@)) == pt_add(
            sig.a_hat@,
            pt_mul(pk_joint@, spec_hsig(sig.a_hat@, pk_joint@, message@)),
        )),
{
    if params_ok(par) && point_decode_ok(pk_joint) && signature_ok(sig) {
        Some(verify(par, pk_joint, message, sig))
    } else {
        None
    }
}

/// Proof generation after validating the statement's encodings and witness.
pub fn sig_prove_checked(
    par: &Params,
    pk_i: &[u8; 32],
    a_pt: &[u8; 32],
    b_pt: &[u8; 32],
    gg0: &[u8; 32],
    gg1: &[u8; 32],
    rho: &[u8; 32],
    a: &[u8; 32],
    sk: &SecretKeyShare,
) -> (r: Option<Proof>)
    ensures
        (r is Some) == (par.wf() && is_point_enc(gg0@) && is_point_enc(gg1@) && is_scalar(a@)
            && sk.wf()),
        r is Some ==> proof_built_from(
            *par,
            pk_i@,
            a_pt@,
            b_pt@,
            gg0@,
            gg1@,
            rho@,
            le_val(a@),
            le_val(sk.s@),
            le_val(sk.r@),
            le_val(sk.u@),
            r->Some_0,
        ),
{
    if params_ok(par) && point_decode_ok(gg0) && point_decode_ok(gg1) && scalar_canonical(a)
        && share_ok(sk) {
        Some(sig_prove(par, pk_i, a_pt, b_pt, gg0, gg1, rho, a, sk))
    } else {
        None
    }
}

/// Proof verification after validating the statement's encodings.
pub fn sig_verify_checked(
    par: &Params,
    pk_i: &[u8; 32],
    a_pt: &[u8; 32],
    b_pt: &[u8; 32],
    gg0: &[u8; 32],
    gg1: &[u8; 32],
    rho: &[u8; 32],
    proof: &Proof,
) -> (r: Option<bool>)
    ensures
        (r is Some) == (par.wf() && is_point_enc(pk_i@) && is_point_enc(a_pt@) && is_point_enc(
            b_pt@,
        ) && is_point_enc(gg0@) && is_point_enc(gg1@)),
        r is Some ==> r->Some_0 == nizk_ok(*par, pk_i@, a_pt@, b_pt@, gg0@, gg1@, rho@, *proof),
{
    if params_ok(par) && point_decode_ok(pk_i) && point_decode_ok(a_pt) && point_decode_ok(b_pt)
        && point_decode_ok(gg0) && point_decode_ok(gg1) {
        Some(sig_verify(par, pk_i, a_pt, b_pt, gg0, gg1, rho, proof))
    } else {
        None
    }
}

/// Pedersen commitment after validating the generators and the value.
pub fn commit_z_checked(i: u32, g: &[u8; 32], h: &[u8; 32], z: &[u8; 32]) -> (r: Option<
    (crate::commitment::CommitmentMsg, crate::commitment::CommitmentOpening),
>)
    ensures
        (r is Some) == (is_point_enc(g@) && is_point_enc(h@) && is_scalar(z@)),
        r is Some ==> {
            &&& r->Some_0.0.i == i
            &&& r->Some_0.1.i == i
            &&& is_scalar(r->Some_0.1.r_i@)
            &&& r->Some_0.0.c_i@ == pt_add(
                pt_mul(g@, le_val(z@)),
                pt_mul(h@, le_val(r->Some_0.1.r_i@)),
            )
        },
{
    if point_decode_ok(g) && point_decode_ok(h) && scalar_canonical(z) {
        Some(crate::commitment::commit_z(i, g, h, z))
    } else {
        None
    }
}

/// Aggregate verification after validating the generators and the value.
pub fn verify_aggregate_checked(
    g: &[u8; 32],
    h: &[u8; 32],
    c_agg: &[u8; 32],
    z: &[u8; 32],
    r_agg: &[u8; 32],
) -> (r: Option<bool>)
    ensures
        (r is Some) == (is_point_enc(g@) && is_point_enc(h@) && is_scalar(z@)),
        r is Some ==> r->Some_0 == (is_point_enc(c_agg@) && c_agg@ == pt_add(
            pt_mul(g@, le_val(z@)),
            pt_mul(h@, le_val(r_agg@) % ell()),
        )),
{
    if point_decode_ok(g) && point_decode_ok(h) && scalar_canonical(z) {
        Some(crate::commitment::verify_aggregate(g, h, c_agg, z, r_agg))
    } else {
        None
    }
}

} // verus!
