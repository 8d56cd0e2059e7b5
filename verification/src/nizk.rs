//! Non-interactive zero-knowledge proof of consistent commitment opening: a
//! three-equation sigma-protocol over the witness `(a, s, r, u)`, made
//! non-interactive with a Fiat-Shamir challenge.

use vstd::arithmetic::div_mod::{lemma_add_mod_noop_right, lemma_small_mod};
use vstd::prelude::*;

use crate::bytes::{bytes32_eq, le_val};
use crate::group::{
    ell, is_point_enc, is_scalar, point_add, point_decode_ok, point_mul, pt_add, pt_mul,
    scalar_add, scalar_mul, scalar_reduce,
};
use crate::hash::{f0, f1, hfs, spec_f0, spec_f1, spec_hfs};
use crate::randutil::random_scalar;
use crate::types::{Params, SecretKeyShare};

verus! {

/// Proof `(XA, XB, Xpk, za, zs, zr, zu)`: three announcement points and four
/// response scalars, all in canonical 32-byte encodings.
#[derive(Clone, Debug)]
pub struct Proof {
    pub xa: [u8; 32],
    pub xb: [u8; 32],
    pub xpk: [u8; 32],
    pub za: [u8; 32],
    pub zs: [u8; 32],
    pub zr: [u8; 32],
    pub zu: [u8; 32],
}

/// The Fiat-Shamir challenge of a proof's transcript over the statement
/// `(pk_i, A, B, g0, g1, rho)`.
pub open spec fn proof_challenge(
    pf: Proof,
    pk_i: Seq<u8>,
    a_pt: Seq<u8>,
    b_pt: Seq<u8>,
    gg0: Seq<u8>,
    gg1: Seq<u8>,
    rho: Seq<u8>,
) -> nat {
    spec_hfs(pf.xa@, pf.xb@, pf.xpk@, a_pt, b_pt, pk_i, gg0, gg1, rho)
}

/// Exactly when a proof verifies against the statement `(pk_i, A, B, g0, g1,
/// rho)` under parameters `par`: the three announcement encodings decode, and
/// with challenge `e` recomputed from the transcript,
/// `g*za + g0*zr + g1*zu = XA + A*e`,
/// `g*za + F0(rho)*zr + F1(rho)*zu = XB + B*e`, and
/// `g*zs + h*zr + v*zu = Xpk + pk_i*e`.
pub open spec fn nizk_ok(
    par: Params,
    pk_i: Seq<u8>,
    a_pt: Seq<u8>,
    b_pt: Seq<u8>,
    gg0: Seq<u8>,
    gg1: Seq<u8>,
    rho: Seq<u8>,
    pf: Proof,
) -> bool {
    let e = proof_challenge(pf, pk_i, a_pt, b_pt, gg0, gg1, rho);
    let za = le_val(pf.za@) % ell();
    let zs = le_val(pf.zs@) % ell();
    let zr = le_val(pf.zr@) % ell();
    let zu = le_val(pf.zu@) % ell();
    &&& is_point_enc(pf.xa@)
    &&& is_point_enc(pf.xb@)
    &&& is_point_enc(pf.xpk@)
    &&& pt_add(pt_add(pt_mul(par.g@, za), pt_mul(gg0, zr)), pt_mul(gg1, zu)) == pt_add(
        pf.xa@,
        pt_mul(a_pt, e),
    )
    &&& pt_add(pt_add(pt_mul(par.g@, za), pt_mul(spec_f0(rho), zr)), pt_mul(spec_f1(rho), zu))
        == pt_add(pf.xb@, pt_mul(b_pt, e))
    &&& pt_add(pt_add(pt_mul(par.g@, zs), pt_mul(par.h@, zr)), pt_mul(par.v@, zu)) == pt_add(
        pf.xpk@,
        pt_mul(pk_i, e),
    )
}

/// `SigVer`: verify a proof against the statement `(pk_i, A, B, g0, g1, rho)`.
/// Returns exactly whether the three sigma-equations hold under the recomputed
/// Fiat-Shamir challenge; a malformed announcement encoding verifies as false.
pub fn sig_verify(
    par: &Params,
    pk_i: &[u8; 32],
    a_pt: &[u8; 32],
    b_pt: &[u8; 32],
    gg0: &[u8; 32],
    gg1: &[u8; 32],
    rho: &[u8; 32],
    proof: &Proof,
) -> (r: bool)
    requires
        par.wf(),
        is_point_enc(pk_i@),
        is_point_enc(a_pt@),
        is_point_enc(b_pt@),
        is_point_enc(gg0@),
        is_point_enc(gg1@),
    ensures
        r == nizk_ok(*par, pk_i@, a_pt@, b_pt@, gg0@, gg1@, rho@, *proof),
{
    if !point_decode_ok(&proof.xa) {
        return false;
    }
    if !point_decode_ok(&proof.xb) {
        return false;
    }
    if !point_decode_ok(&proof.xpk) {
        return false;
    }

    let za = scalar_reduce(&proof.za);
    let zs = scalar_reduce(&proof.zs);
    let zr = scalar_reduce(&proof.zr);
    let zu = scalar_reduce(&proof.zu);

    let h0 = f0(rho);
    let h1 = f1(rho);

    let e = hfs(&proof.xa, &proof.xb, &proof.xpk, a_pt, b_pt, pk_i, gg0, gg1, rho);

    proof {
        lemma_small_mod(le_val(za@), ell());
        lemma_small_mod(le_val(zs@), ell());
        lemma_small_mod(le_val(zr@), ell());
        lemma_small_mod(le_val(zu@), ell());
        lemma_small_mod(le_val(e@), ell());
    }

    let left1 = point_add(&point_add(&point_mul(&par.g, &za), &point_mul(gg0, &zr)), &point_mul(
        gg1,
        &zu,
    ));
    let right1 = point_add(&proof.xa, &point_mul(a_pt, &e));

    let left2 = point_add(&point_add(&point_mul(&par.g, &za), &point_mul(&h0, &zr)), &point_mul(
        &h1,
        &zu,
    ));
    let right2 = point_add(&proof.xb, &point_mul(b_pt, &e));

    let left3 = point_add(&point_add(&point_mul(&par.g, &zs), &point_mul(&par.h, &zr)),
        &point_mul(&par.v, &zu));
    let right3 = point_add(&proof.xpk, &point_mul(pk_i, &e));

    let ok1 = bytes32_eq(&left1, &right1);
    let ok2 = bytes32_eq(&left2, &right2);
    let ok3 = bytes32_eq(&left3, &right3);
    ok1 && ok2 && ok3
}

/// What `sig_prove` computes: for some announcement nonces `(ah, sh, rh, uh)`,
/// the announcements are the three sigma-equation left sides on the nonces and
/// the responses answer the transcript's challenge on the witness.
pub open spec fn proof_built_from(
    par: Params,
    pk_i: Seq<u8>,
    a_pt: Seq<u8>,
    b_pt: Seq<u8>,
    gg0: Seq<u8>,
    gg1: Seq<u8>,
    rho: Seq<u8>,
    a: nat,
    s: nat,
    r: nat,
    u: nat,
    pf: Proof,
) -> bool {
    let e = proof_challenge(pf, pk_i, a_pt, b_pt, gg0, gg1, rho);
    exists|ah: nat, sh: nat, rh: nat, uh: nat|
        #![trigger pt_mul(par.g@, ah), pt_mul(par.g@, sh), pt_mul(gg0, rh), pt_mul(gg1, uh)]
        {
            &&& ah < ell()
            &&& sh < ell()
            &&& rh < ell()
            &&& uh < ell()
            &&& pf.xa@ == pt_add(pt_add(pt_mul(par.g@, ah), pt_mul(gg0, rh)), pt_mul(gg1, uh))
            &&& pf.xb@ == pt_add(
                pt_add(pt_mul(par.g@, ah), pt_mul(spec_f0(rho), rh)),
                pt_mul(spec_f1(rho), uh),
            )
            &&& pf.xpk@ == pt_add(
                pt_add(pt_mul(par.g@, sh), pt_mul(par.h@, rh)),
                pt_mul(par.v@, uh),
            )
            &&& le_val(pf.za@) == (ah + a * e) % ell()
            &&& le_val(pf.zs@) == (sh + s * e) % ell()
            &&& le_val(pf.zr@) == (rh + r * e) % ell()
            &&& le_val(pf.zu@) == (uh + u * e) % ell()
        }
}

/// `SigProve`: prove knowledge of `(a, s, r, u)` for the statement `(pk_i, A,
/// B, g0, g1, rho)`. Announce the three equation left sides on fresh nonces,
/// derive the challenge from the transcript, and respond.
pub fn sig_prove(
    par: &Params,
    pk_i: &[u8; 32],
    a_pt: &[u8; 32],
    b_pt: &[u8; 32],
    gg0: &[u8; 32],
    gg1: &[u8; 32],
    rho: &[u8; 32],
    a: &[u8; 32],
    sk: &SecretKeyShare,
) -> (pf: Proof)
    requires
        par.wf(),
        is_point_enc(gg0@),
        is_point_enc(gg1@),
        is_scalar(a@),
        sk.wf(),
    ensures
        is_point_enc(pf.xa@),
        is_point_enc(pf.xb@),
        is_point_enc(pf.xpk@),
        is_scalar(pf.za@),
        is_scalar(pf.zs@),
        is_scalar(pf.zr@),
        is_scalar(pf.zu@),
        proof_built_from(
            *par,
            pk_i@,
            a_pt@,
            b_pt@,
            gg0@,
            gg1@,
            rho@,
            le_val(a@),
            le_val(sk.s@),
            le_val(sk.r@),
            le_val(sk.u@),
            pf,
        ),
{
    let h0 = f0(rho);
    let h1 = f1(rho);

    let a_hat = random_scalar();
    let s_hat = random_scalar();
    let r_hat = random_scalar();
    let u_hat = random_scalar();

    proof {
        lemma_small_mod(le_val(a_hat@), ell());
        lemma_small_mod(le_val(s_hat@), ell());
        lemma_small_mod(le_val(r_hat@), ell());
        lemma_small_mod(le_val(u_hat@), ell());
    }

    let xa = point_add(&point_add(&point_mul(&par.g, &a_hat), &point_mul(gg0, &r_hat)),
        &point_mul(gg1, &u_hat));
    let xb = point_add(&point_add(&point_mul(&par.g, &a_hat), &point_mul(&h0, &r_hat)),
        &point_mul(&h1, &u_hat));
    let xpk = point_add(&point_add(&point_mul(&par.g, &s_hat), &point_mul(&par.h, &r_hat)),
        &point_mul(&par.v, &u_hat));

    let e = hfs(&xa, &xb, &xpk, a_pt, b_pt, pk_i, gg0, gg1, rho);

    let za = scalar_add(&a_hat, &scalar_mul(a, &e));
    let zs = scalar_add(&s_hat, &scalar_mul(&sk.s, &e));
    let zr = scalar_add(&r_hat, &scalar_mul(&sk.r, &e));
    let zu = scalar_add(&u_hat, &scalar_mul(&sk.u, &e));

    let pf = Proof { xa, xb, xpk, za, zs, zr, zu };
    proof {
        let ev = proof_challenge(pf, pk_i@, a_pt@, b_pt@, gg0@, gg1@, rho@);
        assert(ev == le_val(e@));
        lemma_add_mod_noop_right(le_val(a_hat@) as int, (le_val(a@) * ev) as int, ell() as int);
        lemma_add_mod_noop_right(le_val(s_hat@) as int, (le_val(sk.s@) * ev) as int, ell() as int);
        lemma_add_mod_noop_right(le_val(r_hat@) as int, (le_val(sk.r@) * ev) as int, ell() as int);
        lemma_add_mod_noop_right(le_val(u_hat@) as int, (le_val(sk.u@) * ev) as int, ell() as int);
        lemma_small_mod(le_val(a_hat@), ell());
        lemma_small_mod(le_val(s_hat@), ell());
        lemma_small_mod(le_val(r_hat@), ell());
        lemma_small_mod(le_val(u_hat@), ell());
    }
    pf
}

} // verus!
