//! Setup of the public parameters and joint key generation.

use vstd::arithmetic::div_mod::lemma_small_mod;
use vstd::prelude::*;

use crate::bytes::le_val;
use crate::group::{
    basepoint_enc, ell, is_point_enc, is_scalar, point_add, point_basepoint, point_mul, pt_add,
    pt_mul,
};
use crate::hash::{derive_generator, spec_derive_generator};
use crate::randutil::random_scalar;
use crate::shamir::{poly_eval, sample_poly_with_constant, scalar_vals};
use crate::types::{Params, PublicKeyShare, SecretKeyShare};

verus! {

/// The tag `"h"`.
pub open spec fn tag_h() -> Seq<u8> {
    seq![0x68u8]
}

/// The tag `"v"`.
pub open spec fn tag_v() -> Seq<u8> {
    seq![0x76u8]
}

/// `Setup(n, t)`: the group basepoint together with the two deterministically
/// derived generators, whose pairwise discrete logarithms are unknown.
pub fn setup(n: usize, t: usize) -> (r: Params)
    ensures
        r.n == n,
        r.t == t,
        r.wf(),
        r.g@ == basepoint_enc(),
        r.h@ == spec_derive_generator(tag_h()),
        r.v@ == spec_derive_generator(tag_v()),
{
    let g = point_basepoint();
    let mut th: Vec<u8> = Vec::new();
    th.push(0x68);
    proof {
        assert(th@ =~= tag_h());
    }
    let h = derive_generator(th.as_slice());
    let mut tv: Vec<u8> = Vec::new();
    tv.push(0x76);
    proof {
        assert(tv@ =~= tag_v());
    }
    let v = derive_generator(tv.as_slice());
    Params { n, t, g, h, v }
}

/// The public share encoding determined by generators and share values:
/// `g*s_i + h*r_i + v*u_i`.
pub open spec fn pk_share_enc(par: Params, sv: nat, rv: nat, uv: nat) -> Seq<u8> {
    pt_add(pt_add(pt_mul(par.g@, sv), pt_mul(par.h@, rv)), pt_mul(par.v@, uv))
}

/// One signer's share is consistent with the three coefficient vectors: the
/// secret share holds the polynomial values at `x` and the public share is
/// the corresponding combination of the generators.
pub open spec fn share_consistent(
    par: Params,
    sv: Seq<nat>,
    rv: Seq<nat>,
    uv: Seq<nat>,
    sk: SecretKeyShare,
    pk: PublicKeyShare,
    x: nat,
) -> bool {
    &&& le_val(sk.s@) == poly_eval(sv, x)
    &&& le_val(sk.r@) == poly_eval(rv, x)
    &&& le_val(sk.u@) == poly_eval(uv, x)
    &&& sk.wf()
    &&& pk.pk_i@ == pk_share_enc(par, poly_eval(sv, x), poly_eval(rv, x), poly_eval(uv, x))
    &&& is_point_enc(pk.pk_i@)
}

/// The key material of one run of `kgen`: three degree-t coefficient vectors
/// (the binding ones with zero constant term) whose evaluations at `1..=n`
/// give every share, and whose secret constant term gives the joint key.
pub open spec fn kgen_consistent(
    par: Params,
    sv: Seq<nat>,
    rv: Seq<nat>,
    uv: Seq<nat>,
    pk: Seq<u8>,
    pks: Seq<PublicKeyShare>,
    sks: Seq<SecretKeyShare>,
) -> bool {
    &&& sv.len() == par.t + 1
    &&& rv.len() == par.t + 1
    &&& uv.len() == par.t + 1
    &&& sv[0] < ell()
    &&& rv[0] == 0
    &&& uv[0] == 0
    &&& pk == pt_mul(par.g@, sv[0])
    &&& pks.len() == par.n
    &&& sks.len() == par.n
    &&& forall|i: int|
        0 <= i < par.n ==> #[trigger] share_consistent(par, sv, rv, uv, sks[i], pks[i], (i
            + 1) as nat)
}

/// `KGen(par)`: sample three degree-t polynomials `s, r, u` with `r(0) = u(0)
/// = 0`; the share of signer `i` is `(s(i), r(i), u(i))` with public share
/// `g*s(i) + h*r(i) + v*u(i)`, and the joint public key is `g*s(0)`.
pub fn kgen(par: &Params) -> (r: ([u8; 32], Vec<PublicKeyShare>, Vec<SecretKeyShare>))
    requires
        par.wf(),
        par.t < usize::MAX,
        par.n < usize::MAX,
    ensures
        is_point_enc(r.0@),
        exists|sv: Seq<nat>, rv: Seq<nat>, uv: Seq<nat>|
            kgen_consistent(*par, sv, rv, uv, r.0@, r.1@, r.2@),
{
    let s0 = random_scalar();
    let zero = crate::group::scalar_from_u64(0);
    let s_poly = sample_poly_with_constant(par.t, &s0);
    let r_poly = sample_poly_with_constant(par.t, &zero);
    let u_poly = sample_poly_with_constant(par.t, &zero);
    let ghost sv = scalar_vals(s_poly.coeffs@);
    let ghost rv = scalar_vals(r_poly.coeffs@);
    let ghost uv = scalar_vals(u_poly.coeffs@);

    let mut pks: Vec<PublicKeyShare> = Vec::new();
    let mut sks: Vec<SecretKeyShare> = Vec::new();

    let mut i: usize = 1;
    while i <= par.n
        invariant
            par.wf(),
            par.n < usize::MAX,
            1 <= i <= par.n + 1,
            s_poly.wf(),
            r_poly.wf(),
            u_poly.wf(),
            sv == scalar_vals(s_poly.coeffs@),
            rv == scalar_vals(r_poly.coeffs@),
            uv == scalar_vals(u_poly.coeffs@),
            pks@.len() == i - 1,
            sks@.len() == i - 1,
            forall|j: int|
                0 <= j < i - 1 ==> #[trigger] share_consistent(
                    *par,
                    sv,
                    rv,
                    uv,
                    sks@[j],
                    pks@[j],
                    (j + 1) as nat,
                ),
        decreases par.n + 1 - i,
    {
        let x = crate::group::scalar_from_u64(i as u64);
        let s_i = s_poly.eval(&x);
        let r_i = r_poly.eval(&x);
        let u_i = u_poly.eval(&x);

        let m1 = point_mul(&par.g, &s_i);
        let m2 = point_mul(&par.h, &r_i);
        let m3 = point_mul(&par.v, &u_i);
        let pk_i = point_add(&point_add(&m1, &m2), &m3);
        proof {
            lemma_small_mod(le_val(s_i@), ell());
            lemma_small_mod(le_val(r_i@), ell());
            lemma_small_mod(le_val(u_i@), ell());
        }
        let ghost sks0 = sks@;
        let ghost pks0 = pks@;
        sks.push(SecretKeyShare { s: s_i, r: r_i, u: u_i });
        pks.push(PublicKeyShare { pk_i });
        proof {
            let last = i - 1 as int;
            assert forall|j: int| 0 <= j < i implies #[trigger] share_consistent(
                *par,
                sv,
                rv,
                uv,
                sks@[j],
                pks@[j],
                (j + 1) as nat,
            ) by {
                if j == last {
                    assert(sks@[j] == SecretKeyShare { s: s_i, r: r_i, u: u_i });
                    assert(pks@[j] == PublicKeyShare { pk_i });
                    assert(le_val(s_i@) == poly_eval(sv, (j + 1) as nat));
                    assert(le_val(r_i@) == poly_eval(rv, (j + 1) as nat));
                    assert(le_val(u_i@) == poly_eval(uv, (j + 1) as nat));
                } else {
                    assert(share_consistent(*par, sv, rv, uv, sks0[j], pks0[j], (j + 1) as nat));
                    assert(sks@[j] == sks0[j]);
                    assert(pks@[j] == pks0[j]);
                }
            }
        }
        i += 1;
    }

    let pk = point_mul(&par.g, &s0);
    let result = (pk, pks, sks);
    proof {
        lemma_small_mod(le_val(s0@), ell());
        assert(sv[0] == le_val(s_poly.coeffs@[0]@));
        assert(rv[0] == 0 && uv[0] == 0);
        assert(kgen_consistent(*par, sv, rv, uv, result.0@, result.1@, result.2@));
    }
    result
}

} // verus!
