//! The three signing rounds, combining, and verification.
//!
//! Round 1 publishes a hash commitment to the signer's nonce point; round 2
//! opens it and proves consistency in zero knowledge; round 3 validates every
//! peer's opening (fail-closed, charging the offending signer) and produces
//! the Lagrange-weighted partial signature. The combiner aggregates openings
//! and partials; the verifier checks the Schnorr equation.

use vstd::arithmetic::div_mod::{lemma_add_mod_noop_right, lemma_small_mod};
use vstd::prelude::*;

use crate::bytes::{bytes32_eq, le_val};
use crate::group::{
    ell, identity_enc, is_point_enc, is_scalar, point_add, point_decode_ok, point_identity,
    point_mul, pt_add, pt_mul, scalar_add, scalar_mul, scalar_reduce,
};
use crate::hash::{g0, g1, hcom, hsig, spec_g0, spec_g1, spec_hcom, spec_hsig};
use crate::nizk::{nizk_ok, proof_built_from, sig_prove, sig_verify};
use crate::randutil::{random_bytes32, random_scalar};
use crate::shamir::{lagrange_coeff, lagrange_den, lagrange_num};
use crate::types::{
    CommitmentMessage, OpeningMessage, Params, PartialSignature, ProtoError, PublicKeyShare,
    SecretKeyShare, Signature, SignerState,
};

verus! {

/// Insert an entry into a sequence sorted by id, after any entries with the
/// same id.
pub open spec fn insert_sorted(x: (u32, [u8; 32]), s: Seq<(u32, [u8; 32])>) -> Seq<(u32, [u8; 32])>
    decreases s.len(),
{
    if s.len() == 0 {
        seq![x]
    } else if s.last().0 <= x.0 {
        s.push(x)
    } else {
        insert_sorted(x, s.drop_last()).push(s.last())
    }
}

/// The commitment vector sorted by id (stable insertion sort, left to right).
pub open spec fn sort_by_id(s: Seq<(u32, [u8; 32])>) -> Seq<(u32, [u8; 32])>
    decreases s.len(),
{
    if s.len() == 0 {
        Seq::empty()
    } else {
        insert_sorted(s.last(), sort_by_id(s.drop_last()))
    }
}

/// Normalize a commitment vector: sort it by signer id, keeping entries with
/// equal ids in their order of arrival.
pub fn normalize_mu_vec(mu: &[(u32, [u8; 32])]) -> (r: Vec<(u32, [u8; 32])>)
    ensures
        r@ == sort_by_id(mu@),
{
    let mut out: Vec<(u32, [u8; 32])> = Vec::new();
    let mut k: usize = 0;
    proof {
        assert(mu@.subrange(0, 0) =~= Seq::<(u32, [u8; 32])>::empty());
    }
    while k < mu.len()
        invariant
            k <= mu@.len(),
            out@ == sort_by_id(mu@.subrange(0, k as int)),
        decreases mu@.len() - k,
    {
        let x = mu[k];
        let ghost pre = out@;
        // find the first index whose suffix is strictly greater than x
        let mut p: usize = out.len();
        proof {
            assert(pre.subrange(0, p as int) =~= pre);
            assert(pre.subrange(p as int, pre.len() as int) =~= Seq::<(u32, [u8; 32])>::empty());
            assert(insert_sorted(x, pre) =~= insert_sorted(x, pre.subrange(0, p as int)) + pre
                .subrange(p as int, pre.len() as int));
        }
        while p > 0 && out[p - 1].0 > x.0
            invariant
                p <= out@.len(),
                out@ == pre,
                insert_sorted(x, pre) == insert_sorted(x, pre.subrange(0, p as int)) + pre
                    .subrange(p as int, pre.len() as int),
            decreases p,
        {
            proof {
                let sp = pre.subrange(0, p as int);
                assert(sp.last() == pre[p - 1]);
                assert(sp.drop_last() =~= pre.subrange(0, p - 1));
                assert(insert_sorted(x, sp) == insert_sorted(x, pre.subrange(0, p - 1)).push(
                    pre[p - 1],
                ));
                assert(insert_sorted(x, pre.subrange(0, p - 1)).push(pre[p - 1]) + pre.subrange(
                    p as int,
                    pre.len() as int,
                ) =~= insert_sorted(x, pre.subrange(0, p - 1)) + pre.subrange(
                    p - 1,
                    pre.len() as int,
                ));
            }
            p -= 1;
        }
        proof {
            let sp = pre.subrange(0, p as int);
            if p > 0 {
                assert(sp.last() == pre[p - 1]);
                assert(insert_sorted(x, sp) == sp.push(x));
            } else {
                assert(sp =~= Seq::<(u32, [u8; 32])>::empty());
                assert(insert_sorted(x, sp) =~= seq![x]);
                assert(insert_sorted(x, sp) =~= sp.push(x));
            }
            assert(insert_sorted(x, pre) =~= pre.insert(p as int, x));
        }
        out.insert(p, x);
        proof {
            assert(mu@.subrange(0, k + 1).drop_last() =~= mu@.subrange(0, k as int));
            assert(mu@.subrange(0, k + 1).last() == x);
            assert(out@ == sort_by_id(mu@.subrange(0, k + 1)));
        }
        k += 1;
    }
    proof {
        assert(mu@.subrange(0, mu@.len() as int) =~= mu@);
    }
    out
}

/// The first entry of `s` carrying `id`, if any.
pub open spec fn find_entry(s: Seq<(u32, [u8; 32])>, id: u32) -> Option<[u8; 32]>
    decreases s.len(),
{
    if s.len() == 0 {
        None
    } else if s[0].0 == id {
        Some(s[0].1)
    } else {
        find_entry(s.subrange(1, s.len() as int), id)
    }
}

/// A found entry occurs in the sequence.
pub proof fn lemma_find_entry_is_entry(s: Seq<(u32, [u8; 32])>, id: u32)
    requires
        find_entry(s, id) is Some,
    ensures
        exists|k: int| 0 <= k < s.len() && s[k] == (id, find_entry(s, id)->Some_0),
    decreases s.len(),
{
    if s.len() > 0 && s[0].0 != id {
        lemma_find_entry_is_entry(s.subrange(1, s.len() as int), id);
        let k = choose|k: int|
            0 <= k < s.len() - 1 && s.subrange(1, s.len() as int)[k] == (
            id,
            find_entry(s, id)->Some_0,
            );
        assert(s[k + 1] == (id, find_entry(s, id)->Some_0));
    }
}

fn find_entry_exec(s: &[(u32, [u8; 32])], id: u32) -> (r: Option<[u8; 32]>)
    ensures
        r == find_entry(s@, id),
{
    let mut k: usize = 0;
    proof {
        assert(s@.subrange(0, s@.len() as int) =~= s@);
    }
    while k < s.len()
        invariant
            k <= s@.len(),
            find_entry(s@, id) == find_entry(s@.subrange(k as int, s@.len() as int), id),
        decreases s@.len() - k,
    {
        proof {
            let tail = s@.subrange(k as int, s@.len() as int);
            assert(tail[0] == s@[k as int]);
            assert(tail.subrange(1, tail.len() as int) =~= s@.subrange(
                k + 1,
                s@.len() as int,
            ));
        }
        let (eid, v) = s[k];
        if eid == id {
            return Some(v);
        }
        k += 1;
    }
    proof {
        assert(s@.subrange(s@.len() as int, s@.len() as int) =~= Seq::<(u32, [u8; 32])>::empty());
    }
    None
}

/// `Sig1`: sample the nonce scalar `a_i` and the 32-byte string `rho_i`,
/// compute `B_i = g*a_i + F0(rho_i)*r_i + F1(rho_i)*u_i`, and publish
/// `mu_i = Hcom(i, rho_i, B_i)`. The returned state carries the nonce; it
/// must be used for one signing attempt only.
/// What round 1 publishes and retains, relative to the returned state's own
/// nonce and commitment string.
pub open spec fn sig1_post(
    par: Params,
    i: u32,
    sk_i: SecretKeyShare,
    cm: CommitmentMessage,
    st: SignerState,
) -> bool {
    &&& cm.i == i
    &&& st.i == i
    &&& st.wf()
    &&& is_scalar(st.a_i@)
    &&& st.b_i@ == pt_add(
        pt_add(
            pt_mul(par.g@, le_val(st.a_i@)),
            pt_mul(crate::hash::spec_f0(st.rho_i@), le_val(sk_i.r@)),
        ),
        pt_mul(crate::hash::spec_f1(st.rho_i@), le_val(sk_i.u@)),
    )
    &&& cm.mu_i@ == spec_hcom(i, st.rho_i@, st.b_i@)
    &&& st.mu_vec@.len() == 0
    &&& st.a_i_point@ == identity_enc()
    &&& st.g0@ == identity_enc()
    &&& st.g1@ == identity_enc()
}

pub fn sig1(par: &Params, i: u32, sk_i: &SecretKeyShare) -> (r: (CommitmentMessage, SignerState))
    requires
        par.wf(),
        sk_i.wf(),
    ensures
        sig1_post(*par, i, *sk_i, r.0, r.1),
{
    let a_i = random_scalar();
    let rho_i = random_bytes32();

    let h0 = crate::hash::f0(&rho_i);
    let h1 = crate::hash::f1(&rho_i);
    proof {
        lemma_small_mod(le_val(a_i@), ell());
        lemma_small_mod(le_val(sk_i.r@), ell());
        lemma_small_mod(le_val(sk_i.u@), ell());
    }
    let b_i = point_add(&point_add(&point_mul(&par.g, &a_i), &point_mul(&h0, &sk_i.r)),
        &point_mul(&h1, &sk_i.u));

    let mu_i = hcom(i, &rho_i, &b_i);

    let idp = point_identity();
    let st = SignerState {
        i,
        a_i,
        rho_i,
        b_i,
        a_i_point: idp,
        mu_vec: Vec::new(),
        g0: idp,
        g1: idp,
    };

    (CommitmentMessage { i, mu_i }, st)
}

/// `Sig2`: sort the commitment vector, derive `G0, G1` from the message and
/// the sorted vector, compute `A_i = g*a_i + G0*r_i + G1*u_i`, and publish the
/// opening together with a proof binding `(pk_i, A_i, B_i, G0, G1, rho_i)`.
pub fn sig2(
    par: &Params,
    message: &[u8],
    i: u32,
    mu_vec: &[(u32, [u8; 32])],
    pk_i: &PublicKeyShare,
    sk_i: &SecretKeyShare,
    st: &SignerState,
) -> (r: (OpeningMessage, SignerState))
    requires
        par.wf(),
        sk_i.wf(),
        st.wf(),
    ensures
        sig2_post(*par, message@, i, mu_vec@, *pk_i, *sk_i, *st, r.0, r.1),
{
    let mus = normalize_mu_vec(mu_vec);
    let g0p = g0(message, mus.as_slice());
    let g1p = g1(message, mus.as_slice());

    proof {
        lemma_small_mod(le_val(st.a_i@), ell());
        lemma_small_mod(le_val(sk_i.r@), ell());
        lemma_small_mod(le_val(sk_i.u@), ell());
    }
    let a_i_point = point_add(&point_add(&point_mul(&par.g, &st.a_i), &point_mul(&g0p, &sk_i.r)),
        &point_mul(&g1p, &sk_i.u));

    let pf = sig_prove(par, &pk_i.pk_i, &a_i_point, &st.b_i, &g0p, &g1p, &st.rho_i, &st.a_i, sk_i);

    let om = OpeningMessage {
        i,
        a_i: crate::hash::enc_scalar(&st.a_i),
        a_point: crate::hash::enc_point(&a_i_point),
        rho_i: st.rho_i,
        b_point: crate::hash::enc_point(&st.b_i),
        proof: pf,
    };

    let st2 = SignerState {
        i,
        a_i: st.a_i,
        rho_i: st.rho_i,
        b_i: st.b_i,
        a_i_point,
        mu_vec: mus,
        g0: g0p,
        g1: g1p,
    };

    (om, st2)
}

/// What round 2 publishes and caches, relative to the prior state.
pub open spec fn sig2_post(
    par: Params,
    message: Seq<u8>,
    i: u32,
    mu_vec: Seq<(u32, [u8; 32])>,
    pk_i: PublicKeyShare,
    sk_i: SecretKeyShare,
    st: SignerState,
    om: OpeningMessage,
    st2: SignerState,
) -> bool {
    &&& st2.mu_vec@ == sort_by_id(mu_vec)
    &&& st2.g0@ == spec_g0(message, sort_by_id(mu_vec))
    &&& st2.g1@ == spec_g1(message, sort_by_id(mu_vec))
    &&& st2.a_i_point@ == pt_add(
        pt_add(pt_mul(par.g@, le_val(st.a_i@)), pt_mul(st2.g0@, le_val(sk_i.r@))),
        pt_mul(st2.g1@, le_val(sk_i.u@)),
    )
    &&& st2.i == i
    &&& st2.a_i@ == st.a_i@
    &&& st2.rho_i@ == st.rho_i@
    &&& st2.b_i@ == st.b_i@
    &&& st2.wf()
    &&& om.i == i
    &&& om.a_i@ == st.a_i@
    &&& om.a_point@ == st2.a_i_point@
    &&& om.rho_i@ == st.rho_i@
    &&& om.b_point@ == st.b_i@
    &&& proof_built_from(
        par,
        pk_i.pk_i@,
        om.a_point@,
        om.b_point@,
        st2.g0@,
        st2.g1@,
        st.rho_i@,
        le_val(st.a_i@),
        le_val(sk_i.s@),
        le_val(sk_i.r@),
        le_val(sk_i.u@),
        om.proof,
    )
}

/// What round 3 finds wrong with one opening, if anything, checked in order:
/// the point encodings must decode, the commitment must open to the published
/// `mu`, the signer must appear in the commitment and key vectors, and the
/// proof must verify.
pub open spec fn spec_check_opening(
    par: Params,
    message: Seq<u8>,
    mus: Seq<(u32, [u8; 32])>,
    pks: Seq<(u32, [u8; 32])>,
    om: OpeningMessage,
) -> Option<ProtoError> {
    if !is_point_enc(om.b_point@) {
        Some(ProtoError::Malformed { i: om.i })
    } else if find_entry(mus, om.i) is None {
        Some(ProtoError::ProtocolViolation { i: om.i })
    } else if (find_entry(mus, om.i)->Some_0)@ != spec_hcom(om.i, om.rho_i@, om.b_point@) {
        Some(ProtoError::ProtocolViolation { i: om.i })
    } else if !is_point_enc(om.a_point@) {
        Some(ProtoError::Malformed { i: om.i })
    } else if find_entry(pks, om.i) is None {
        Some(ProtoError::ProtocolViolation { i: om.i })
    } else if !nizk_ok(
        par,
        (find_entry(pks, om.i)->Some_0)@,
        om.a_point@,
        om.b_point@,
        spec_g0(message, mus),
        spec_g1(message, mus),
        om.rho_i@,
        om.proof,
    ) {
        Some(ProtoError::ProtocolViolation { i: om.i })
    } else {
        None
    }
}

/// The first error among the first `k` openings, if any.
pub open spec fn first_opening_error(
    par: Params,
    message: Seq<u8>,
    mus: Seq<(u32, [u8; 32])>,
    pks: Seq<(u32, [u8; 32])>,
    oms: Seq<OpeningMessage>,
    k: int,
) -> Option<ProtoError>
    decreases k,
{
    if k <= 0 {
        None
    } else if first_opening_error(par, message, mus, pks, oms, k - 1) is Some {
        first_opening_error(par, message, mus, pks, oms, k - 1)
    } else {
        spec_check_opening(par, message, mus, pks, oms[k - 1])
    }
}

/// Once an error is found, it stays the first error.
proof fn lemma_first_error_stays(
    par: Params,
    message: Seq<u8>,
    mus: Seq<(u32, [u8; 32])>,
    pks: Seq<(u32, [u8; 32])>,
    oms: Seq<OpeningMessage>,
    k: int,
    n: int,
)
    requires
        0 <= k <= n,
        first_opening_error(par, message, mus, pks, oms, k) is Some,
    ensures
        first_opening_error(par, message, mus, pks, oms, n) == first_opening_error(
            par,
            message,
            mus,
            pks,
            oms,
            k,
        ),
    decreases n - k,
{
    if k < n {
        lemma_first_error_stays(par, message, mus, pks, oms, k + 1, n);
    }
}

/// If the first `n` openings carry no error, neither does any single one of
/// them.
proof fn lemma_no_error_prefix(
    par: Params,
    message: Seq<u8>,
    mus: Seq<(u32, [u8; 32])>,
    pks: Seq<(u32, [u8; 32])>,
    oms: Seq<OpeningMessage>,
    k: int,
    n: int,
)
    requires
        0 <= k < n,
        first_opening_error(par, message, mus, pks, oms, n) is None,
    ensures
        spec_check_opening(par, message, mus, pks, oms[k]) is None,
    decreases n - k,
{
    if k < n - 1 {
        lemma_no_error_prefix(par, message, mus, pks, oms, k, n - 1);
    }
}

/// `li` is the Lagrange coefficient of `i` at the subset `ss`: the unique
/// scalar whose product with the nonzero denominator product equals the
/// numerator product.
pub open spec fn is_lagrange(li: nat, i: u32, ss: Seq<u32>) -> bool {
    &&& li < ell()
    &&& lagrange_den(i, ss) != 0
    &&& (li * lagrange_den(i, ss)) % ell() == lagrange_num(i, ss)
}

/// The weights are the Lagrange coefficients of the opening ids at `ss`.
pub open spec fn lagrange_weights_ok(ss: Seq<u32>, oms: Seq<OpeningMessage>, ls: Seq<nat>) -> bool {
    &&& ls.len() == oms.len()
    &&& forall|k: int| 0 <= k < oms.len() ==> is_lagrange(ls[k], (#[trigger] oms[k]).i, ss)
}

/// The weighted sum of the first `k` opened nonce points:
/// `sum_j ls[j] * A_j`, starting at the group identity.
pub open spec fn weighted_ahat(oms: Seq<OpeningMessage>, ls: Seq<nat>, k: int) -> Seq<u8>
    decreases k,
{
    if k <= 0 {
        identity_enc()
    } else {
        pt_add(weighted_ahat(oms, ls, k - 1), pt_mul(oms[k - 1].a_point@, ls[k - 1]))
    }
}

/// The weighted sum over the first `k` entries depends only on the first `k`
/// weights.
proof fn lemma_weighted_ahat_prefix(
    oms: Seq<OpeningMessage>,
    ls1: Seq<nat>,
    ls2: Seq<nat>,
    k: int,
)
    requires
        forall|j: int| 0 <= j < k ==> ls1[j] == ls2[j],
    ensures
        weighted_ahat(oms, ls1, k) == weighted_ahat(oms, ls2, k),
    decreases k,
{
    if k > 0 {
        lemma_weighted_ahat_prefix(oms, ls1, ls2, k - 1);
    }
}

/// The partial signature value: `li * (a + c*s) mod ell` where `c` is the
/// challenge of the aggregated nonce point.
pub open spec fn partial_z(li: nat, a: nat, c: nat, s: nat) -> nat {
    (li * ((a + c * s) % ell())) % ell()
}

/// What round 3 returns: the first offending opening's error where one
/// exists, else this signer's Lagrange-weighted partial signature over the
/// challenge of the aggregated nonce point.
pub open spec fn sig3_post(
    par: Params,
    message: Seq<u8>,
    ss: Seq<u32>,
    i: u32,
    pk_joint: Seq<u8>,
    pk_shares: Seq<(u32, [u8; 32])>,
    sk_i: SecretKeyShare,
    st: SignerState,
    commitments: Seq<(u32, [u8; 32])>,
    openings: Seq<OpeningMessage>,
    r: Result<PartialSignature, ProtoError>,
) -> bool {
    let mus = sort_by_id(commitments);
    let first = first_opening_error(par, message, mus, pk_shares, openings, openings.len() as int);
    match r {
        Result::Err(e) => first == Some(e),
        Result::Ok(ps) => {
            &&& first is None
            &&& ps.i == i
            &&& exists|ls: Seq<nat>, li: nat|
                #![trigger lagrange_weights_ok(ss, openings, ls), is_lagrange(li, i, ss)]
                {
                    &&& lagrange_weights_ok(ss, openings, ls)
                    &&& is_lagrange(li, i, ss)
                    &&& le_val(ps.z_i@) == partial_z(
                        li,
                        le_val(st.a_i@),
                        spec_hsig(
                            weighted_ahat(openings, ls, openings.len() as int),
                            pk_joint,
                            message,
                        ),
                        le_val(sk_i.s@),
                    )
                }
        },
    }
}

/// `Sig3`: validate every opening (fail-closed, charging the offending
/// signer), aggregate the nonce points with Lagrange weights, derive the
/// challenge, and output this signer's weighted partial signature.
pub fn sig3_with_pk(
    par: &Params,
    message: &[u8],
    ss: &[u32],
    i: u32,
    pk_joint: &[u8; 32],
    pk_shares: &[(u32, [u8; 32])],
    sk_i: &SecretKeyShare,
    st: &SignerState,
    commitments: &[(u32, [u8; 32])],
    openings: &[OpeningMessage],
) -> (r: Result<PartialSignature, ProtoError>)
    requires
        par.wf(),
        sk_i.wf(),
        st.wf(),
        forall|j: int| 0 <= j < ss@.len() ==> 1 <= #[trigger] ss@[j],
        forall|j: int| 0 <= j < pk_shares@.len() ==> is_point_enc((#[trigger] pk_shares@[j]).1@),
    ensures
        sig3_post(
            *par,
            message@,
            ss@,
            i,
            pk_joint@,
            pk_shares@,
            *sk_i,
            *st,
            commitments@,
            openings@,
            r,
        ),
{
    let mus = normalize_mu_vec(commitments);
    let g0p = g0(message, mus.as_slice());
    let g1p = g1(message, mus.as_slice());
    let ghost musg = sort_by_id(commitments@);

    let mut k: usize = 0;
    while k < openings.len()
        invariant
            par.wf(),
            musg == sort_by_id(commitments@),
            mus@ == musg,
            g0p@ == spec_g0(message@, musg),
            g1p@ == spec_g1(message@, musg),
            is_point_enc(g0p@),
            is_point_enc(g1p@),
            forall|j: int|
                0 <= j < pk_shares@.len() ==> is_point_enc((#[trigger] pk_shares@[j]).1@),
            k <= openings@.len(),
            first_opening_error(*par, message@, musg, pk_shares@, openings@, k as int) is None,
        decreases openings@.len() - k,
    {
        let om = &openings[k];

        if !point_decode_ok(&om.b_point) {
            proof {
                lemma_first_error_stays(
                    *par,
                    message@,
                    musg,
                    pk_shares@,
                    openings@,
                    k + 1,
                    openings@.len() as int,
                );
            }
            return Err(ProtoError::Malformed { i: om.i });
        }
        let muj_expected = hcom(om.i, &om.rho_i, &om.b_point);
        let muj_opt = find_entry_exec(mus.as_slice(), om.i);
        let muj = match muj_opt {
            Some(m) => m,
            None => {
                proof {
                    lemma_first_error_stays(
                        *par,
                        message@,
                        musg,
                        pk_shares@,
                        openings@,
                        k + 1,
                        openings@.len() as int,
                    );
                }
                return Err(ProtoError::ProtocolViolation { i: om.i });
            },
        };
        if !bytes32_eq(&muj, &muj_expected) {
            proof {
                lemma_first_error_stays(
                    *par,
                    message@,
                    musg,
                    pk_shares@,
                    openings@,
                    k + 1,
                    openings@.len() as int,
                );
            }
            return Err(ProtoError::ProtocolViolation { i: om.i });
        }
        if !point_decode_ok(&om.a_point) {
            proof {
                lemma_first_error_stays(
                    *par,
                    message@,
                    musg,
                    pk_shares@,
                    openings@,
                    k + 1,
                    openings@.len() as int,
                );
            }
            return Err(ProtoError::Malformed { i: om.i });
        }
        let pkj_opt = find_entry_exec(pk_shares, om.i);
        let pkj = match pkj_opt {
            Some(p) => p,
            None => {
                proof {
                    lemma_first_error_stays(
                        *par,
                        message@,
                        musg,
                        pk_shares@,
                        openings@,
                        k + 1,
                        openings@.len() as int,
                    );
                }
                return Err(ProtoError::ProtocolViolation { i: om.i });
            },
        };
        proof {
            lemma_find_entry_is_entry(pk_shares@, om.i);
            assert(is_point_enc(pkj@));
        }
        let ok = sig_verify(par, &pkj, &om.a_point, &om.b_point, &g0p, &g1p, &om.rho_i, &om.proof);
        if !ok {
            proof {
                lemma_first_error_stays(
                    *par,
                    message@,
                    musg,
                    pk_shares@,
                    openings@,
                    k + 1,
                    openings@.len() as int,
                );
            }
            return Err(ProtoError::ProtocolViolation { i: om.i });
        }
        proof {
            assert(spec_check_opening(*par, message@, musg, pk_shares@, openings@[k as int])
                is None);
        }
        k += 1;
    }

    // aggregate the opened nonce points with Lagrange weights
    let mut a_hat = point_identity();
    let ghost mut ls: Seq<nat> = Seq::empty();
    let mut k2: usize = 0;
    while k2 < openings.len()
        invariant
            par.wf(),
            forall|j: int| 0 <= j < ss@.len() ==> 1 <= #[trigger] ss@[j],
            k2 <= openings@.len(),
            first_opening_error(
                *par,
                message@,
                musg,
                pk_shares@,
                openings@,
                openings@.len() as int,
            ) is None,
            ls.len() == k2,
            forall|j: int| 0 <= j < k2 ==> is_lagrange(ls[j], (#[trigger] openings@[j]).i, ss@),
            is_point_enc(a_hat@),
            a_hat@ == weighted_ahat(openings@, ls, k2 as int),
        decreases openings@.len() - k2,
    {
        let om = &openings[k2];
        proof {
            lemma_no_error_prefix(
                *par,
                message@,
                musg,
                pk_shares@,
                openings@,
                k2 as int,
                openings@.len() as int,
            );
            assert(spec_check_opening(*par, message@, musg, pk_shares@, openings@[k2 as int])
                is None);
            assert(is_point_enc(om.a_point@));
        }
        let lj = lagrange_coeff(om.i, ss);
        proof {
            lemma_small_mod(le_val(lj@), ell());
        }
        let term = point_mul(&om.a_point, &lj);
        a_hat = point_add(&a_hat, &term);
        proof {
            let ls0 = ls;
            ls = ls.push(le_val(lj@));
            lemma_weighted_ahat_prefix(openings@, ls0, ls, k2 as int);
            assert(a_hat@ == weighted_ahat(openings@, ls, k2 + 1));
        }
        k2 += 1;
    }

    let c = hsig(&a_hat, pk_joint, message);

    let li = lagrange_coeff(i, ss);
    let cs = scalar_mul(&c, &sk_i.s);
    let acs = scalar_add(&st.a_i, &cs);
    let z_i = scalar_mul(&li, &acs);
    proof {
        let cv = le_val(c@);
        lemma_add_mod_noop_right(le_val(st.a_i@) as int, (cv * le_val(sk_i.s@)) as int,
            ell() as int);
        lemma_small_mod(le_val(acs@), ell());
        lemma_small_mod(le_val(li@), ell());
        assert(le_val(z_i@) == partial_z(le_val(li@), le_val(st.a_i@), cv, le_val(sk_i.s@)));
        assert(lagrange_weights_ok(ss@, openings@, ls));
        assert(is_lagrange(le_val(li@), i, ss@));
    }

    Ok(PartialSignature { i, z_i })
}

/// The sum modulo the group order of the first `k` partial signature values.
pub open spec fn zsum(ps: Seq<PartialSignature>, k: int) -> nat
    decreases k,
{
    if k <= 0 {
        0
    } else {
        (zsum(ps, k - 1) + le_val(ps[k - 1].z_i@)) % ell()
    }
}

/// The first opening whose nonce point fails to decode, if any.
pub open spec fn first_bad_a_point(oms: Seq<OpeningMessage>, k: int) -> Option<ProtoError>
    decreases k,
{
    if k <= 0 {
        None
    } else if first_bad_a_point(oms, k - 1) is Some {
        first_bad_a_point(oms, k - 1)
    } else if !is_point_enc(oms[k - 1].a_point@) {
        Some(ProtoError::Malformed { i: oms[k - 1].i })
    } else {
        None
    }
}

/// Once a bad encoding is found, it stays the first one.
proof fn lemma_first_bad_a_stays(oms: Seq<OpeningMessage>, k: int, n: int)
    requires
        0 <= k <= n,
        first_bad_a_point(oms, k) is Some,
    ensures
        first_bad_a_point(oms, n) == first_bad_a_point(oms, k),
    decreases n - k,
{
    if k < n {
        lemma_first_bad_a_stays(oms, k + 1, n);
    }
}

/// `Combine`: recompute the aggregated nonce point from the openings and sum
/// the partial signature values.
pub fn combine(
    ss: &[u32],
    openings: &[OpeningMessage],
    sigshares: &[PartialSignature],
) -> (r: Result<Signature, ProtoError>)
    requires
        forall|j: int| 0 <= j < ss@.len() ==> 1 <= #[trigger] ss@[j],
    ensures
        ({
            let first = first_bad_a_point(openings@, openings@.len() as int);
            match r {
                Result::Err(e) => first == Some(e),
                Result::Ok(sig) => {
                    &&& first is None
                    &&& sig.wf()
                    &&& le_val(sig.z@) == zsum(sigshares@, sigshares@.len() as int)
                    &&& exists|ls: Seq<nat>|
                        #![trigger lagrange_weights_ok(ss@, openings@, ls)]
                        {
                            &&& lagrange_weights_ok(ss@, openings@, ls)
                            &&& sig.a_hat@ == weighted_ahat(
                                openings@,
                                ls,
                                openings@.len() as int,
                            )
                        }
                },
            }
        }),
{
    let mut a_hat = point_identity();
    let ghost mut ls: Seq<nat> = Seq::empty();
    let mut k: usize = 0;
    while k < openings.len()
        invariant
            forall|j: int| 0 <= j < ss@.len() ==> 1 <= #[trigger] ss@[j],
            k <= openings@.len(),
            first_bad_a_point(openings@, k as int) is None,
            ls.len() == k,
            forall|j: int| 0 <= j < k ==> is_lagrange(ls[j], (#[trigger] openings@[j]).i, ss@),
            is_point_enc(a_hat@),
            a_hat@ == weighted_ahat(openings@, ls, k as int),
        decreases openings@.len() - k,
    {
        let om = &openings[k];
        if !point_decode_ok(&om.a_point) {
            proof {
                lemma_first_bad_a_stays(openings@, k + 1, openings@.len() as int);
            }
            return Err(ProtoError::Malformed { i: om.i });
        }
        let lj = lagrange_coeff(om.i, ss);
        proof {
            lemma_small_mod(le_val(lj@), ell());
        }
        let term = point_mul(&om.a_point, &lj);
        a_hat = point_add(&a_hat, &term);
        proof {
            let ls0 = ls;
            ls = ls.push(le_val(lj@));
            lemma_weighted_ahat_prefix(openings@, ls0, ls, k as int);
            assert(a_hat@ == weighted_ahat(openings@, ls, k + 1));
        }
        k += 1;
    }

    let mut z = crate::group::scalar_from_u64(0);
    let mut k2: usize = 0;
    while k2 < sigshares.len()
        invariant
            k2 <= sigshares@.len(),
            is_scalar(z@),
            le_val(z@) == zsum(sigshares@, k2 as int),
        decreases sigshares@.len() - k2,
    {
        let zk = scalar_reduce(&sigshares[k2].z_i);
        let ghost zv = le_val(z@);
        z = scalar_add(&z, &zk);
        proof {
            lemma_add_mod_noop_right(zv as int, le_val(sigshares@[k2 as int].z_i@) as int,
                ell() as int);
        }
        k2 += 1;
    }

    let sig = Signature { a_hat, z };
    proof {
        assert(lagrange_weights_ok(ss@, openings@, ls));
        assert(sig.a_hat@ == weighted_ahat(openings@, ls, openings@.len() as int));
    }
    Ok(sig)
}

/// `Verify`: a Schnorr signature `(A_hat, z)` on `message` is valid exactly
/// when `g*z = A_hat + pk*c` with `c = Hsig(A_hat, pk, message)`.
pub fn verify(par: &Params, pk_joint: &[u8; 32], message: &[u8], sig: &Signature) -> (r: bool)
    requires
        par.wf(),
        is_point_enc(pk_joint@),
        sig.wf(),
    ensures
        r == (pt_mul(par.g@, le_val(sig.z@)) == pt_add(
            sig.a_hat@,
            pt_mul(pk_joint@, spec_hsig(sig.a_hat@, pk_joint@, message@)),
        )),
{
    let c = hsig(&sig.a_hat, pk_joint, message);
    proof {
        lemma_small_mod(le_val(sig.z@), ell());
        lemma_small_mod(le_val(c@), ell());
    }
    let left = point_mul(&par.g, &sig.z);
    let right = point_add(&sig.a_hat, &point_mul(pk_joint, &c));
    bytes32_eq(&left, &right)
}

} // verus!
