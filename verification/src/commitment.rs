//! Verifiable combining layer: Pedersen commitments to the partial signature
//! values, homomorphic aggregation, and verification of the aggregate against
//! the combined signature value.
//!
//! The commitment messages are public; the openings are local to each signer,
//! and their release policy is the caller's decision.

use vstd::arithmetic::div_mod::{lemma_add_mod_noop_right, lemma_small_mod};
use vstd::prelude::*;

use crate::bytes::le_val;
use crate::group::{
    ell, identity_enc, is_point_enc, is_scalar, point_add, point_decode_ok, point_from_uniform,
    point_identity, point_mul, pt_add, pt_from_uniform, pt_mul, scalar_add, scalar_reduce,
};
use crate::hash::{sha256, sha256_of, to_array64};
use crate::randutil::random_scalar;
use crate::tags::{push_tag_vc, tag_vc};
use crate::types::ProtoError;

verus! {

/// Public verifiable-combining commitment of signer `i`: the compressed point
/// `C_i`.
#[derive(Clone, Debug)]
pub struct CommitmentMsg {
    pub i: u32,
    pub c_i: [u8; 32],
}

/// Local opening of signer `i`'s commitment: the blinding scalar `r_i`.
#[derive(Clone, Debug)]
pub struct CommitmentOpening {
    pub i: u32,
    pub r_i: [u8; 32],
}

/// The secondary Pedersen generator derived from `g`: SHA-256 of the tagged
/// encoding, expanded by a second hash to 64 uniform bytes and mapped into
/// the group.
pub open spec fn spec_derive_h_from_g(g: Seq<u8>) -> Seq<u8> {
    pt_from_uniform(sha256_of(tag_vc() + g) + sha256_of(sha256_of(tag_vc() + g)))
}

/// Deterministically derive the secondary Pedersen generator from `g`; its
/// domain tag separates it from every other hash of the system.
pub fn derive_h_from_g(g: &[u8; 32]) -> (r: [u8; 32])
    ensures
        is_point_enc(r@),
        r@ == spec_derive_h_from_g(g@),
{
    let mut buf: Vec<u8> = Vec::new();
    push_tag_vc(&mut buf);
    crate::bytes::push_bytes(&mut buf, g);
    proof {
        assert(buf@ =~= tag_vc() + g@);
    }
    let d1 = sha256(buf.as_slice());
    let d2 = sha256(&d1);
    let mut wide: Vec<u8> = Vec::new();
    crate::bytes::push_bytes(&mut wide, &d1);
    crate::bytes::push_bytes(&mut wide, &d2);
    proof {
        assert(wide@ =~= d1@ + d2@);
    }
    let w = to_array64(wide.as_slice());
    point_from_uniform(&w)
}

/// Commit to the value `z`: `C_i = g*z + h*r_i` for a fresh uniform blinding
/// scalar `r_i`. Returns the public message and the local opening.
pub fn commit_z(i: u32, g: &[u8; 32], h: &[u8; 32], z: &[u8; 32]) -> (r: (
    CommitmentMsg,
    CommitmentOpening,
))
    requires
        is_point_enc(g@),
        is_point_enc(h@),
        is_scalar(z@),
    ensures
        r.0.i == i,
        r.1.i == i,
        is_scalar(r.1.r_i@),
        is_point_enc(r.0.c_i@),
        r.0.c_i@ == pt_add(pt_mul(g@, le_val(z@)), pt_mul(h@, le_val(r.1.r_i@))),
{
    let r_i = random_scalar();
    proof {
        lemma_small_mod(le_val(z@), ell());
        lemma_small_mod(le_val(r_i@), ell());
    }
    let c = point_add(&point_mul(g, z), &point_mul(h, &r_i));
    (CommitmentMsg { i, c_i: c }, CommitmentOpening { i, r_i })
}

/// The homomorphic sum of the first `k` commitment points, starting at the
/// group identity.
pub open spec fn sum_commitments(coms: Seq<CommitmentMsg>, k: int) -> Seq<u8>
    decreases k,
{
    if k <= 0 {
        identity_enc()
    } else {
        pt_add(sum_commitments(coms, k - 1), coms[k - 1].c_i@)
    }
}

/// The first commitment whose point fails to decode, if any.
pub open spec fn first_bad_commitment(coms: Seq<CommitmentMsg>, k: int) -> Option<ProtoError>
    decreases k,
{
    if k <= 0 {
        None
    } else if first_bad_commitment(coms, k - 1) is Some {
        first_bad_commitment(coms, k - 1)
    } else if !is_point_enc(coms[k - 1].c_i@) {
        Some(ProtoError::Malformed { i: coms[k - 1].i })
    } else {
        None
    }
}

proof fn lemma_first_bad_commitment_stays(coms: Seq<CommitmentMsg>, k: int, n: int)
    requires
        0 <= k <= n,
        first_bad_commitment(coms, k) is Some,
    ensures
        first_bad_commitment(coms, n) == first_bad_commitment(coms, k),
    decreases n - k,
{
    if k < n {
        lemma_first_bad_commitment_stays(coms, k + 1, n);
    }
}

/// Aggregate public commitments: `C = sum C_i`. A commitment that fails to
/// decode aborts with a malformed-input error charging its signer.
pub fn aggregate_commitments(coms: &[CommitmentMsg]) -> (r: Result<[u8; 32], ProtoError>)
    ensures
        ({
            let first = first_bad_commitment(coms@, coms@.len() as int);
            match r {
                Result::Err(e) => first == Some(e),
                Result::Ok(c) => first is None && is_point_enc(c@) && c@ == sum_commitments(
                    coms@,
                    coms@.len() as int,
                ),
            }
        }),
{
    let mut c_sum = point_identity();
    let mut k: usize = 0;
    while k < coms.len()
        invariant
            k <= coms@.len(),
            first_bad_commitment(coms@, k as int) is None,
            is_point_enc(c_sum@),
            c_sum@ == sum_commitments(coms@, k as int),
        decreases coms@.len() - k,
    {
        let cm = &coms[k];
        if !point_decode_ok(&cm.c_i) {
            proof {
                lemma_first_bad_commitment_stays(coms@, k + 1, coms@.len() as int);
            }
            return Err(ProtoError::Malformed { i: cm.i });
        }
        c_sum = point_add(&c_sum, &cm.c_i);
        k += 1;
    }
    Ok(c_sum)
}

/// The sum modulo the group order of the first `k` opening scalars.
pub open spec fn sum_openings(ops: Seq<CommitmentOpening>, k: int) -> nat
    decreases k,
{
    if k <= 0 {
        0
    } else {
        (sum_openings(ops, k - 1) + le_val(ops[k - 1].r_i@)) % ell()
    }
}

/// Aggregate openings: `r = sum r_i` modulo the group order.
pub fn aggregate_openings(ops: &[CommitmentOpening]) -> (r: [u8; 32])
    ensures
        is_scalar(r@),
        le_val(r@) == sum_openings(ops@, ops@.len() as int),
{
    let mut r_sum = crate::group::scalar_from_u64(0);
    let mut k: usize = 0;
    while k < ops.len()
        invariant
            k <= ops@.len(),
            is_scalar(r_sum@),
            le_val(r_sum@) == sum_openings(ops@, k as int),
        decreases ops@.len() - k,
    {
        let rk = scalar_reduce(&ops[k].r_i);
        let ghost prev = le_val(r_sum@);
        r_sum = scalar_add(&r_sum, &rk);
        proof {
            lemma_add_mod_noop_right(prev as int, le_val(ops@[k as int].r_i@) as int,
                ell() as int);
        }
        k += 1;
    }
    r_sum
}

/// Verify the aggregate commitment against the combined value: exactly when
/// the aggregate decodes and `C = g*z + h*r`.
pub fn verify_aggregate(
    g: &[u8; 32],
    h: &[u8; 32],
    c_agg: &[u8; 32],
    z: &[u8; 32],
    r_agg: &[u8; 32],
) -> (r: bool)
    requires
        is_point_enc(g@),
        is_point_enc(h@),
        is_scalar(z@),
    ensures
        r == (is_point_enc(c_agg@) && c_agg@ == pt_add(
            pt_mul(g@, le_val(z@)),
            pt_mul(h@, le_val(r_agg@) % ell()),
        )),
{
    if !point_decode_ok(c_agg) {
        return false;
    }
    let r_red = scalar_reduce(r_agg);
    proof {
        lemma_small_mod(le_val(z@), ell());
        lemma_small_mod(le_val(r_red@), ell());
    }
    let expected = point_add(&point_mul(g, z), &point_mul(h, &r_red));
    crate::bytes::bytes32_eq(c_agg, &expected)
}

/// Pedersen homomorphism: committing to each summand of any nonempty
/// partition of a value, the aggregate of the commitments verifies against
/// the sums of the summands and of the blinding scalars. The commitments are
/// rebuilt with the given blinding scalars, aggregated, and verified; the
/// result is always true.
pub fn partition_aggregate_verifies(
    g: &[u8; 32],
    h: &[u8; 32],
    zs: &[[u8; 32]],
    rs: &[[u8; 32]],
) -> (r: bool)
    requires
        zs@.len() == rs@.len(),
        zs@.len() >= 1,
        forall|j: int| 0 <= j < zs@.len() ==> is_scalar((#[trigger] zs@[j])@),
        forall|j: int| 0 <= j < rs@.len() ==> is_scalar((#[trigger] rs@[j])@),
    ensures
        r == (is_point_enc(g@) && is_point_enc(h@)),
{
    if !point_decode_ok(g) || !point_decode_ok(h) {
        return false;
    }
    // the identity's contract supplies the neutral-element law the loop
    // invariant starts from
    let idp = point_identity();
    let mut coms: Vec<CommitmentMsg> = Vec::new();
    let mut zacc = crate::group::scalar_from_u64(0);
    let mut racc = crate::group::scalar_from_u64(0);
    let mut k: usize = 0;
    while k < zs.len()
        invariant
            is_point_enc(g@),
            is_point_enc(h@),
            zs@.len() == rs@.len(),
            forall|j: int| 0 <= j < zs@.len() ==> is_scalar((#[trigger] zs@[j])@),
            forall|j: int| 0 <= j < rs@.len() ==> is_scalar((#[trigger] rs@[j])@),
            k <= zs@.len(),
            coms@.len() == k,
            is_scalar(zacc@),
            is_scalar(racc@),
            first_bad_commitment(coms@, k as int) is None,
            forall|a: Seq<u8>| is_point_enc(a) ==> #[trigger] pt_add(identity_enc(), a) == a,
            k == 0 ==> le_val(zacc@) == 0 && le_val(racc@) == 0,
            k >= 1 ==> sum_commitments(coms@, k as int) == pt_add(
                pt_mul(g@, le_val(zacc@)),
                pt_mul(h@, le_val(racc@)),
            ),
        decreases zs@.len() - k,
    {
        let ghost zv = le_val(zacc@);
        let ghost rv = le_val(racc@);
        proof {
            lemma_small_mod(le_val(zacc@), ell());
            lemma_small_mod(le_val(racc@), ell());
            lemma_small_mod(le_val(zs@[k as int]@), ell());
            lemma_small_mod(le_val(rs@[k as int]@), ell());
        }
        let gz_old = point_mul(g, &zacc);
        let hr_old = point_mul(h, &racc);
        let gzk = point_mul(g, &zs[k]);
        let hrk = point_mul(h, &rs[k]);
        let c_k = point_add(&gzk, &hrk);
        let s_old = point_add(&gz_old, &hr_old);
        let u_mix = point_add(&hr_old, &c_k);
        let v_mix = point_add(&hrk, &hr_old);
        let x2_mix = point_add(&gz_old, &gzk);
        let ghost old_coms = coms@;
        coms.push(CommitmentMsg { i: k as u32, c_i: c_k });
        let ghost zkv = le_val(zs@[k as int]@);
        let ghost rkv = le_val(rs@[k as int]@);
        zacc = scalar_add(&zacc, &zs[k]);
        racc = scalar_add(&racc, &rs[k]);
        proof {
            assert(sum_commitments(coms@, k + 1) == pt_add(
                sum_commitments(coms@, k as int),
                c_k@,
            ));
            lemma_sum_commitments_prefix(old_coms, coms@, k as int);
            lemma_first_bad_commitment_prefix(old_coms, coms@, k as int);
            assert(first_bad_commitment(coms@, k + 1) is None);
            // the new accumulators are the sums, by distributivity
            assert(pt_add(gz_old@, gzk@) == pt_mul(g@, (zv + zkv) % ell()));
            assert(pt_add(hr_old@, hrk@) == pt_mul(h@, (rv + rkv) % ell()));
            assert(x2_mix@ == pt_mul(g@, le_val(zacc@)));
            assert(v_mix@ == pt_add(hr_old@, hrk@));
            assert(v_mix@ == pt_mul(h@, le_val(racc@)));
            if k == 0 {
                assert(sum_commitments(coms@, 0) =~= identity_enc());
                assert(sum_commitments(coms@, 1) == c_k@);
                assert(c_k@ == pt_add(pt_mul(g@, zkv), pt_mul(h@, rkv)));
                assert((0 + zkv) % ell() == zkv);
                assert((0 + rkv) % ell() == rkv);
                assert(gz_old@ == pt_mul(g@, 0nat));
                assert(pt_add(gzk@, hrk@) == c_k@);
                assert(sum_commitments(coms@, k + 1) == pt_add(
                    pt_mul(g@, le_val(zacc@)),
                    pt_mul(h@, le_val(racc@)),
                )) by {
                    assert(pt_mul(g@, le_val(zacc@)) == pt_mul(g@, zkv));
                    assert(pt_mul(h@, le_val(racc@)) == pt_mul(h@, rkv));
                    assert(pt_add(identity_enc(), c_k@) == c_k@);
                }
            } else {
                // rearrange (gz + hr) + (gzk + hrk) into (gz + gzk) + (hr + hrk)
                assert(s_old@ == sum_commitments(old_coms, k as int));
                assert(pt_add(s_old@, c_k@) == pt_add(gz_old@, pt_add(hr_old@, c_k@)));
                assert(u_mix@ == pt_add(hr_old@, c_k@));
                assert(u_mix@ == pt_add(c_k@, hr_old@));
                assert(pt_add(c_k@, hr_old@) == pt_add(gzk@, pt_add(hrk@, hr_old@)));
                assert(v_mix@ == pt_add(hrk@, hr_old@));
                assert(pt_add(x2_mix@, v_mix@) == pt_add(gz_old@, pt_add(gzk@, v_mix@)));
                assert(pt_add(gzk@, v_mix@) == pt_add(gzk@, pt_add(hrk@, hr_old@)));
                assert(pt_add(s_old@, c_k@) == pt_add(x2_mix@, v_mix@));
                assert(sum_commitments(coms@, k + 1) == pt_add(s_old@, c_k@));
            }
        }
        k += 1;
    }
    let c_agg = match aggregate_commitments(coms.as_slice()) {
        Ok(c) => c,
        Err(_) => {
            proof {
                assert(false);
            }
            return false;
        },
    };
    proof {
        lemma_small_mod(le_val(racc@), ell());
    }
    let ok = verify_aggregate(g, h, &c_agg, &zacc, &racc);
    ok
}

/// The first-bad scan depends only on the entries below the bound.
proof fn lemma_first_bad_commitment_prefix(c1: Seq<CommitmentMsg>, c2: Seq<CommitmentMsg>, k: int)
    requires
        forall|j: int| 0 <= j < k ==> c1[j] == c2[j],
    ensures
        first_bad_commitment(c1, k) == first_bad_commitment(c2, k),
    decreases k,
{
    if k > 0 {
        lemma_first_bad_commitment_prefix(c1, c2, k - 1);
    }
}

/// The partial sums of commitments depend only on the entries below the
/// bound.
proof fn lemma_sum_commitments_prefix(c1: Seq<CommitmentMsg>, c2: Seq<CommitmentMsg>, k: int)
    requires
        forall|j: int| 0 <= j < k ==> c1[j] == c2[j],
    ensures
        sum_commitments(c1, k) == sum_commitments(c2, k),
    decreases k,
{
    if k > 0 {
        lemma_sum_commitments_prefix(c1, c2, k - 1);
    }
}

} // verus!
