//! Timed-release encryption of a partial signature: a repeated-squaring
//! time-lock with a Paillier-style message encapsulation.
//!
//! Parameters are `(N, g, h = g^(2^T) mod N, T)`. Encryption hides the
//! plaintext `s < N` in `v = h^(rN) * (1+N)^s mod N^2` with `u = g^r mod N`;
//! decryption recovers `h^r mod N` by `T` sequential squarings of `u`, strips
//! it from `v`, and reads `s` off `(1+N)^s = 1 + sN (mod N^2)`.

use vstd::arithmetic::div_mod::{
    lemma_mod_bound, lemma_mul_mod_noop_general, lemma_small_mod,
};
use vstd::arithmetic::mul::{lemma_mul_is_associative, lemma_mul_is_commutative};
use vstd::arithmetic::power::{
    lemma_pow1, lemma_pow_adds, lemma_pow_mod_noop, lemma_square_is_pow2, pow,
};
use vstd::arithmetic::power2::{lemma_pow2_adds, pow2};
use vstd::prelude::*;

use crate::bigint::{
    bu_add, bu_div, bu_eq, bu_from_u64, bu_is_zero, bu_mod, bu_modinv, bu_modpow, bu_mul, bu_sub,
    is_mod_inverse, lemma_be_val_lower, lemma_be_val_pad, lemma_be_val_upper, min_be,
};
use crate::bytes::{be_val, bytes_eq, push_bytes};
use crate::randutil::os_random_bytes;

verus! {

/// Time-lock parameters: the modulus `N`, the base `g` of `Z*_N`, the
/// precomputed `h = g^(2^T) mod N`, and the time parameter `T`.
#[derive(Clone, Debug)]
pub struct TimedParams {
    pub n: Vec<u8>,
    pub g: Vec<u8>,
    pub h: Vec<u8>,
    pub t: u64,
}

impl TimedParams {
    /// The modulus is at least two.
    pub open spec fn wf(&self) -> bool {
        be_val(self.n@) >= 2
    }
}

/// Timed-release ciphertext: `u` modulo N, `v` modulo N^2, both big-endian,
/// and the associated data bound at encryption.
#[derive(Clone, Debug)]
pub struct TimedCiphertext {
    pub u: Vec<u8>,
    pub v: Vec<u8>,
    pub aad: Vec<u8>,
}

/// `N^2`.
pub open spec fn n_squared(nv: nat) -> nat {
    nv * nv
}

/// What encryption puts in `u`: `g^r mod N`.
pub open spec fn enc_u_val(nv: nat, gv: nat, rr: nat) -> int {
    pow(gv as int, rr) % (nv as int)
}

/// What encryption puts in `v`: `(h mod N^2)^(rN) * (1+N)^s mod N^2`.
pub open spec fn enc_v_val(nv: nat, hv: nat, rr: nat, sv: nat) -> int {
    let n2 = n_squared(nv) as int;
    ((pow((hv % n_squared(nv)) as int, rr * nv) % n2) * (pow((nv + 1) as int, sv) % n2)) % n2
}

/// What decryption recovers by `T` squarings: `(u mod N)^(2^T) mod N`.
pub open spec fn dec_w_val(nv: nat, t: u64, uv: nat) -> int {
    pow((uv % nv) as int, pow2(t as nat)) % (nv as int)
}

/// The mask decryption strips from `v`: `w^N mod N^2`.
pub open spec fn dec_wn_val(nv: nat, t: u64, uv: nat) -> int {
    pow(dec_w_val(nv, t, uv), nv) % (n_squared(nv) as int)
}

/// The Paillier residue: `(v mod N^2) * inv mod N^2`.
pub open spec fn dec_x_val(nv: nat, vv: nat, ix: nat) -> nat {
    ((vv % n_squared(nv)) * ix) % n_squared(nv)
}

/// The recovered plaintext: `L(x) mod N = ((x-1)/N) mod N`.
pub open spec fn dec_s_val(nv: nat, x: nat) -> nat
    recommends
        x >= 1,
        nv >= 1,
{
    (((x - 1) as nat) / nv) % nv
}

/// `x^(2^t) mod n` by `t` sequential squarings; `t = 0` returns `x`
/// unreduced, as the caller supplied it.
pub fn pow_2t_mod(x: &Vec<u8>, t: u64, n: &Vec<u8>) -> (r: Vec<u8>)
    requires
        be_val(n@) != 0,
    ensures
        t == 0 ==> r@ == x@,
        t >= 1 ==> be_val(r@) as int == pow(be_val(x@) as int, pow2(t as nat)) % (be_val(
            n@,
        ) as int),
        t >= 1 ==> be_val(r@) < be_val(n@),
{
    let mut cur = x.clone();
    assert(cur@ == x@);
    let mut k: u64 = 0;
    while k < t
        invariant
            be_val(n@) != 0,
            k <= t,
            k == 0 ==> cur@ == x@,
            k >= 1 ==> be_val(cur@) as int == pow(be_val(x@) as int, pow2(k as nat)) % (be_val(
                n@,
            ) as int),
            k >= 1 ==> be_val(cur@) < be_val(n@),
        decreases t - k,
    {
        let sq = bu_mul(&cur, &cur);
        let ghost cv = be_val(cur@) as int;
        let ghost xv = be_val(x@) as int;
        let ghost nv = be_val(n@) as int;
        cur = bu_mod(&sq, n);
        proof {
            lemma_mod_bound(cv * cv, nv);
            if k == 0 {
                lemma_square_is_pow2(xv);
                lemma_pow1(2);
                assert(pow2(1) == 2);
                assert(be_val(cur@) as int == pow(xv, pow2(1)) % nv);
            } else {
                let e = pow2(k as nat);
                // (pow % n) * (pow % n) % n == pow * pow % n
                lemma_mul_mod_noop_general(pow(xv, e), pow(xv, e), nv);
                lemma_pow_adds(xv, e, e);
                lemma_pow2_adds(k as nat, 1);
                lemma_pow1(2);
                assert(pow2(1) == 2);
                assert(e + e == pow2((k + 1) as nat)) by {
                    assert(pow2((k + 1) as nat) == e * 2);
                }
                assert(be_val(cur@) as int == pow(xv, pow2((k + 1) as nat)) % nv);
            }
        }
        k += 1;
    }
    cur
}

/// Derive `h = g^(2^T) mod N`.
pub fn derive_h(n: &Vec<u8>, g: &Vec<u8>, t: u64) -> (r: Vec<u8>)
    requires
        be_val(n@) != 0,
    ensures
        be_val(r@) as int == pow(be_val(g@) as int, pow2(t as nat)) % (be_val(n@) as int),
        be_val(r@) < be_val(n@),
{
    let gm = bu_mod(g, n);
    let r = pow_2t_mod(&gm, t, n);
    proof {
        let gv = be_val(g@) as int;
        let nv = be_val(n@) as int;
        lemma_mod_bound(gv, nv);
        if t == 0 {
            lemma_pow1(gv);
            vstd::arithmetic::power::lemma_pow0(2);
            assert(pow2(0) == 1);
            lemma_small_mod(be_val(gm@), be_val(n@));
        } else {
            lemma_pow_mod_noop(gv, pow2(t as nat), nv);
        }
    }
    r
}

/// The Paillier `L` function: `(x - 1) / N`.
pub fn paillier_l(x: &Vec<u8>, n: &Vec<u8>) -> (r: Vec<u8>)
    requires
        be_val(x@) >= 1,
        be_val(n@) != 0,
    ensures
        be_val(r@) == ((be_val(x@) - 1) as nat) / be_val(n@),
        min_be(r@),
{
    let one = bu_from_u64(1);
    let xm = bu_sub(x, &one);
    bu_div(&xm, n)
}

/// Sample `r` in `[1, N^2 - 1]` uniformly; after 64 all-zero draws (an event
/// the operating system's generator does not produce) falls back to 1.
pub fn sample_r(n: &Vec<u8>) -> (r: Vec<u8>)
    requires
        be_val(n@) >= 2,
    ensures
        1 <= be_val(r@) < n_squared(be_val(n@)),
{
    let n2 = bu_mul(n, n);
    proof {
        assert(be_val(n2@) >= 4) by (nonlinear_arith)
            requires
                be_val(n2@) == be_val(n@) * be_val(n@),
                be_val(n@) >= 2,
        ;
    }
    let mut attempts: usize = 0;
    while attempts < 64
        invariant
            be_val(n2@) == n_squared(be_val(n@)),
            be_val(n2@) >= 4,
        decreases 64 - attempts,
    {
        let buf = os_random_bytes(n2.len());
        let r = bu_mod(&buf, &n2);
        if !bu_is_zero(&r) {
            proof {
                lemma_mod_bound(be_val(buf@) as int, be_val(n2@) as int);
            }
            return r;
        }
        attempts += 1;
    }
    let one = bu_from_u64(1);
    one
}

/// Encrypt a plaintext `s < N` under associated data: sample `r`, publish
/// `u = g^r mod N` and `v = (h mod N^2)^(rN) * (1+N)^s mod N^2`.
pub fn timed_encrypt(pp: &TimedParams, plaintext: &[u8], aad: &[u8]) -> (ct: TimedCiphertext)
    requires
        pp.wf(),
        be_val(plaintext@) < be_val(pp.n@),
    ensures
        ct.aad@ == aad@,
        exists|rr: nat|
            #![trigger enc_u_val(be_val(pp.n@), be_val(pp.g@), rr)]
            {
                &&& 1 <= rr < n_squared(be_val(pp.n@))
                &&& be_val(ct.u@) as int == enc_u_val(be_val(pp.n@), be_val(pp.g@), rr)
                &&& be_val(ct.v@) as int == enc_v_val(
                    be_val(pp.n@),
                    be_val(pp.h@),
                    rr,
                    be_val(plaintext@),
                )
            },
{
    let s = vstd::slice::slice_to_vec(plaintext);
    let n2 = bu_mul(&pp.n, &pp.n);
    proof {
        assert(be_val(n2@) >= 4) by (nonlinear_arith)
            requires
                be_val(n2@) == be_val(pp.n@) * be_val(pp.n@),
                be_val(pp.n@) >= 2,
        ;
    }
    let r = sample_r(&pp.n);

    let u = bu_modpow(&pp.g, &r, &pp.n);

    let one = bu_from_u64(1);
    let one_plus_n = bu_add(&pp.n, &one);
    let r_n = bu_mul(&r, &pp.n);
    let h_red = bu_mod(&pp.h, &n2);
    let term1 = bu_modpow(&h_red, &r_n, &n2);
    let term2 = bu_modpow(&one_plus_n, &s, &n2);
    let t12 = bu_mul(&term1, &term2);
    let v = bu_mod(&t12, &n2);

    let ct = TimedCiphertext { u, v, aad: vstd::slice::slice_to_vec(aad) };
    proof {
        let nv = be_val(pp.n@);
        let gv = be_val(pp.g@);
        let hv = be_val(pp.h@);
        let rr = be_val(r@);
        let sv = be_val(plaintext@);
        let n2i = n_squared(nv) as int;
        lemma_mul_mod_noop_general(
            pow((hv % n_squared(nv)) as int, rr * nv) % n2i,
            pow((nv + 1) as int, sv) % n2i,
            n2i,
        );
        assert(be_val(ct.u@) as int == enc_u_val(nv, gv, rr));
        assert(be_val(ct.v@) as int == enc_v_val(nv, hv, rr, sv));
    }
    ct
}

/// Two inverses of the same value below the modulus are equal.
proof fn lemma_mod_inverse_unique(a: nat, m: nat, x1: nat, x2: nat)
    requires
        m >= 2,
        x1 < m,
        x2 < m,
        is_mod_inverse(a, x1, m),
        is_mod_inverse(a, x2, m),
    ensures
        x1 == x2,
{
    let ai = a as int;
    let mi = m as int;
    let y1 = x1 as int;
    let y2 = x2 as int;
    assert((ai * y2) % mi == 1);
    assert((ai * y1) % mi == 1);
    lemma_mul_mod_noop_general(y1, ai * y2, mi);
    assert((y1 * ((ai * y2) % mi)) % mi == (y1 * (ai * y2)) % mi);
    lemma_small_mod(x1, m);
    assert((y1 * (ai * y2)) % mi == y1);
    lemma_mul_mod_noop_general(ai * y1, y2, mi);
    assert((((ai * y1) % mi) * y2) % mi == ((ai * y1) * y2) % mi);
    lemma_small_mod(x2, m);
    assert(((ai * y1) * y2) % mi == y2);
    assert(y1 * (ai * y2) == (ai * y1) * y2) by (nonlinear_arith);
}

/// Decrypt: verify the associated data, recover the mask by `T` sequential
/// squarings, invert it modulo `N^2`, and read the plaintext off the Paillier
/// residue, left-padded to 32 bytes. Returns `None` on mismatched associated
/// data, a non-invertible mask, a zero residue, or a plaintext over 32 bytes.
pub fn timed_decrypt(pp: &TimedParams, ct: &TimedCiphertext, aad_expected: &[u8]) -> (r: Option<
    Vec<u8>,
>)
    requires
        pp.wf(),
    ensures
        ct.aad@ != aad_expected@ ==> r is None,
        ct.aad@ == aad_expected@ ==> {
            let nv = be_val(pp.n@);
            let n2v = n_squared(nv);
            let wnv = dec_wn_val(nv, pp.t, be_val(ct.u@)) as nat;
            &&& ((forall|ix: nat| ix < n2v ==> !is_mod_inverse(wnv, ix, n2v)) ==> r is None)
            &&& forall|ix: nat|
                ix < n2v && #[trigger] is_mod_inverse(wnv, ix, n2v) ==> {
                    let x = dec_x_val(nv, be_val(ct.v@), ix);
                    &&& (x == 0 ==> r is None)
                    &&& (x >= 1 && dec_s_val(nv, x) >= pow(256, 32) ==> r is None)
                    &&& (x >= 1 && dec_s_val(nv, x) < pow(256, 32) ==> {
                        &&& r is Some
                        &&& r->Some_0@.len() == 32
                        &&& be_val(r->Some_0@) == dec_s_val(nv, x)
                    })
                }
        },
{
    if !bytes_eq(ct.aad.as_slice(), aad_expected) {
        return None;
    }

    let n2 = bu_mul(&pp.n, &pp.n);
    proof {
        assert(be_val(n2@) >= 4) by (nonlinear_arith)
            requires
                be_val(n2@) == be_val(pp.n@) * be_val(pp.n@),
                be_val(pp.n@) >= 2,
        ;
    }

    let u_red = bu_mod(&ct.u, &pp.n);
    let w = pow_2t_mod(&u_red, pp.t, &pp.n);
    proof {
        let nv = be_val(pp.n@);
        lemma_mod_bound(be_val(ct.u@) as int, nv as int);
        if pp.t == 0 {
            lemma_pow1(be_val(u_red@) as int);
            vstd::arithmetic::power::lemma_pow0(2);
            assert(pow2(0) == 1);
            lemma_small_mod(be_val(u_red@), nv);
        }
        assert(be_val(w@) as int == dec_w_val(nv, pp.t, be_val(ct.u@)));
    }
    let wn = bu_modpow(&w, &pp.n, &n2);

    let inv = match bu_modinv(&wn, &n2) {
        Some(i) => i,
        None => {
            return None;
        },
    };

    let v_red = bu_mod(&ct.v, &n2);
    let xm = bu_mul(&v_red, &inv);
    let x = bu_mod(&xm, &n2);

    let ghost nv = be_val(pp.n@);
    let ghost n2v = n_squared(nv);
    let ghost wnv = dec_wn_val(nv, pp.t, be_val(ct.u@)) as nat;
    let ghost iv = be_val(inv@);
    proof {
        assert(be_val(wn@) == wnv);
        assert forall|ix: nat| ix < n2v && #[trigger] is_mod_inverse(wnv, ix, n2v) implies ix == iv
            && dec_x_val(nv, be_val(ct.v@), ix) == be_val(x@) by {
            lemma_mod_inverse_unique(wnv, n2v, ix, iv);
        }
    }

    if bu_is_zero(&x) {
        return None;
    }

    let s0 = paillier_l(&x, &pp.n);
    let s = bu_mod(&s0, &pp.n);
    proof {
        assert(be_val(s@) == dec_s_val(nv, be_val(x@)));
    }

    if s.len() > 32 {
        proof {
            lemma_be_val_lower(s@);
            vstd::arithmetic::power::lemma_pow_increases(256, 32, (s@.len() - 1) as nat);
        }
        return None;
    }

    let mut out: Vec<u8> = Vec::new();
    let pad = 32 - s.len();
    let mut j: usize = 0;
    while j < pad
        invariant
            j <= pad,
            out@.len() == j,
            forall|m: int| 0 <= m < j ==> out@[m] == 0u8,
        decreases pad - j,
    {
        out.push(0u8);
        j += 1;
    }
    let ghost zeros = out@;
    push_bytes(&mut out, s.as_slice());
    proof {
        lemma_be_val_pad(zeros, s@);
        lemma_be_val_upper(s@);
        vstd::arithmetic::power::lemma_pow_increases(256, s@.len(), 32);
        assert(out@.len() == 32);
        assert(be_val(out@) == be_val(s@));
    }
    Some(out)
}

} // verus!
