//! Probable-prime generation for the timed-release modulus: square-and-
//! multiply modular exponentiation and the Miller-Rabin test.

use vstd::arithmetic::div_mod::{
    lemma_fundamental_div_mod, lemma_mod_bound, lemma_mul_mod_noop_general, lemma_small_mod,
};
use vstd::arithmetic::power::{
    lemma_pow0, lemma_pow1, lemma_pow_adds, lemma_pow_mod_noop, lemma_pow_multiplies, pow,
};
use vstd::arithmetic::power2::pow2;
use vstd::prelude::*;

use crate::bigint::{
    bu_add, bu_eq, bu_from_u64, bu_is_zero, bu_lt, bu_mod, bu_mul, bu_shr1, bu_sub,
};
use crate::bytes::be_val;
use crate::randutil::os_random_bytes;

verus! {

/// Whether the value is odd.
fn bu_is_odd(a: &Vec<u8>) -> (r: bool)
    ensures
        r == (be_val(a@) % 2 == 1),
{
    let two = bu_from_u64(2);
    let rem = bu_mod(a, &two);
    proof {
        lemma_mod_bound(be_val(a@) as int, 2);
    }
    !bu_is_zero(&rem)
}

/// Square-and-multiply modular exponentiation: `base ^ exp mod m`.
pub fn modexp(base: &Vec<u8>, exp: &Vec<u8>, m: &Vec<u8>) -> (r: Vec<u8>)
    requires
        be_val(m@) >= 2,
    ensures
        be_val(r@) as int == pow(be_val(base@) as int, be_val(exp@)) % (be_val(m@) as int),
        be_val(r@) < be_val(m@),
{
    let ghost b0 = be_val(base@) as int;
    let ghost e0 = be_val(exp@);
    let ghost mv = be_val(m@) as int;

    let mut res = bu_from_u64(1);
    let mut b = bu_mod(base, m);
    let mut e = vstd::slice::slice_to_vec(exp.as_slice());
    proof {
        lemma_mod_bound(b0, mv);
        lemma_pow_mod_noop(b0, e0, mv);
        lemma_small_mod(1, be_val(m@));
    }
    let mut done = bu_is_zero(&e);
    while !done
        invariant
            be_val(m@) >= 2,
            mv == be_val(m@) as int,
            done == (be_val(e@) == 0),
            be_val(res@) < be_val(m@),
            be_val(b@) < be_val(m@),
            (be_val(res@) as int * pow(be_val(b@) as int, be_val(e@))) % mv == pow(b0, e0) % mv,
        decreases be_val(e@),
    {
        let ghost rv = be_val(res@) as int;
        let ghost bv = be_val(b@) as int;
        let ghost ev = be_val(e@);
        if bu_is_odd(&e) {
            let t = bu_mul(&res, &b);
            res = bu_mod(&t, m);
            proof {
                lemma_mod_bound(rv * bv, mv);
            }
        }
        let sq = bu_mul(&b, &b);
        b = bu_mod(&sq, m);
        e = bu_shr1(&e);
        done = bu_is_zero(&e);
        proof {
            lemma_mod_bound(bv * bv, mv);
            let e2 = ev / 2;
            let bit = ev % 2;
            lemma_mod_bound(ev as int, 2);
            lemma_fundamental_div_mod(ev as int, 2);
            assert(ev == 2 * e2 + bit);
            // pow(bv, ev) == pow(bv*bv, e2) * pow(bv, bit)
            lemma_pow_multiplies(bv, 2, e2);
            lemma_pow_adds(bv, 2 * e2, bit);
            lemma_pow_adds(bv, 1, 1);
            lemma_pow1(bv);
            lemma_pow0(bv);
            assert(pow(bv, 2) == bv * bv);
            assert(pow(bv, ev) == pow(bv * bv, e2) * pow(bv, bit));
            // fold the two reductions back in
            lemma_pow_mod_noop(bv * bv, e2, mv);
            if bit == 1 {
                assert(pow(bv, bit) == bv);
                // new res == (rv * bv) % mv
                lemma_mul_mod_noop_general(rv * bv, pow((bv * bv) % mv, e2), mv);
                lemma_mul_mod_noop_general(rv * bv, pow(bv * bv, e2), mv);
                assert((be_val(res@) as int * pow(be_val(b@) as int, be_val(e@))) % mv == ((rv
                    * bv) * pow(bv * bv, e2)) % mv);
                assert((rv * bv) * pow(bv * bv, e2) == rv * (pow(bv * bv, e2) * bv))
                    by (nonlinear_arith);
                assert(rv * (pow(bv * bv, e2) * bv) == rv * pow(bv, ev)) by (nonlinear_arith)
                    requires
                        pow(bv, ev) == pow(bv * bv, e2) * pow(bv, bit),
                        pow(bv, bit) == bv,
                ;
                lemma_mul_mod_noop_general(rv, pow(bv, ev), mv);
            } else {
                assert(pow(bv, bit) == 1);
                lemma_mul_mod_noop_general(rv, pow((bv * bv) % mv, e2), mv);
                lemma_mul_mod_noop_general(rv, pow(bv * bv, e2), mv);
                assert(rv * pow(bv * bv, e2) == rv * pow(bv, ev)) by (nonlinear_arith)
                    requires
                        pow(bv, ev) == pow(bv * bv, e2) * pow(bv, bit),
                        pow(bv, bit) == 1,
                ;
            }
        }
    }
    proof {
        lemma_pow0(be_val(b@) as int);
        lemma_small_mod(be_val(res@), be_val(m@));
    }
    res
}

/// Miller-Rabin probable-primality test with `k` rounds. A value of two or
/// three is prime; below four anything else is not; an even value above
/// three is composite. Of an odd value above three that the rounds accept,
/// nothing is claimed beyond the test's probabilistic guarantee.
pub fn is_probable_prime(n: &Vec<u8>, k: usize) -> (r: bool)
    ensures
        be_val(n@) <= 3 ==> r == (be_val(n@) == 2 || be_val(n@) == 3),
        be_val(n@) > 3 && be_val(n@) % 2 == 0 ==> r == false,
{
    let two = bu_from_u64(2);
    let three = bu_from_u64(3);
    let four = bu_from_u64(4);
    if bu_lt(n, &four) {
        return bu_eq(n, &two) || bu_eq(n, &three);
    }
    if !bu_is_odd(n) {
        proof {
            lemma_mod_bound(be_val(n@) as int, 2);
        }
        return false;
    }

    let one = bu_from_u64(1);
    let mut d = bu_sub(n, &one);
    let mut s: u64 = 0;
    while !bu_is_odd(&d) && s < u64::MAX
        invariant
            be_val(d@) >= 1 || be_val(d@) % 2 == 1,
            be_val(n@) > 3,
        decreases be_val(d@),
    {
        proof {
            lemma_mod_bound(be_val(d@) as int, 2);
            lemma_fundamental_div_mod(be_val(d@) as int, 2);
        }
        d = bu_shr1(&d);
        s += 1;
    }
    if s == 0 {
        // n - 1 is odd for n > 3 odd only if something is inconsistent; the
        // test simply reports composite in that case
        return false;
    }

    let n_minus_1 = bu_sub(n, &one);
    let n_minus_3 = bu_sub(n, &three);
    if bu_is_zero(&n_minus_3) {
        return false;
    }

    let mut round: usize = 0;
    while round < k
        invariant
            be_val(n@) > 3,
            be_val(n_minus_3@) != 0,
            be_val(n_minus_1@) == be_val(n@) - 1,
            s >= 1,
        decreases k - round,
    {
        let v = os_random_bytes(8);
        let vm = bu_mod(&v, &n_minus_3);
        let a = bu_add(&vm, &two);
        let mut x = modexp(&a, &d, n);
        let first_ok = bu_eq(&x, &one) || bu_eq(&x, &n_minus_1);
        if !first_ok {
            let mut composite = true;
            let mut j: u64 = 0;
            while j + 1 < s && composite
                invariant
                    be_val(n@) > 3,
                    j < s,
                decreases s - j,
            {
                let sq = bu_mul(&x, &x);
                x = bu_mod(&sq, n);
                if bu_eq(&x, &n_minus_1) {
                    composite = false;
                }
                j += 1;
            }
            if composite {
                return false;
            }
        }
        round += 1;
    }
    true
}

/// Sample a probable prime of the given bit length: a 64-bit random value
/// with the top and bottom bits of the candidate forced, retried until the
/// Miller-Rabin test accepts. Returns `None` if no candidate within the
/// attempt bound passes.
pub fn random_prime(bits: usize) -> (r: Option<Vec<u8>>)
    requires
        65 <= bits,
    ensures
        r is Some ==> {
            &&& be_val(r->Some_0@) >= pow2((bits - 1) as nat)
            &&& be_val(r->Some_0@) % 2 == 1
        },
{
    let mut attempts: usize = 0;
    while attempts < 100000
        invariant
            65 <= bits,
        decreases 100000 - attempts,
    {
        let buf = os_random_bytes(8);
        let v = vstd::bytes::u64_from_le_bytes(buf.as_slice());
        let vo = v | 1u64;
        proof {
            assert(vo % 2 == 1 && vo >= 1) by (bit_vector)
                requires
                    vo == v | 1u64,
            ;
        }
        let low = bu_from_u64(vo);
        let top = crate::bigint::bu_pow2(bits - 1);
        let candidate = bu_add(&top, &low);
        proof {
            let t = pow2((bits - 1) as nat);
            vstd::arithmetic::power2::lemma_pow2_pos((bits - 1) as nat);
            vstd::arithmetic::power2::lemma_pow2_adds(1, (bits - 2) as nat);
            vstd::arithmetic::power2::lemma2_to64();
            assert(t == 2 * pow2((bits - 2) as nat));
            assert(be_val(candidate@) == t + vo);
            assert((2 * pow2((bits - 2) as nat) + vo) % 2 == vo % 2) by {
                vstd::arithmetic::div_mod::lemma_mod_multiples_vanish(
                    pow2((bits - 2) as nat) as int,
                    vo as int,
                    2,
                );
            }
        }
        if is_probable_prime(&candidate, 40) {
            return Some(candidate);
        }
        attempts += 1;
    }
    None
}

} // verus!
