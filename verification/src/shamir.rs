//! Shamir secret sharing over the scalar field: degree-t polynomials, point
//! evaluation, and Lagrange coefficients at x = 0.

use vstd::arithmetic::div_mod::{
    lemma_add_mod_noop_right, lemma_mod_add_multiples_vanish, lemma_mul_mod_noop_general,
    lemma_small_mod,
};
use vstd::arithmetic::mul::lemma_mul_is_associative;
use vstd::prelude::*;

use crate::bytes::le_val;
use crate::group::{
    ell, is_scalar, scalar_add, scalar_from_u64, scalar_invert, scalar_mul, scalar_sub,
};
use crate::randutil::random_scalar;

verus! {

/// A polynomial over the scalar field, by its coefficients `[c0, ..., ct]`.
#[derive(Clone, Debug)]
pub struct Poly {
    pub coeffs: Vec<[u8; 32]>,
}

/// The integer values of a sequence of scalar encodings.
pub open spec fn scalar_vals(cs: Seq<[u8; 32]>) -> Seq<nat> {
    cs.map_values(|c: [u8; 32]| le_val(c@))
}

/// Value of the polynomial with coefficients `c` (constant term first) at
/// `x`, modulo the group order, by Horner's rule.
pub open spec fn poly_eval(c: Seq<nat>, x: nat) -> nat
    decreases c.len(),
{
    if c.len() == 0 {
        0
    } else {
        (c[0] + x * poly_eval(c.subrange(1, c.len() as int), x)) % ell()
    }
}

impl Poly {
    /// Every coefficient is a canonical scalar encoding.
    pub open spec fn wf(&self) -> bool {
        forall|j: int| 0 <= j < self.coeffs@.len() ==> is_scalar(#[trigger] self.coeffs@[j]@)
    }

    /// Evaluate the polynomial at `x`.
    pub fn eval(&self, x: &[u8; 32]) -> (r: [u8; 32])
        requires
            self.wf(),
            is_scalar(x@),
        ensures
            is_scalar(r@),
            le_val(r@) == poly_eval(scalar_vals(self.coeffs@), le_val(x@)),
    {
        let ghost vals = scalar_vals(self.coeffs@);
        let ghost n = self.coeffs@.len() as int;
        let mut acc = scalar_from_u64(0);
        proof {
            assert(vals.subrange(n, n) =~= Seq::<nat>::empty());
        }
        let mut k: usize = self.coeffs.len();
        while k > 0
            invariant
                self.wf(),
                is_scalar(x@),
                is_scalar(acc@),
                k <= self.coeffs@.len(),
                vals == scalar_vals(self.coeffs@),
                n == self.coeffs@.len() as int,
                le_val(acc@) == poly_eval(vals.subrange(k as int, n), le_val(x@)),
            decreases k,
        {
            k -= 1;
            let t = scalar_mul(x, &acc);
            let c = self.coeffs[k];
            let ghost old_acc = le_val(acc@);
            acc = scalar_add(&c, &t);
            proof {
                let xv = le_val(x@);
                let tail = vals.subrange(k + 1, n);
                let whole = vals.subrange(k as int, n);
                assert(whole[0] == vals[k as int]);
                assert(whole.subrange(1, whole.len() as int) =~= tail);
                assert(vals[k as int] == le_val(self.coeffs@[k as int]@));
                assert(is_scalar(self.coeffs@[k as int]@));
                // (c + (x*acc) % ell) % ell == (c + x*acc) % ell
                lemma_add_mod_noop_right(
                    le_val(c@) as int,
                    (xv * old_acc) as int,
                    ell() as int,
                );
                assert(le_val(acc@) == poly_eval(whole, xv));
            }
        }
        proof {
            assert(vals.subrange(0, n) =~= vals);
        }
        acc
    }
}

/// A uniformly random polynomial of degree `t` with chosen constant term.
pub fn sample_poly_with_constant(t: usize, c0: &[u8; 32]) -> (r: Poly)
    requires
        is_scalar(c0@),
        t < usize::MAX,
    ensures
        r.wf(),
        r.coeffs@.len() == t + 1,
        r.coeffs@[0]@ == c0@,
{
    let mut coeffs: Vec<[u8; 32]> = Vec::new();
    coeffs.push(*c0);
    let mut j: usize = 0;
    while j < t
        invariant
            is_scalar(c0@),
            j <= t,
            coeffs@.len() == j + 1,
            coeffs@[0]@ == c0@,
            forall|m: int| 0 <= m < coeffs@.len() ==> is_scalar(#[trigger] coeffs@[m]@),
        decreases t - j,
    {
        coeffs.push(random_scalar());
        j += 1;
    }
    Poly { coeffs }
}

/// Product modulo the group order of the ids `k` of `ss` other than `i`.
pub open spec fn lagrange_num(i: u32, ss: Seq<u32>) -> nat
    decreases ss.len(),
{
    if ss.len() == 0 {
        1
    } else if ss.last() == i {
        lagrange_num(i, ss.drop_last())
    } else {
        (lagrange_num(i, ss.drop_last()) * (ss.last() as nat)) % ell()
    }
}

/// Product modulo the group order of the differences `k - i` for the ids `k`
/// of `ss` other than `i`.
pub open spec fn lagrange_den(i: u32, ss: Seq<u32>) -> nat
    decreases ss.len(),
{
    if ss.len() == 0 {
        1
    } else if ss.last() == i {
        lagrange_den(i, ss.drop_last())
    } else {
        (lagrange_den(i, ss.drop_last()) * ((((ss.last() as int) - (i as int)) % (
        ell() as int)) as nat)) % ell()
    }
}

/// The difference of two distinct ids is nonzero modulo the group order.
proof fn lemma_id_diff_nonzero(k: u32, i: u32)
    requires
        k != i,
    ensures
        ((k as int - i as int) % (ell() as int)) != 0,
        0 <= (k as int - i as int) % (ell() as int) < ell() as int,
{
    let d = k as int - i as int;
    let m = ell() as int;
    if d > 0 {
        lemma_small_mod(d as nat, ell());
    } else {
        lemma_mod_add_multiples_vanish(d, m);
        lemma_small_mod((d + m) as nat, ell());
    }
}

/// Lagrange coefficient `L_{i,SS} = prod_{k in SS, k != i} k / (k - i)`.
///
/// The result is the unique scalar whose product with the (nonzero)
/// denominator product equals the numerator product.
pub fn lagrange_coeff(i: u32, ss: &[u32]) -> (r: [u8; 32])
    requires
        forall|j: int| 0 <= j < ss@.len() ==> 1 <= #[trigger] ss@[j],
    ensures
        is_scalar(r@),
        lagrange_den(i, ss@) != 0,
        (le_val(r@) * lagrange_den(i, ss@)) % ell() == lagrange_num(i, ss@),
{
    let i_s = scalar_from_u64(i as u64);
    let mut num = scalar_from_u64(1);
    let mut den = scalar_from_u64(1);
    let mut j: usize = 0;
    proof {
        assert(ss@.subrange(0, 0) =~= Seq::<u32>::empty());
    }
    while j < ss.len()
        invariant
            forall|m: int| 0 <= m < ss@.len() ==> 1 <= #[trigger] ss@[m],
            j <= ss@.len(),
            is_scalar(num@),
            is_scalar(den@),
            le_val(i_s@) == i as nat,
            le_val(num@) == lagrange_num(i, ss@.subrange(0, j as int)),
            le_val(den@) == lagrange_den(i, ss@.subrange(0, j as int)),
            le_val(den@) != 0,
        decreases ss@.len() - j,
    {
        let k = ss[j];
        proof {
            assert(ss@.subrange(0, j + 1).drop_last() =~= ss@.subrange(0, j as int));
            assert(ss@.subrange(0, j + 1).last() == ss@[j as int]);
        }
        if k != i {
            let k_s = scalar_from_u64(k as u64);
            let dterm = scalar_sub(&k_s, &i_s);
            proof {
                lemma_id_diff_nonzero(k, i);
                assert(le_val(dterm@) != 0);
                lemma_small_mod(le_val(num@), ell());
                lemma_small_mod(le_val(den@), ell());
                lemma_small_mod(le_val(dterm@), ell());
                lemma_small_mod(k as nat, ell());
                assert(k as nat % ell() != 0);
            }
            num = scalar_mul(&num, &k_s);
            den = scalar_mul(&den, &dterm);
        }
        j += 1;
    }
    proof {
        assert(ss@.subrange(0, ss@.len() as int) =~= ss@);
    }
    let dinv = scalar_invert(&den);
    let r = scalar_mul(&num, &dinv);
    proof {
        let m = ell() as int;
        let nv = le_val(num@) as int;
        let dv = le_val(den@) as int;
        let iv = le_val(dinv@) as int;
        let rv = le_val(r@) as int;
        // rv == (nv * iv) % m and (iv * dv) % m == 1
        lemma_mul_mod_noop_general(nv * iv, dv, m);
        lemma_mul_is_associative(nv, iv, dv);
        lemma_mul_mod_noop_general(nv, iv * dv, m);
        lemma_small_mod(le_val(num@), ell());
        assert((rv * dv) % m == nv);
    }
    r
}

} // verus!
