//! Arbitrary-precision naturals for the timed-release channel, carried as
//! big-endian byte strings and specified by their integer value `be_val`.
//! Every arithmetic operation is a trusted wrapper around num_bigint with an
//! exact integer contract; outputs are in minimal form (no leading zero byte).

use vstd::arithmetic::power::pow;
use vstd::prelude::*;

use crate::bytes::be_val;

verus! {

/// A minimal big-endian representation: nonempty, with no leading zero byte
/// except for the single byte `0`.
pub open spec fn min_be(v: Seq<u8>) -> bool {
    v.len() >= 1 && (v.len() == 1 || v[0] != 0)
}

/// The value of a byte string is below 256 to its length.
pub proof fn lemma_be_val_upper(v: Seq<u8>)
    ensures
        be_val(v) < pow(256, v.len()),
    decreases v.len(),
{
    vstd::arithmetic::power::lemma_pow_positive(256, v.len());
    if v.len() > 0 {
        lemma_be_val_upper(v.subrange(0, v.len() - 1));
        vstd::arithmetic::power::lemma_pow1(256);
        vstd::arithmetic::power::lemma_pow_adds(256, (v.len() - 1) as nat, 1);
        assert(pow(256, v.len()) == pow(256, (v.len() - 1) as nat) * 256);
    }
}

/// A string with a nonzero leading byte has value at least 256 to one less
/// than its length.
pub proof fn lemma_be_val_lower(v: Seq<u8>)
    requires
        v.len() >= 1,
        v[0] != 0,
    ensures
        be_val(v) >= pow(256, (v.len() - 1) as nat),
    decreases v.len(),
{
    vstd::arithmetic::power::lemma_pow_positive(256, (v.len() - 1) as nat);
    if v.len() == 1 {
        vstd::arithmetic::power::lemma_pow0(256);
        assert(be_val(v) == 256 * be_val(v.subrange(0, 0)) + v[0]);
        lemma_be_val_zero(v.subrange(0, 0));
    } else {
        let head = v.subrange(0, v.len() - 1);
        lemma_be_val_lower(head);
        vstd::arithmetic::power::lemma_pow1(256);
        vstd::arithmetic::power::lemma_pow_adds(256, (v.len() - 2) as nat, 1);
        assert(pow(256, (v.len() - 1) as nat) == pow(256, (v.len() - 2) as nat) * 256);
    }
}

/// Zero bytes in front do not change the value.
pub proof fn lemma_be_val_pad(z: Seq<u8>, v: Seq<u8>)
    requires
        forall|j: int| 0 <= j < z.len() ==> z[j] == 0,
    ensures
        be_val(z + v) == be_val(v),
    decreases v.len(),
{
    if v.len() == 0 {
        lemma_be_val_zero(z + v);
    } else {
        let w = z + v;
        assert(w.subrange(0, w.len() - 1) =~= z + v.subrange(0, v.len() - 1));
        assert(w[w.len() - 1] == v[v.len() - 1]);
        lemma_be_val_pad(z, v.subrange(0, v.len() - 1));
    }
}

/// A string of zero bytes has value zero.
pub proof fn lemma_be_val_zero(v: Seq<u8>)
    requires
        forall|j: int| 0 <= j < v.len() ==> v[j] == 0,
    ensures
        be_val(v) == 0,
    decreases v.len(),
{
    if v.len() > 0 {
        lemma_be_val_zero(v.subrange(0, v.len() - 1));
    }
}

/// Relies on num_bigint's multiplication: exact integer arithmetic, and
/// `to_bytes_be`, the minimal big-endian representation.
#[verifier::external_body]
pub(crate) fn bu_mul(a: &Vec<u8>, b: &Vec<u8>) -> (r: Vec<u8>)
    ensures
        be_val(r@) == be_val(a@) * be_val(b@),
        min_be(r@),
{
    let x = num_bigint::BigUint::from_bytes_be(a) * num_bigint::BigUint::from_bytes_be(b);
    x.to_bytes_be()
}

/// Relies on num_bigint's addition.
#[verifier::external_body]
pub(crate) fn bu_add(a: &Vec<u8>, b: &Vec<u8>) -> (r: Vec<u8>)
    ensures
        be_val(r@) == be_val(a@) + be_val(b@),
        min_be(r@),
{
    let x = num_bigint::BigUint::from_bytes_be(a) + num_bigint::BigUint::from_bytes_be(b);
    x.to_bytes_be()
}

/// Relies on num_bigint's subtraction, which panics on underflow: the
/// precondition rules that out.
#[verifier::external_body]
pub(crate) fn bu_sub(a: &Vec<u8>, b: &Vec<u8>) -> (r: Vec<u8>)
    requires
        be_val(b@) <= be_val(a@),
    ensures
        be_val(r@) == be_val(a@) - be_val(b@),
        min_be(r@),
{
    let x = num_bigint::BigUint::from_bytes_be(a) - num_bigint::BigUint::from_bytes_be(b);
    x.to_bytes_be()
}

/// Relies on num_bigint's Euclidean remainder, which panics on a zero
/// modulus: the precondition rules that out.
#[verifier::external_body]
pub(crate) fn bu_mod(a: &Vec<u8>, m: &Vec<u8>) -> (r: Vec<u8>)
    requires
        be_val(m@) != 0,
    ensures
        be_val(r@) == be_val(a@) % be_val(m@),
        min_be(r@),
{
    let x = num_bigint::BigUint::from_bytes_be(a) % num_bigint::BigUint::from_bytes_be(m);
    x.to_bytes_be()
}

/// Relies on num_bigint's division, which panics on a zero divisor: the
/// precondition rules that out.
#[verifier::external_body]
pub(crate) fn bu_div(a: &Vec<u8>, m: &Vec<u8>) -> (r: Vec<u8>)
    requires
        be_val(m@) != 0,
    ensures
        be_val(r@) == be_val(a@) / be_val(m@),
        min_be(r@),
{
    let x = num_bigint::BigUint::from_bytes_be(a) / num_bigint::BigUint::from_bytes_be(m);
    x.to_bytes_be()
}

/// Relies on BigUint::modpow: `(self ^ exponent) % modulus`, which panics on
/// a zero modulus: the precondition rules that out.
#[verifier::external_body]
pub(crate) fn bu_modpow(b: &Vec<u8>, e: &Vec<u8>, m: &Vec<u8>) -> (r: Vec<u8>)
    requires
        be_val(m@) != 0,
    ensures
        be_val(r@) as int == pow(be_val(b@) as int, be_val(e@)) % (be_val(m@) as int),
        min_be(r@),
{
    let x = num_bigint::BigUint::from_bytes_be(b).modpow(
        &num_bigint::BigUint::from_bytes_be(e),
        &num_bigint::BigUint::from_bytes_be(m),
    );
    x.to_bytes_be()
}

/// `x` inverts `a` modulo `m`.
pub open spec fn is_mod_inverse(a: nat, x: nat, m: nat) -> bool {
    (a * x) % m == 1
}

/// Relies on BigUint::modinv: the inverse in `[0, modulus)` when one exists,
/// which for a modulus above one is exactly when some multiple of `self` is
/// congruent to one.
#[verifier::external_body]
pub(crate) fn bu_modinv(a: &Vec<u8>, m: &Vec<u8>) -> (r: Option<Vec<u8>>)
    requires
        be_val(m@) > 1,
    ensures
        r is None ==> forall|x: nat|
            x < be_val(m@) ==> !#[trigger] is_mod_inverse(be_val(a@), x, be_val(m@)),
        r is Some ==> {
            &&& be_val(r->Some_0@) < be_val(m@)
            &&& is_mod_inverse(be_val(a@), be_val(r->Some_0@), be_val(m@))
            &&& min_be(r->Some_0@)
        },
{
    let x = num_bigint::BigUint::from_bytes_be(a).modinv(&num_bigint::BigUint::from_bytes_be(m));
    x.map(|v| v.to_bytes_be())
}

/// Relies on num_bigint's ordering.
#[verifier::external_body]
pub(crate) fn bu_lt(a: &Vec<u8>, b: &Vec<u8>) -> (r: bool)
    ensures
        r == (be_val(a@) < be_val(b@)),
{
    num_bigint::BigUint::from_bytes_be(a) < num_bigint::BigUint::from_bytes_be(b)
}

/// Relies on num_bigint's equality.
#[verifier::external_body]
pub(crate) fn bu_eq(a: &Vec<u8>, b: &Vec<u8>) -> (r: bool)
    ensures
        r == (be_val(a@) == be_val(b@)),
{
    num_bigint::BigUint::from_bytes_be(a) == num_bigint::BigUint::from_bytes_be(b)
}

/// Relies on num_bigint's right shift by one bit: division by two.
#[verifier::external_body]
pub(crate) fn bu_shr1(a: &Vec<u8>) -> (r: Vec<u8>)
    ensures
        be_val(r@) == be_val(a@) / 2,
        min_be(r@),
{
    let x = num_bigint::BigUint::from_bytes_be(a) >> 1usize;
    x.to_bytes_be()
}

/// Relies on num_bigint's left shift: multiplication by a power of two.
#[verifier::external_body]
pub(crate) fn bu_pow2(k: usize) -> (r: Vec<u8>)
    ensures
        be_val(r@) == vstd::arithmetic::power2::pow2(k as nat),
        min_be(r@),
{
    let x = num_bigint::BigUint::from(1u32) << k;
    x.to_bytes_be()
}

/// Relies on BigUint::from(u64) and `to_bytes_be`.
#[verifier::external_body]
pub(crate) fn bu_from_u64(x: u64) -> (r: Vec<u8>)
    ensures
        be_val(r@) == x as nat,
        min_be(r@),
{
    num_bigint::BigUint::from(x).to_bytes_be()
}

/// Whether the value is zero.
pub fn bu_is_zero(a: &Vec<u8>) -> (r: bool)
    ensures
        r == (be_val(a@) == 0),
{
    let z = bu_from_u64(0);
    bu_eq(a, &z)
}

} // verus!
