//! Byte-string values and helpers shared by every module: the little-endian
//! and big-endian integer value of a byte sequence, appending, comparing and
//! xor-ing byte strings.

use vstd::prelude::*;

verus! {

/// Integer value of a little-endian byte sequence.
pub open spec fn le_val(s: Seq<u8>) -> nat
    decreases s.len(),
{
    if s.len() == 0 {
        0
    } else {
        (s[0] as nat) + 256 * le_val(s.subrange(1, s.len() as int))
    }
}

/// Integer value of a big-endian byte sequence.
pub open spec fn be_val(s: Seq<u8>) -> nat
    decreases s.len(),
{
    if s.len() == 0 {
        0
    } else {
        256 * be_val(s.subrange(0, s.len() - 1)) + (s[s.len() - 1] as nat)
    }
}

/// The low byte of a little-endian value.
pub proof fn lemma_le_val_low_byte(s: Seq<u8>)
    requires
        s.len() >= 1,
    ensures
        le_val(s) % 256 == s[0],
        le_val(s) / 256 == le_val(s.subrange(1, s.len() as int)),
{
    let rest = le_val(s.subrange(1, s.len() as int));
    vstd::arithmetic::div_mod::lemma_mod_multiples_vanish(
        rest as int,
        s[0] as int,
        256,
    );
    vstd::arithmetic::div_mod::lemma_small_mod(s[0] as nat, 256);
    assert(le_val(s) == (s[0] as nat) + 256 * rest);
    assert((256 * (rest as int) + s[0] as int) % 256 == s[0] as int);
    vstd::arithmetic::div_mod::lemma_div_multiples_vanish_fancy(rest as int, s[0] as int, 256);
}

/// On a fixed length, the little-endian value determines the bytes.
pub proof fn lemma_le_val_injective(a: Seq<u8>, b: Seq<u8>)
    requires
        a.len() == b.len(),
        le_val(a) == le_val(b),
    ensures
        a =~= b,
    decreases a.len(),
{
    if a.len() > 0 {
        lemma_le_val_low_byte(a);
        lemma_le_val_low_byte(b);
        lemma_le_val_injective(a.subrange(1, a.len() as int), b.subrange(1, b.len() as int));
        assert(a[0] == b[0]);
        assert forall|j: int| 0 <= j < a.len() implies a[j] == b[j] by {
            if j > 0 {
                assert(a.subrange(1, a.len() as int)[j - 1] == b.subrange(1, b.len() as int)[j
                    - 1]);
            }
        }
    }
}

/// Append a slice to a byte vector.
pub fn push_bytes(out: &mut Vec<u8>, s: &[u8])
    ensures
        final(out)@ == old(out)@ + s@,
{
    let mut i: usize = 0;
    while i < s.len()
        invariant
            i <= s@.len(),
            out@ == old(out)@ + s@.subrange(0, i as int),
        decreases s@.len() - i,
    {
        out.push(s[i]);
        proof {
            assert(out@ =~= old(out)@ + s@.subrange(0, i + 1));
        }
        i += 1;
    }
    proof {
        assert(s@.subrange(0, s@.len() as int) =~= s@);
    }
}

/// Byte-wise equality of two 32-byte strings.
pub fn bytes32_eq(a: &[u8; 32], b: &[u8; 32]) -> (r: bool)
    ensures
        r == (a@ == b@),
{
    let mut i: usize = 0;
    while i < 32
        invariant
            i <= 32,
            forall|j: int| 0 <= j < i ==> a@[j] == b@[j],
        decreases 32 - i,
    {
        if a[i] != b[i] {
            return false;
        }
        i += 1;
    }
    proof {
        assert(a@ =~= b@);
    }
    true
}

/// Byte-wise equality of two byte vectors.
pub fn bytes_eq(a: &[u8], b: &[u8]) -> (r: bool)
    ensures
        r == (a@ == b@),
{
    if a.len() != b.len() {
        return false;
    }
    let mut i: usize = 0;
    while i < a.len()
        invariant
            a@.len() == b@.len(),
            i <= a@.len(),
            forall|j: int| 0 <= j < i ==> a@[j] == b@[j],
        decreases a@.len() - i,
    {
        if a[i] != b[i] {
            return false;
        }
        i += 1;
    }
    proof {
        assert(a@ =~= b@);
    }
    true
}

/// Byte-wise xor of two 32-byte strings.
pub open spec fn xor32(k: Seq<u8>, m: Seq<u8>) -> Seq<u8> {
    Seq::new(32, |j: int| k[j] ^ m[j])
}

/// Xor-ing twice with the same key gives the message back.
pub proof fn lemma_xor32_involution(k: Seq<u8>, m: Seq<u8>)
    requires
        m.len() == 32,
    ensures
        xor32(k, xor32(k, m)) =~= m,
{
    assert forall|j: int| 0 <= j < 32 implies xor32(k, xor32(k, m))[j] == m[j] by {
        let kb = k[j];
        let mb = m[j];
        assert(kb ^ (kb ^ mb) == mb) by (bit_vector);
    }
}

/// Exec xor of two 32-byte strings.
pub fn xor32_exec(k: &[u8; 32], m: &[u8; 32]) -> (r: Vec<u8>)
    ensures
        r@ == xor32(k@, m@),
{
    let mut out: Vec<u8> = Vec::new();
    let mut i: usize = 0;
    while i < 32
        invariant
            i <= 32,
            out@.len() == i,
            forall|j: int| 0 <= j < i ==> out@[j] == (k@[j] ^ m@[j]),
        decreases 32 - i,
    {
        out.push(k[i] ^ m[i]);
        i += 1;
    }
    proof {
        assert(out@ =~= xor32(k@, m@));
    }
    out
}

} // verus!
