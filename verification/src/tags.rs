//! Domain-separation tags, as byte strings. The tag set is part of the wire
//! contract: every oracle prefixes its own tag, and no tag agrees with another
//! wherever both are defined, so no two oracles ever hash the same string.

use vstd::prelude::*;

verus! {

/// `"Hcom"`, the outer domain of the commitment oracle.
pub open spec fn tag_hcom_outer() -> Seq<u8> {
    seq![0x48u8, 0x63u8, 0x6fu8, 0x6du8]
}

/// `"Gargos::Hcom"`, the transcript prefix of the commitment oracle.
pub open spec fn tag_hcom_inner() -> Seq<u8> {
    seq![0x47u8, 0x61u8, 0x72u8, 0x67u8, 0x6fu8, 0x73u8, 0x3au8, 0x3au8, 0x48u8, 0x63u8, 0x6fu8, 0x6du8]
}

/// `"Gargos::F0"`.
pub open spec fn tag_f0() -> Seq<u8> {
    seq![0x47u8, 0x61u8, 0x72u8, 0x67u8, 0x6fu8, 0x73u8, 0x3au8, 0x3au8, 0x46u8, 0x30u8]
}

/// `"Gargos::F1"`.
pub open spec fn tag_f1() -> Seq<u8> {
    seq![0x47u8, 0x61u8, 0x72u8, 0x67u8, 0x6fu8, 0x73u8, 0x3au8, 0x3au8, 0x46u8, 0x31u8]
}

/// `"Gargos::G0"`.
pub open spec fn tag_g0() -> Seq<u8> {
    seq![0x47u8, 0x61u8, 0x72u8, 0x67u8, 0x6fu8, 0x73u8, 0x3au8, 0x3au8, 0x47u8, 0x30u8]
}

/// `"Gargos::G1"`.
pub open spec fn tag_g1() -> Seq<u8> {
    seq![0x47u8, 0x61u8, 0x72u8, 0x67u8, 0x6fu8, 0x73u8, 0x3au8, 0x3au8, 0x47u8, 0x31u8]
}

/// `"Gargos::Hsig"`.
pub open spec fn tag_hsig() -> Seq<u8> {
    seq![0x47u8, 0x61u8, 0x72u8, 0x67u8, 0x6fu8, 0x73u8, 0x3au8, 0x3au8, 0x48u8, 0x73u8, 0x69u8, 0x67u8]
}

/// `"Gargos::HFS"`.
pub open spec fn tag_hfs() -> Seq<u8> {
    seq![0x47u8, 0x61u8, 0x72u8, 0x67u8, 0x6fu8, 0x73u8, 0x3au8, 0x3au8, 0x48u8, 0x46u8, 0x53u8]
}

/// `"Gargos::Gen"`.
pub open spec fn tag_gen() -> Seq<u8> {
    seq![0x47u8, 0x61u8, 0x72u8, 0x67u8, 0x6fu8, 0x73u8, 0x3au8, 0x3au8, 0x47u8, 0x65u8, 0x6eu8]
}

/// `"VC::derive_h_from_g"`, the domain of the Pedersen generator derivation.
pub open spec fn tag_vc() -> Seq<u8> {
    seq![0x56u8, 0x43u8, 0x3au8, 0x3au8, 0x64u8, 0x65u8, 0x72u8, 0x69u8, 0x76u8, 0x65u8, 0x5fu8, 0x68u8, 0x5fu8, 0x66u8, 0x72u8, 0x6fu8, 0x6du8, 0x5fu8, 0x67u8]
}

/// Push `"Hcom"`.
pub fn push_tag_hcom_outer(v: &mut Vec<u8>)
    ensures
        final(v)@ == old(v)@ + tag_hcom_outer(),
{
    v.push(0x48);
    v.push(0x63);
    v.push(0x6f);
    v.push(0x6d);
    proof {
        assert(v@ =~= old(v)@ + tag_hcom_outer());
    }
}

/// Push `"Gargos::"`.
fn push_gargos(v: &mut Vec<u8>)
    ensures
        final(v)@ == old(v)@ + seq![
            0x47u8,
            0x61u8,
            0x72u8,
            0x67u8,
            0x6fu8,
            0x73u8,
            0x3au8,
            0x3au8,
        ],
{
    v.push(0x47);
    v.push(0x61);
    v.push(0x72);
    v.push(0x67);
    v.push(0x6f);
    v.push(0x73);
    v.push(0x3a);
    v.push(0x3a);
    proof {
        assert(v@ =~= old(v)@ + seq![
            0x47u8,
            0x61u8,
            0x72u8,
            0x67u8,
            0x6fu8,
            0x73u8,
            0x3au8,
            0x3au8,
        ]);
    }
}

/// Push `"Gargos::Hcom"`.
pub fn push_tag_hcom_inner(v: &mut Vec<u8>)
    ensures
        final(v)@ == old(v)@ + tag_hcom_inner(),
{
    push_gargos(v);
    v.push(0x48);
    v.push(0x63);
    v.push(0x6f);
    v.push(0x6d);
    proof {
        assert(v@ =~= old(v)@ + tag_hcom_inner());
    }
}

/// Push `"Gargos::F0"`.
pub fn push_tag_f0(v: &mut Vec<u8>)
    ensures
        final(v)@ == old(v)@ + tag_f0(),
{
    push_gargos(v);
    v.push(0x46);
    v.push(0x30);
    proof {
        assert(v@ =~= old(v)@ + tag_f0());
    }
}

/// Push `"Gargos::F1"`.
pub fn push_tag_f1(v: &mut Vec<u8>)
    ensures
        final(v)@ == old(v)@ + tag_f1(),
{
    push_gargos(v);
    v.push(0x46);
    v.push(0x31);
    proof {
        assert(v@ =~= old(v)@ + tag_f1());
    }
}

/// Push `"Gargos::G0"`.
pub fn push_tag_g0(v: &mut Vec<u8>)
    ensures
        final(v)@ == old(v)@ + tag_g0(),
{
    push_gargos(v);
    v.push(0x47);
    v.push(0x30);
    proof {
        assert(v@ =~= old(v)@ + tag_g0());
    }
}

/// Push `"Gargos::G1"`.
pub fn push_tag_g1(v: &mut Vec<u8>)
    ensures
        final(v)@ == old(v)@ + tag_g1(),
{
    push_gargos(v);
    v.push(0x47);
    v.push(0x31);
    proof {
        assert(v@ =~= old(v)@ + tag_g1());
    }
}

/// Push `"Gargos::Hsig"`.
pub fn push_tag_hsig(v: &mut Vec<u8>)
    ensures
        final(v)@ == old(v)@ + tag_hsig(),
{
    push_gargos(v);
    v.push(0x48);
    v.push(0x73);
    v.push(0x69);
    v.push(0x67);
    proof {
        assert(v@ =~= old(v)@ + tag_hsig());
    }
}

/// Push `"Gargos::HFS"`.
pub fn push_tag_hfs(v: &mut Vec<u8>)
    ensures
        final(v)@ == old(v)@ + tag_hfs(),
{
    push_gargos(v);
    v.push(0x48);
    v.push(0x46);
    v.push(0x53);
    proof {
        assert(v@ =~= old(v)@ + tag_hfs());
    }
}

/// Push `"Gargos::Gen"`.
pub fn push_tag_gen(v: &mut Vec<u8>)
    ensures
        final(v)@ == old(v)@ + tag_gen(),
{
    push_gargos(v);
    v.push(0x47);
    v.push(0x65);
    v.push(0x6e);
    proof {
        assert(v@ =~= old(v)@ + tag_gen());
    }
}

/// Push `"VC::derive_h_from_g"`.
pub fn push_tag_vc(v: &mut Vec<u8>)
    ensures
        final(v)@ == old(v)@ + tag_vc(),
{
    v.push(0x56);
    v.push(0x43);
    v.push(0x3a);
    v.push(0x3a);
    v.push(0x64);
    v.push(0x65);
    v.push(0x72);
    v.push(0x69);
    v.push(0x76);
    v.push(0x65);
    v.push(0x5f);
    v.push(0x68);
    v.push(0x5f);
    v.push(0x66);
    v.push(0x72);
    v.push(0x6f);
    v.push(0x6d);
    v.push(0x5f);
    v.push(0x67);
    proof {
        assert(v@ =~= old(v)@ + tag_vc());
    }
}

} // verus!
