// End-to-end tests of the three-round signing protocol and the Pedersen
// verifiable-combining layer.

use threshold_signature::commitment::{
    aggregate_commitments, aggregate_openings, commit_z, derive_h_from_g, verify_aggregate,
};
use threshold_signature::keygen::{kgen, setup};
use threshold_signature::nizk::sig_verify;
use threshold_signature::protocol::{combine, normalize_mu_vec, sig1, sig2, sig3_with_pk, verify};
use threshold_signature::types::{OpeningMessage, PartialSignature, ProtoError, Signature, SignerState};

struct Run {
    par: threshold_signature::types::Params,
    pk_joint: [u8; 32],
    pk_map: Vec<(u32, [u8; 32])>,
    sks: Vec<threshold_signature::types::SecretKeyShare>,
    pks: Vec<threshold_signature::types::PublicKeyShare>,
}

fn make_keys(n: usize, t: usize) -> Run {
    let par = setup(n, t);
    let (pk_joint, pks, sks) = kgen(&par);
    let pk_map: Vec<(u32, [u8; 32])> = (1..=n as u32).map(|i| (i, pks[i as usize - 1].pk_i)).collect();
    Run { par, pk_joint, pk_map, sks, pks }
}

fn run_rounds(
    run: &Run,
    ss: &[u32],
    msg: &[u8],
) -> (Vec<(u32, [u8; 32])>, Vec<OpeningMessage>, Vec<SignerState>) {
    let mut commits: Vec<(u32, [u8; 32])> = Vec::new();
    let mut states = Vec::new();
    for &i in ss {
        let (cm, st) = sig1(&run.par, i, &run.sks[i as usize - 1]);
        commits.push((cm.i, cm.mu_i));
        states.push(st);
    }
    let mut opens = Vec::new();
    let mut states2 = Vec::new();
    for (idx, &i) in ss.iter().enumerate() {
        let (om, st2) = sig2(
            &run.par,
            msg,
            i,
            &commits,
            &run.pks[i as usize - 1],
            &run.sks[i as usize - 1],
            &states[idx],
        );
        opens.push(om);
        states2.push(st2);
    }
    (commits, opens, states2)
}

fn run_sig3(
    run: &Run,
    ss: &[u32],
    msg: &[u8],
    commits: &[(u32, [u8; 32])],
    opens: &[OpeningMessage],
    states2: &[SignerState],
) -> Result<Vec<PartialSignature>, ProtoError> {
    let mut shares = Vec::new();
    for (idx, &i) in ss.iter().enumerate() {
        let ps = sig3_with_pk(
            &run.par,
            msg,
            ss,
            i,
            &run.pk_joint,
            &run.pk_map,
            &run.sks[i as usize - 1],
            &states2[idx],
            commits,
            opens,
        )?;
        shares.push(ps);
    }
    Ok(shares)
}

fn full_signature(run: &Run, ss: &[u32], msg: &[u8]) -> (Signature, Vec<PartialSignature>, Vec<OpeningMessage>) {
    let (commits, opens, states2) = run_rounds(run, ss, msg);
    let shares = run_sig3(run, ss, msg, &commits, &opens, &states2).expect("honest run must sign");
    let sig = combine(ss, &opens, &shares).expect("honest openings decode");
    (sig, shares, opens)
}

#[test]
fn threshold_sign_n4_t2_ss123() {
    let run = make_keys(4, 2);
    let ss = [1u32, 2, 3];
    let msg = b"abc";
    let (sig, _, _) = full_signature(&run, &ss, msg);
    assert!(verify(&run.par, &run.pk_joint, msg, &sig));
}

#[test]
fn threshold_sign_subset_invariance() {
    let run = make_keys(4, 2);
    let msg = b"abc";
    let (sig_a, _, _) = full_signature(&run, &[1u32, 2, 3], msg);
    let (sig_b, _, _) = full_signature(&run, &[1u32, 2, 4], msg);
    assert!(verify(&run.par, &run.pk_joint, msg, &sig_a));
    assert!(verify(&run.par, &run.pk_joint, msg, &sig_b));
    // fresh nonces and a different subset: a different signature
    assert!(sig_a.a_hat != sig_b.a_hat || sig_a.z != sig_b.z);
}

#[test]
fn threshold_sign_minimal_quorum() {
    let run = make_keys(2, 1);
    let msg = b"minimal quorum";
    let (sig, _, _) = full_signature(&run, &[1u32, 2], msg);
    assert!(verify(&run.par, &run.pk_joint, msg, &sig));
}

#[test]
fn threshold_sign_all_but_one() {
    let run = make_keys(4, 3);
    let msg = b"t = n - 1";
    let (sig, _, _) = full_signature(&run, &[1u32, 2, 3, 4], msg);
    assert!(verify(&run.par, &run.pk_joint, msg, &sig));
}

#[test]
fn tampered_mu_rejected_with_offender_id() {
    let run = make_keys(4, 2);
    let ss = [1u32, 2, 3];
    let msg = b"abc";
    // round 1
    let mut commits: Vec<(u32, [u8; 32])> = Vec::new();
    let mut states = Vec::new();
    for &i in &ss {
        let (cm, st) = sig1(&run.par, i, &run.sks[i as usize - 1]);
        commits.push((cm.i, cm.mu_i));
        states.push(st);
    }
    // the adversary flips a bit of signer 2's commitment before round 2
    commits[1].1[0] ^= 1;
    let mut opens = Vec::new();
    let mut states2 = Vec::new();
    for (idx, &i) in ss.iter().enumerate() {
        let (om, st2) = sig2(
            &run.par,
            msg,
            i,
            &commits,
            &run.pks[i as usize - 1],
            &run.sks[i as usize - 1],
            &states[idx],
        );
        opens.push(om);
        states2.push(st2);
    }
    let r = run_sig3(&run, &ss, msg, &commits, &opens, &states2);
    assert_eq!(r.unwrap_err(), ProtoError::ProtocolViolation { i: 2 });
}

#[test]
fn verify_rejects_wrong_message() {
    let run = make_keys(4, 2);
    let (sig, _, _) = full_signature(&run, &[1u32, 2, 3], b"abc");
    assert!(!verify(&run.par, &run.pk_joint, b"abd", &sig));
}

#[test]
fn nizk_bit_flips_rejected() {
    let run = make_keys(4, 2);
    let ss = [1u32, 2, 3];
    let msg = b"abc";
    let (commits, opens, states2) = run_rounds(&run, &ss, msg);
    let st = &states2[0];
    let om = &opens[0];
    let pk1 = run.pks[0].pk_i;
    // the honest proof verifies
    assert!(sig_verify(&run.par, &pk1, &om.a_point, &om.b_point, &st.g0, &st.g1, &om.rho_i, &om.proof));
    let _ = commits;
    // flipping any single bit of any proof component is rejected
    for field in 0..7 {
        for byte in [0usize, 15, 31] {
            for bit in 0..8 {
                let mut pf = om.proof.clone();
                let target = match field {
                    0 => &mut pf.xa,
                    1 => &mut pf.xb,
                    2 => &mut pf.xpk,
                    3 => &mut pf.za,
                    4 => &mut pf.zs,
                    5 => &mut pf.zr,
                    _ => &mut pf.zu,
                };
                target[byte] ^= 1u8 << bit;
                assert!(
                    !sig_verify(&run.par, &pk1, &om.a_point, &om.b_point, &st.g0, &st.g1, &om.rho_i, &pf),
                    "flipped proof accepted"
                );
            }
        }
    }
}

#[test]
fn malformed_opening_point_rejected() {
    let run = make_keys(4, 2);
    let ss = [1u32, 2, 3];
    let msg = b"abc";
    let (commits, mut opens, states2) = run_rounds(&run, &ss, msg);
    // a non-canonical encoding never decodes
    opens[2].b_point = [0xffu8; 32];
    let r = run_sig3(&run, &ss, msg, &commits, &opens, &states2);
    assert_eq!(r.unwrap_err(), ProtoError::Malformed { i: 3 });
}

#[test]
fn combine_rejects_malformed_nonce_point() {
    let run = make_keys(4, 2);
    let ss = [1u32, 2, 3];
    let msg = b"abc";
    let (sig, shares, mut opens) = full_signature(&run, &ss, msg);
    let _ = sig;
    opens[0].a_point = [0xffu8; 32];
    let r = combine(&ss, &opens, &shares);
    assert_eq!(r.unwrap_err(), ProtoError::Malformed { i: 1 });
}

#[test]
fn normalize_mu_vec_sorts_by_id() {
    let mu = [(3u32, [3u8; 32]), (1u32, [1u8; 32]), (2u32, [2u8; 32])];
    let sorted = normalize_mu_vec(&mu);
    assert_eq!(sorted[0].0, 1);
    assert_eq!(sorted[1].0, 2);
    assert_eq!(sorted[2].0, 3);
    assert_eq!(sorted[0].1, [1u8; 32]);
}

#[test]
fn pedersen_aggregate_verifies_and_binds() {
    let run = make_keys(4, 2);
    let ss = [1u32, 2, 3];
    let msg = b"abc";
    let (sig, shares, _) = full_signature(&run, &ss, msg);
    assert!(verify(&run.par, &run.pk_joint, msg, &sig));

    let h_vc = derive_h_from_g(&run.par.g);
    let mut cms = Vec::new();
    let mut ops = Vec::new();
    for ps in &shares {
        let (cm, op) = commit_z(ps.i, &run.par.g, &h_vc, &ps.z_i);
        cms.push(cm);
        ops.push(op);
    }
    let c_agg = aggregate_commitments(&cms).expect("commitments decode");
    let r_agg = aggregate_openings(&ops);
    assert!(verify_aggregate(&run.par.g, &h_vc, &c_agg, &sig.z, &r_agg));

    // flipping any byte of the aggregate opening breaks it
    for byte in 0..32 {
        let mut bad = r_agg;
        bad[byte] ^= 0x5a;
        assert!(!verify_aggregate(&run.par.g, &h_vc, &c_agg, &sig.z, &bad));
    }
}

#[test]
fn pedersen_partition_homomorphism() {
    // any partition of z into summands with known openings verifies in
    // aggregate
    let run = make_keys(2, 1);
    let g = run.par.g;
    let h_vc = derive_h_from_g(&g);
    let zs: Vec<[u8; 32]> = (1..=5u64)
        .map(threshold_signature::group::scalar_from_u64)
        .collect();
    let mut cms = Vec::new();
    let mut ops = Vec::new();
    for (k, z) in zs.iter().enumerate() {
        let (cm, op) = commit_z(k as u32, &g, &h_vc, z);
        cms.push(cm);
        ops.push(op);
    }
    let c_agg = aggregate_commitments(&cms).expect("commitments decode");
    let r_agg = aggregate_openings(&ops);
    // 1 + 2 + 3 + 4 + 5 == 15
    let z_sum = threshold_signature::group::scalar_from_u64(15);
    assert!(verify_aggregate(&g, &h_vc, &c_agg, &z_sum, &r_agg));
}

#[test]
fn pedersen_partition_law_on_values() {
    let run = make_keys(2, 1);
    let g = run.par.g;
    let h_vc = derive_h_from_g(&g);
    let zs: Vec<[u8; 32]> = [10u64, 20, 12]
        .iter()
        .map(|&v| threshold_signature::group::scalar_from_u64(v))
        .collect();
    let rs: Vec<[u8; 32]> = [3u64, 1, 7]
        .iter()
        .map(|&v| threshold_signature::group::scalar_from_u64(v))
        .collect();
    assert!(threshold_signature::commitment::partition_aggregate_verifies(&g, &h_vc, &zs, &rs));
}
