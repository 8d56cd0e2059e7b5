// Tests of the timed-release and tracing channels, the hash oracles'
// domain separation, and the probable-prime sampler.

use num_bigint::BigUint;

use threshold_signature::hash::{derive_generator, f0, f1, g0, g1, hcom, hfs, hsig};
use threshold_signature::prime::{is_probable_prime, random_prime};
use threshold_signature::timed::{derive_h, timed_decrypt, timed_encrypt, TimedParams};
use threshold_signature::tracing::{
    admitter_issue_token, setup_admitter, trace_decrypt, trace_encrypt,
};

/// Two fixed odd 1024-bit factors (no particular structure beyond being odd
/// and coprime to two); their product is a 2048-bit modulus. Correct
/// decryption needs only an odd modulus and a base from its unit group.
fn timed_params_2048(t: u64) -> TimedParams {
    let mut pb = vec![0u8; 128];
    let mut qb = vec![0u8; 128];
    for j in 0..128usize {
        pb[j] = (j as u8).wrapping_mul(37).wrapping_add(11);
        qb[j] = (j as u8).wrapping_mul(59).wrapping_add(29);
    }
    pb[0] |= 0x80;
    qb[0] |= 0x80;
    pb[127] |= 1;
    qb[127] |= 1;
    let p = BigUint::from_bytes_be(&pb);
    let q = BigUint::from_bytes_be(&qb);
    let n = (&p * &q).to_bytes_be();
    assert_eq!(n.len(), 256);
    let g = vec![2u8];
    let h = derive_h(&n, &g, t);
    TimedParams { n, g, h, t }
}

#[test]
fn timed_roundtrip_2048_bit_modulus() {
    let pp = timed_params_2048(16);
    let s: Vec<u8> = (1u8..=32).collect();
    let ct = timed_encrypt(&pp, &s, b"timed-z");
    let out = timed_decrypt(&pp, &ct, b"timed-z").expect("round trip");
    assert_eq!(out, s);
}

#[test]
fn timed_aad_mismatch_gives_none() {
    let pp = timed_params_2048(16);
    let s: Vec<u8> = (1u8..=32).collect();
    let ct = timed_encrypt(&pp, &s, b"timed-z");
    assert!(timed_decrypt(&pp, &ct, b"wrong").is_none());
}

#[test]
fn timed_roundtrip_small_plaintext() {
    let pp = timed_params_2048(4);
    let s = vec![0x07u8];
    let ct = timed_encrypt(&pp, &s, b"");
    let out = timed_decrypt(&pp, &ct, b"").expect("round trip");
    assert_eq!(out.len(), 32);
    assert_eq!(&out[..31], &[0u8; 31]);
    assert_eq!(out[31], 0x07);
}

#[test]
fn trace_roundtrip_same_message() {
    let ad = setup_admitter();
    let tok = admitter_issue_token(&ad, b"hello");
    let share: Vec<u8> = (0u8..32).collect();
    let ct = trace_encrypt(&tok, &share, b"");
    let out = trace_decrypt(&tok, &ct).expect("hash matches");
    assert_eq!(out, share);
}

#[test]
fn trace_token_is_message_bound() {
    let ad = setup_admitter();
    let tok_hello = admitter_issue_token(&ad, b"hello");
    let tok_world = admitter_issue_token(&ad, b"world");
    let share: Vec<u8> = (0u8..32).collect();
    let ct_world = trace_encrypt(&tok_world, &share, b"");
    assert!(trace_decrypt(&tok_hello, &ct_world).is_none());
}

#[test]
fn hash_oracles_are_domain_separated() {
    let rho = [7u8; 32];
    assert_ne!(f0(&rho), f1(&rho));

    let mus = [(1u32, [1u8; 32]), (2u32, [2u8; 32])];
    assert_ne!(g0(b"m", &mus), g1(b"m", &mus));
    assert_ne!(g0(b"m", &mus), f0(&rho));

    assert_ne!(derive_generator(b"h"), derive_generator(b"v"));

    let p = [9u8; 32];
    // Hsig and HFS read overlapping transcripts but distinct tags
    let c1 = hsig(&p, &p, b"");
    let c2 = hfs(&p, &p, &p, &p, &p, &p, &p, &p, &[0u8; 32]);
    assert_ne!(c1, c2);

    let mu_a = hcom(1, &rho, &p);
    let mu_b = hcom(2, &rho, &p);
    assert_ne!(mu_a, mu_b);
}

#[test]
fn probable_prime_sampler() {
    let p = random_prime(80).expect("a prime within the attempt bound");
    assert!(is_probable_prime(&p, 10));
    assert_eq!(p[p.len() - 1] & 1, 1);
    // the top bit of an 80-bit candidate is forced
    assert!(p.len() == 10 && p[0] >= 0x80);

    let two = vec![2u8];
    let three = vec![3u8];
    let four = vec![4u8];
    let nine = vec![9u8];
    assert!(is_probable_prime(&two, 10));
    assert!(is_probable_prime(&three, 10));
    assert!(!is_probable_prime(&four, 10));
    assert!(!is_probable_prime(&nine, 10));
}
