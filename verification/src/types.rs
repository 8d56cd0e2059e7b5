//! Data carried between the rounds of the protocol, and the error type.
//!
//! Scalars and group elements are carried in their canonical 32-byte
//! encodings, so every message type is a plain byte structure whose wire
//! layout is exactly its fields in order.

use vstd::prelude::*;

use crate::bytes::le_val;
use crate::group::{is_point_enc, is_scalar};

verus! {

/// Public parameters: counts and the three independent generators.
#[derive(Clone)]
pub struct Params {
    pub n: usize,
    pub t: usize,
    pub g: [u8; 32],
    pub h: [u8; 32],
    pub v: [u8; 32],
}

impl Params {
    /// The three generators are canonical encodings of group elements.
    pub open spec fn wf(&self) -> bool {
        is_point_enc(self.g@) && is_point_enc(self.h@) && is_point_enc(self.v@)
    }
}

/// Secret share of signer i: the values of the three polynomials at i.
#[derive(Clone, Debug)]
pub struct SecretKeyShare {
    pub s: [u8; 32],
    pub r: [u8; 32],
    pub u: [u8; 32],
}

impl SecretKeyShare {
    /// All three components are canonical scalar encodings.
    pub open spec fn wf(&self) -> bool {
        is_scalar(self.s@) && is_scalar(self.r@) && is_scalar(self.u@)
    }
}

/// Public share of signer i: `pk_i = g*s_i + h*r_i + v*u_i`.
#[derive(Clone, Debug)]
pub struct PublicKeyShare {
    pub pk_i: [u8; 32],
}

/// Round-1 message: `(i, mu_i)` with `mu_i = Hcom(i, rho_i, B_i)`.
#[derive(Clone, Debug)]
pub struct CommitmentMessage {
    pub i: u32,
    pub mu_i: [u8; 32],
}

/// Round-2 message: the opening of the commitment together with its proof.
/// `a_i` is local-only material kept for layout symmetry; it is not read by
/// any verifier.
#[derive(Clone, Debug)]
pub struct OpeningMessage {
    pub i: u32,
    pub a_i: [u8; 32],
    pub a_point: [u8; 32],
    pub rho_i: [u8; 32],
    pub b_point: [u8; 32],
    pub proof: crate::nizk::Proof,
}

/// Round-3 output of signer i: `(i, z_i)`.
#[derive(Clone, Debug)]
pub struct PartialSignature {
    pub i: u32,
    pub z_i: [u8; 32],
}

/// A Schnorr signature `(A_hat, z)`.
#[derive(Clone, Debug)]
pub struct Signature {
    pub a_hat: [u8; 32],
    pub z: [u8; 32],
}

impl Signature {
    /// Both components are canonical encodings.
    pub open spec fn wf(&self) -> bool {
        is_point_enc(self.a_hat@) && is_scalar(self.z@)
    }
}

/// Ephemeral state a signer keeps across the rounds of one signing attempt.
/// It holds the secret nonce; it must not outlive the attempt.
#[derive(Clone, Debug)]
pub struct SignerState {
    pub i: u32,
    pub a_i: [u8; 32],
    pub rho_i: [u8; 32],
    pub b_i: [u8; 32],
    pub a_i_point: [u8; 32],
    pub mu_vec: Vec<(u32, [u8; 32])>,
    pub g0: [u8; 32],
    pub g1: [u8; 32],
}

impl SignerState {
    /// The nonce is a canonical scalar and the cached points are canonical
    /// encodings.
    pub open spec fn wf(&self) -> bool {
        is_scalar(self.a_i@) && is_point_enc(self.b_i@) && is_point_enc(self.a_i_point@)
            && is_point_enc(self.g0@) && is_point_enc(self.g1@)
    }
}

/// A partial signature wrapped in its timed-release ciphertext.
#[derive(Clone, Debug)]
pub struct TimedShare {
    pub i: u32,
    pub timed: crate::timed::TimedCiphertext,
}

/// Public verifiable-combining commitment message (`C_i` only; the opening
/// `r_i` must not be carried in public messages).
#[derive(Clone, Debug)]
pub struct VerifiableCommitmentMsg {
    pub i: u32,
    pub c_i: [u8; 32],
}

/// A partial signature wrapped in its tracing ciphertext.
#[derive(Clone, Debug)]
pub struct TracingBundle {
    pub trace_ct: crate::tracing::TraceCiphertext,
}

/// Why a round aborted. Every abort identifies the signer responsible.
#[derive(Clone, Copy, Debug, PartialEq, Eq, Structural)]
pub enum ProtoError {
    /// A point encoding of signer `i` failed to decode.
    Malformed { i: u32 },
    /// Signer `i` broke the protocol: its commitment does not open, its proof
    /// does not verify, or it is missing from a vector it must appear in.
    ProtocolViolation { i: u32 },
}

impl ProtoError {
    /// The id of the signer the error charges.
    pub fn offender(&self) -> (r: u32)
        ensures
            r == self.spec_offender(),
    {
        match self {
            ProtoError::Malformed { i } => *i,
            ProtoError::ProtocolViolation { i } => *i,
        }
    }

    /// The id of the signer the error charges.
    pub open spec fn spec_offender(&self) -> u32 {
        match self {
            ProtoError::Malformed { i } => *i,
            ProtoError::ProtocolViolation { i } => *i,
        }
    }
}

} // verus!
