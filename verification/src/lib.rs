//! Three-round threshold Schnorr signing over the Ristretto group, with a
//! Pedersen verifiable-combining layer, a timed-release channel for partial
//! signatures (repeated-squaring time-lock with Paillier-style encoding), and
//! a message-bound tracing channel.
//!
//! Scalars of the group are carried as their canonical 32-byte little-endian
//! encodings and specified by their integer value modulo the group order;
//! group elements are carried as their canonical 32-byte compressed encodings.
//! Large naturals of the timed-release channel are carried as big-endian byte
//! strings. All arithmetic of the outside crates is reached through trusted
//! wrappers whose contracts state the exact integer semantics.

pub mod bench;
pub mod bigint;
pub mod bytes;
pub mod checked;
pub mod commitment;
pub mod group;
pub mod hash;
pub mod keygen;
pub mod nizk;
pub mod prime;
pub mod protocol;
pub mod randutil;
pub mod shamir;
pub mod tags;
pub mod timed;
pub mod tracing;
pub mod types;
