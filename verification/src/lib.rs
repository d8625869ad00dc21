//! Non-interactive Schnorr proofs of knowledge of a discrete logarithm over
//! secp256k1, bound to a session and a participant through the Fiat-Shamir
//! challenge.
//!
//! A prover who knows `x` with `y = base * x` draws a nonce `r`, commits to
//! `t = base * r`, derives the challenge `c` by hashing the session id, the
//! participant id, `base`, `y` and `t`, and answers with `s = r + c * x`. The
//! verifier derives `c` again and accepts when `base * s == t + y * c`.
//!
//! - [`dlog`] holds the protocol: [`dlog::DLogProof`] and
//!   [`dlog::DiscreteLogProof`].
//! - [`transcript`] lays out the bytes that are hashed, and proves that they
//!   tell sessions, participants and lists of points apart.
//! - [`scalar`] and [`point`] hold the two kinds of values, each as the bytes
//!   of its canonical encoding.
//! - [`curve`] states the parameters of secp256k1, [`encoding`] how bytes are
//!   read as numbers.
//! - [`primitives`] is where the arithmetic of `k256`, the hash of `sha2` and
//!   the random source of `rand_core` come in, under contracts that are
//!   believed without proof.

pub mod curve;
pub mod dlog;
pub mod encoding;
pub mod point;
pub mod primitives;
pub mod scalar;
pub mod transcript;
