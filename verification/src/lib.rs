//! Squares: a counter-based pseudo-random number generator.
//!
//! A generator is a pair of 64-bit words, a counter and a key. Every draw
//! mixes the two through four square-and-swap rounds and then moves the
//! counter on by one, so a stream is a pure function of the pair it starts
//! from. The generator is not cryptographically secure.
//!
//! Everything here works on integers. Each function carries a contract that
//! fixes its result in terms of the arithmetic of [`mixing`].

pub mod error;
pub mod keys;
pub mod mixing;
pub mod rng;

pub use error::RngError;
pub use keys::lookup_key;
pub use rng::SquaresRNG;
