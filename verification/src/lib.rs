//! Lazily generated prime numbers by trial division, driven as a resumable
//! computation whose legal operations depend on its lifecycle phase.
//!
//! [`PrimesCoroutine`] is the generator, with one type per phase;
//! [`Prime`] is the sequence that steps it and hands out one prime per call.

pub mod arith;
pub mod generator;
pub mod model;
pub mod prime_list;
pub mod runs;
pub mod sequence;

pub use generator::{Completed, Phase, PrimesCoroutine, Suspended, Uninitialized};
pub use sequence::{CoroutineStatus, Prime};
