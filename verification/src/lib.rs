//! Proof of History: a verifiable clock built from a chain of hashes.
//!
//! Each tick is the digest of the tick before it and of a commitment to whatever
//! data the tick carries. Producing a chain takes one hash after another, in order;
//! checking it takes one hash per tick, in any order, and so in parallel.
//!
//! - [`hasher`] and [`algorithms`]: the hash function behind a chain.
//! - [`output`]: digests, the values a chain is made of.
//! - [`clock`]: the tick function and the generator that carries it forward.
//! - [`checking`]: verification of a sequence of ticks.
//! - [`chain`]: what verification answers, proved.
//! - [`pipeline`]: the producer and the verifier of a stream of blocks.

pub mod algorithms;
pub mod chain;
pub mod checking;
pub mod clock;
pub mod hasher;
pub mod output;
pub mod pipeline;

pub use algorithms::{Keccak256, Sha256};
pub use checking::{check_link, first_broken, verify, verify_with};
pub use clock::{tick, ticks, Ticks};
pub use hasher::Hasher;
pub use output::Output;
pub use pipeline::{Producer, Replica};
