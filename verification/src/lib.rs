//! The integer side of seedable noise fields over real space of any dimension: points of the
//! integer lattice and their neighbourhoods, distances between them, seeded hashing, a
//! seekable generator of random bits, and the choices that noise leaves make from these.
//!
//! Every function states what it returns, and is proved to return it. What is taken on
//! trust is marked `Trusted:` where it stands: the digests of the `twox_hash` crate and the
//! words of the ChaCha generator of the `rand_chacha` crate.

pub mod geometry;
pub mod noise;
pub mod random;
pub mod utils;
