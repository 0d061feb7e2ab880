//! Newtonian point masses and the strategies that step them: one after the
//! other, on a fork-join pool, or by a pool of persistent workers.
//!
//! A real number is carried as its IEEE 754 binary64 bit pattern (`u64`), so
//! the library can store, copy and compare it exactly. The arithmetic on
//! reals is handed in by the caller as a `particle::Physics`; the library
//! decides which particles it is applied to, in which order, and where the
//! results go, and proves that every strategy decides alike.

pub mod benchmark;
pub mod particle;
pub mod population;
pub mod protocol;
pub mod strategy;
pub mod worker;
pub mod world;
