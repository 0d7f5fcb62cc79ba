//! Streaming computation of the decimal digits of pi.
//!
//! The algorithm is the classical bounded-spigot method: a 2x2 integer
//! transform accumulates continued-fraction terms of pi until the next
//! decimal digit is uniquely determined, then emits it and rescales.
//! All arithmetic is exact, over arbitrary-precision integers.

pub mod bigint;
pub mod pi;
