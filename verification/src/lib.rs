//! Spelling integers in English words, and the "four" fixed point.
//!
//! The library converts an arbitrary-precision signed integer into its
//! English-word spelling and drives the classic letter-counting iteration
//! (spell the number, count the letters, spell the count) to its unique
//! fixed point, the word "four".

pub mod bignum;
pub mod driver;
pub mod words;
