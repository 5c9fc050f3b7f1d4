//! Verified core of a set of cooperative-concurrency exercises.
//!
//! The heart of the library is a model of four scenarios built on a
//! cooperative runtime: a shared-counter TCP server, an N-producer fan-in
//! pipeline over a bounded channel, a newline-framed echo server, and a
//! select-based supervisor racing a worker against a timer and an interrupt.
//! The I/O shells around these models are ordinary unverified code; every
//! decision and every byte-level transformation is specified and proved here.

pub mod channel;
pub mod codec;
pub mod config;
pub mod counter;
pub mod hexutil;
pub mod jwt;
pub mod listing;
pub mod primes;
pub mod strings;
pub mod supervisor;
