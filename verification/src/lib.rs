//! A small NEAT-style neuro-evolution library, evaluated against the fixed
//! two-input XOR benchmark. A genome owns a node list and a connection list;
//! it exposes memoized, cycle-safe network evaluation, an XOR fitness score,
//! and five structural or weight mutation operators.

pub mod arith;
pub mod gene;
pub mod neat;
pub mod rng;
