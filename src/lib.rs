//! Verified core of a distributed actor runtime: actor identity, placement,
//! the wire format between nodes, and the per-node bookkeeping that decides
//! how spawns, removals, lookups, protectors, broadcasts and expiration are
//! carried out.
pub mod actor;
pub mod balance;
pub mod codec;
pub mod errors;
pub mod example;
pub mod frame;
pub mod grid;
pub mod ids;
pub mod node;
pub mod reports;
pub mod seqs;
pub mod wire;
