//! A minimal ledger node: an append-only chain of hash-linked blocks holding
//! signed value-transfer records, served over a hand-written HTTP layer.

pub mod chain;
pub mod clock;
pub mod node;
pub mod text;
