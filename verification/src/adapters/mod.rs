//! What the protocol adapters say: each speaks bridge messages in a protocol of its own.

pub mod osc;
