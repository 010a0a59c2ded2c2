//! A vendor-neutral bridge from a browser's data channel to local protocols.

pub mod adapters;
pub mod body;
pub mod bridge;
pub mod config;
pub mod control;
pub mod discovery;
pub mod float;
pub mod json;
pub mod message;
pub mod report;
pub mod router;
pub mod state;
pub mod text;
pub mod transport;
pub mod update;
