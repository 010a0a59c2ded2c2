//! Inbound transports: they turn a channel to the producer into frames.

pub mod handshake;
pub mod offer;
pub mod peer;
pub mod webrtc;
