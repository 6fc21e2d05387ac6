//! A resilient suffix-framed socket client: framing, connection lifecycle and
//! reconnection supervision.
pub mod config;
pub mod controller;
pub mod decoder;
pub mod framing;
pub mod state;
