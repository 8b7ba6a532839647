//! Host-side driver logic for RNode LoRa radios: KISS framing, the RNode
//! command set, radio presets and the report kept from device replies.

pub mod kiss;
pub mod config;
pub mod error;
pub mod rnode;
pub mod report;
pub mod decoder;
pub mod iface;
