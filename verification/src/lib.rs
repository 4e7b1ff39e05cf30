//! Wake-on-LAN core: MAC address parsing and formatting, magic-packet
//! construction, and a name-to-MAC device registry.
//!
//! The network send and the durable storage of the registry are left to the
//! surrounding program; everything here is pure computation on plain values.

pub mod codec;
pub mod errors;
pub mod laws;
pub mod mac;
pub mod registry;
pub mod service;
