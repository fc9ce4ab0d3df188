//! The wire formats.

pub mod arp;
pub mod ethernet;
pub mod ipv4;
pub mod udp;
