//! What runs on top of an interface.

pub mod dhcpv4;
