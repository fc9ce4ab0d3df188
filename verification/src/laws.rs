//! What the operations of the stack are for, stated of what goes in and what comes out.

pub mod calls;
pub mod configuration;
pub mod control;
pub mod datagrams;
pub mod interface;
pub mod parts;
pub mod receiving;
pub mod resolution;
pub mod sending;
pub mod sessions;
pub mod sockets;
pub mod stations;
pub mod values;
pub mod wire;
