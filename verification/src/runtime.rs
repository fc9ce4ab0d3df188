//! The tables, buffers and state machines of a running stack.

pub mod address_table;
pub mod buffer_pool;
pub mod channel;
pub mod emsgsize;
pub mod interface;
pub mod network;
pub mod ring;
pub mod route_table;
