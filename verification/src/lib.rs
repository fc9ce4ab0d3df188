//! A user-space network stack: link, internet and transport layer codecs, the tables that they
//! consult and the state machines that drive them, each with a proved contract.
//!
//! The library holds no socket, thread or clock. Time comes in as an [`time::Instant`], packets
//! come in and go out as byte buffers.

pub mod bits;
pub mod buffer;
pub mod checksum;
pub mod common;
pub mod laws;
pub mod net;
pub mod poller;
pub mod protocols;
pub mod random;
pub mod ready_by_bits;
pub mod runtime;
pub mod services;
pub mod text;
pub mod time;
pub mod write_to_buffer;
