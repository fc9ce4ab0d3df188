//! One interface: what it sends, what it receives and what it remembers.

pub mod context;
pub mod l2_ethernet;
pub mod l3_ipv4;
pub mod l4_managers;
pub mod worker;

use crate::protocols::ipv4::icmp::{DestinationUnreachableCode, DestinationUnreachableMessage};
use crate::protocols::ipv4::IPv4Header;
use vstd::prelude::*;

verus! {

/// Why a datagram was not sent.
#[derive(Debug, PartialEq, Eq, Clone, Copy, Structural)]
pub enum SendError {
    /// The payload is longer than the interface can carry.
    PayloadTooLarge { max_size: usize },
    /// The payload is shorter than what an error message has to quote.
    PayloadTooShort,
    /// No route leads to the destination.
    NoRouteToHost,
    /// Too much is on its way to the network.
    BufferFull,
    /// Too much waits for the same link layer address.
    ArpResolveBufferFull,
    /// Nobody answers for the next hop.
    ArpTimeout,
}

pub type SendResult = Result<(), SendError>;

/// Why an operation on an interface failed.
#[derive(Debug, PartialEq, Eq, Clone, Copy, Structural)]
pub enum InterfaceError {
    /// It could not be asked whether an address is in use.
    AddressCheckFailed(SendError),
    /// The address was removed before it was known whether it is in use.
    AddressRemoved,
    /// Another station has the address.
    AddressInUse,
    /// The source address of a route is not one of the interface.
    RouteUnknownSource,
    /// The next hop of a route lies in no network of the interface.
    RouteNextHopUnreachable,
}

/// What became of a datagram after it had been accepted.
#[derive(Debug, Clone, Copy)]
pub enum AsyncSendError {
    /// It could not be sent. Holds its header and the start of its payload.
    LocalSendError { error: SendError, ipv4header: IPv4Header, datagram: [u8; 8] },
    /// It could not be delivered.
    ICMPUnreachable(DestinationUnreachableMessage),
}

/// Why a datagram that had been accepted was lost.
pub enum LossCause {
    Local(SendError),
    Unreachable(DestinationUnreachableCode),
}

/// The loss of a datagram that had been accepted.
pub struct LossView {
    pub cause: LossCause,
    pub header: IPv4Header,
    /// The start of its payload.
    pub datagram: Seq<u8>,
}

impl View for AsyncSendError {
    type V = LossView;

    open spec fn view(&self) -> LossView {
        match self {
            AsyncSendError::LocalSendError { error, ipv4header, datagram } => LossView {
                cause: LossCause::Local(*error),
                header: *ipv4header,
                datagram: datagram@,
            },
            AsyncSendError::ICMPUnreachable(message) => LossView {
                cause: LossCause::Unreachable(message.code),
                header: message.ipv4header,
                datagram: message.datagram@,
            },
        }
    }
}

} // verus!
