//! The transport layer.

pub mod ping;
pub mod udp;

use super::{AsyncSendError, LossView};
use crate::protocols::ipv4::IPProtocolTypes;
use ping::{loss_taken, PingManager, PingView};
use udp::manager::UdpManager;
use vstd::prelude::*;

verus! {

/// What becomes of the sessions when a datagram was lost: they are told of the loss of an echo.
pub open spec fn loss_forwarded(ping: PingView, loss: LossView) -> PingView {
    if loss.header.protocol == IPProtocolTypes::ICMP && loss.datagram[0] == 8 {
        loss_taken(ping, loss)
    } else {
        ping
    }
}

/// What becomes of the sessions when datagrams were lost, one after the other.
pub open spec fn losses_forwarded(ping: PingView, losses: Seq<LossView>) -> PingView
    decreases losses.len(),
{
    if losses.len() == 0 {
        ping
    } else {
        loss_forwarded(losses_forwarded(ping, losses.drop_last()), losses.last())
    }
}

/// The protocols above the internet layer.
pub struct Managers {
    pub ping_manager: PingManager,
    pub udp_manager: UdpManager,
}

impl Managers {
    pub open spec fn wf(self) -> bool {
        self.ping_manager@.wf() && self.udp_manager.wf()
    }

    /// No sessions and no sockets.
    pub fn new() -> (managers: Self)
        ensures
            managers.wf(),
            managers.ping_manager@.sessions.len() == 0,
            managers.ping_manager@.events.len() == 0,
            managers.udp_manager.is_empty(),
    {
        Managers { ping_manager: PingManager::new(), udp_manager: UdpManager::new() }
    }

    /// Tells whoever sent a datagram of its loss.
    pub fn forward_async_error(&mut self, error: &AsyncSendError)
        requires
            old(self).wf(),
        ensures
            final(self).wf(),
            final(self).udp_manager == old(self).udp_manager,
            final(self).ping_manager@ == loss_forwarded(old(self).ping_manager@, error@),
    {
        let (protocol, kind) = match error {
            AsyncSendError::LocalSendError { ipv4header, datagram, .. } => (
                ipv4header.protocol(),
                datagram[0],
            ),
            AsyncSendError::ICMPUnreachable(message) => (
                message.ipv4header.protocol(),
                message.datagram[0],
            ),
        };
        if protocol == IPProtocolTypes::ICMP && kind == 8 {
            self.ping_manager.on_async_send_error(error);
        }
    }
}

} // verus!
