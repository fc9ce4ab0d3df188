//! Datagram sockets.

pub mod context;
pub mod handle;
pub mod manager;
pub mod messages;
pub mod port_binding;

use crate::common::{Error, ErrorKind};
use crate::net::SocketAddr;
use crate::runtime::buffer_pool::{sized, zeroed, PooledBuffer, WriteTrackingBuffer};
use crate::runtime::emsgsize::{errmsgsize, message_too_long, OsError, Platform};
use context::{copied, copied_len, UdpSocketContext};
use handle::{SocketState, UdpSocketHandle, UdpSocketSharedState};
use manager::{BUFFER_POOL_SIZE, RECV_RING_SIZE};
use messages::{
    ReceivedView, SharableUdpSendResult, UdpConnectError, UdpConnectResult, UdpSendError,
    UdpSendResult,
};
use vstd::prelude::*;

verus! {

/// An error of a socket: one that the operating system has a number for, or any other.
#[derive(Debug)]
pub enum SocketError {
    Os(OsError),
    Io(Error),
}

/// An error of a socket, with what it says taken by its view.
pub enum SocketErrorView {
    /// The number that the operating system has for it.
    Os(i32),
    Io((ErrorKind, Seq<char>)),
}

impl View for SocketError {
    type V = SocketErrorView;

    open spec fn view(&self) -> SocketErrorView {
        match self {
            SocketError::Os(error) => SocketErrorView::Os(error.code),
            SocketError::Io(error) => SocketErrorView::Io(error@),
        }
    }
}

/// A datagram on its way from a socket to its interface.
#[derive(Debug)]
pub struct Outgoing {
    pub destination: SocketAddr,
    pub buffer: WriteTrackingBuffer,
    /// Whether the socket waits for what comes of it.
    pub blocking: bool,
}

/// A datagram socket.
pub struct UdpSocket {
    pub socket_addr: SocketAddr,
    pub shared_state: UdpSocketSharedState,
    pub context: UdpSocketContext,
}

/// What a receive comes to when it does not have to wait any more.
pub enum Receive {
    /// A datagram: how many of its bytes were copied, and where it came from.
    Received(usize, SocketAddr),
    /// There is nothing to receive yet.
    Wait,
}

/// The error that a socket that does not wait reports of what came of an earlier datagram.
pub open spec fn late_error(result: Option<UdpSendResult>) -> Option<(ErrorKind, Seq<char>)> {
    match result {
        Some(Err(UdpSendError::NetworkUnreachable)) => Some(
            (ErrorKind::NetworkUnreachable, "network unreachable"@),
        ),
        Some(Err(UdpSendError::HostUnreachable)) => Some(
            (ErrorKind::HostUnreachable, "host unreachable"@),
        ),
        _ => None,
    }
}

/// What a socket and its interface share after the socket looked at what came of an earlier
/// datagram. One that waits does not look.
pub open spec fn after_check(shared: UdpSocketSharedState) -> UdpSocketSharedState {
    if shared.is_nonblocking {
        UdpSocketSharedState { send_result: SharableUdpSendResult { state: 0 }, ..shared }
    } else {
        shared
    }
}

/// What a socket reports of an earlier datagram when it looks.
pub open spec fn reported(shared: UdpSocketSharedState) -> Option<(ErrorKind, Seq<char>)> {
    if shared.is_nonblocking {
        late_error(shared.send_result.holds())
    } else {
        None
    }
}

/// Why a payload of some length cannot be sent to the first of some addresses, if it cannot: it is
/// too long, an earlier datagram was lost, there is no address, or it is one of the other version.
pub open spec fn send_refused(
    shared: UdpSocketSharedState,
    local: SocketAddr,
    length: nat,
    addrs: Seq<SocketAddr>,
    platform: Platform,
) -> Option<SocketErrorView> {
    if length > shared.max_payload_size {
        Some(SocketErrorView::Os(message_too_long(platform)))
    } else {
        match reported(shared) {
            Some(early) => Some(SocketErrorView::Io(early)),
            None => if addrs.len() == 0 {
                Some(SocketErrorView::Io((ErrorKind::InvalidInput, "invalid address"@)))
            } else if (addrs[0].ip is V4) != (local.ip is V4) {
                Some(
                    SocketErrorView::Io(
                        (ErrorKind::InvalidInput, "address version does not match"@),
                    ),
                )
            } else {
                None
            },
        }
    }
}

/// Where the first datagram from a peer is among those that wait.
pub open spec fn first_from(queued: Seq<ReceivedView>, peer: SocketAddr, index: int) -> bool {
    &&& 0 <= index < queued.len()
    &&& queued[index].0 == peer
    &&& forall|i: int| 0 <= i < index ==> (#[trigger] queued[i]).0 != peer
}

/// Whether no datagram from a peer waits.
pub open spec fn none_from(queued: Seq<ReceivedView>, peer: SocketAddr) -> bool {
    forall|i: int| 0 <= i < queued.len() ==> (#[trigger] queued[i]).0 != peer
}

/// A buffer after one datagram after the other was copied to its start.
pub open spec fn copied_each(buffer: Seq<u8>, datagrams: Seq<ReceivedView>) -> Seq<u8>
    decreases datagrams.len(),
{
    if datagrams.len() == 0 {
        buffer
    } else {
        copied(copied_each(buffer, datagrams.drop_last()), datagrams.last().1)
    }
}

/// Copying datagrams to the start of a buffer keeps its length, and copying the last of them again
/// changes nothing.
proof fn copied_each_keeps_length(buffer: Seq<u8>, datagrams: Seq<ReceivedView>)
    ensures
        copied_each(buffer, datagrams).len() == buffer.len(),
        datagrams.len() > 0 ==> copied(
            copied_each(buffer, datagrams),
            datagrams.last().1,
        ) == copied_each(buffer, datagrams),
    decreases datagrams.len(),
{
    if datagrams.len() > 0 {
        copied_each_keeps_length(buffer, datagrams.drop_last());
        assert(copied(copied_each(buffer, datagrams), datagrams.last().1) =~= copied_each(
            buffer,
            datagrams,
        ));
    }
}

/// The datagram that is peeked at is the one that is received next, however often it is peeked at.
pub proof fn peeked_is_received_next(queued: Seq<ReceivedView>, peer: SocketAddr, index: int)
    requires
        first_from(queued, peer, index),
    ensures
        ({
            let left = queued.skip(index);
            &&& first_from(left, peer, 0)
            &&& left[0] == queued[index]
            &&& forall|i: int| #[trigger] first_from(left, peer, i) ==> i == 0
        }),
{
    let left = queued.skip(index);
    assert(left[0] == queued[index]);
    assert forall|i: int| #[trigger] first_from(left, peer, i) implies i == 0 by {
        if i > 0 {
            assert(left[0].0 != peer);
        }
    }
}

/// What it comes to to receive from a peer when these datagrams wait, and what the buffer then
/// holds.
pub open spec fn received_from(
    shared: UdpSocketSharedState,
    queued: Seq<ReceivedView>,
    peer: SocketAddr,
    before: Seq<u8>,
    after: Seq<u8>,
    result: Result<Receive, Error>,
) -> bool {
    match result {
        Ok(Receive::Received(count, source)) => {
            &&& reported(shared) is None
            &&& source == peer
            &&& exists|index: int| #[trigger]
                first_from(queued, peer, index) && count == copied_len(before, queued[index].1)
                    && after == copied_each(before, queued.take(index + 1))
        },
        Ok(Receive::Wait) => {
            &&& !shared.is_nonblocking
            &&& none_from(queued, peer)
            &&& after == copied_each(before, queued)
        },
        Err(error) => match reported(shared) {
            Some(early) => error@ == early && after == before,
            None => {
                &&& shared.is_nonblocking
                &&& none_from(queued, peer)
                &&& error@ == (ErrorKind::WouldBlock, "operation would block"@)
                &&& after == copied_each(before, queued)
            },
        },
    }
}

/// The error that a socket that waits reports of what came of its datagram.
pub open spec fn send_error(error: UdpSendError) -> (ErrorKind, Seq<char>) {
    match error {
        UdpSendError::PayloadTooLarge => (ErrorKind::InvalidInput, "payload too large"@),
        UdpSendError::Other => (ErrorKind::OutOfMemory, "network buffer full"@),
        UdpSendError::NetworkUnreachable => (ErrorKind::NetworkUnreachable, "no route to host"@),
        UdpSendError::HostUnreachable => (ErrorKind::HostUnreachable, "host unreachable"@),
    }
}

/// The error that a socket reports of a peer that it did not get.
pub open spec fn peer_error(error: UdpConnectError) -> (ErrorKind, Seq<char>) {
    match error {
        UdpConnectError::NoRouteToHost => (ErrorKind::NetworkUnreachable, "no route to host"@),
        UdpConnectError::InvalidAddress => (
            ErrorKind::InvalidInput,
            "invalid or unsupported address"@,
        ),
        UdpConnectError::NoAddress => (ErrorKind::InvalidInput, "no address in input"@),
    }
}

/// Whether the oldest datagram was taken, if one waits, and nothing otherwise.
pub open spec fn received_first(
    shared: UdpSocketSharedState,
    queued: Seq<ReceivedView>,
    left: Seq<ReceivedView>,
    before: Seq<u8>,
    after: Seq<u8>,
    result: Result<Receive, Error>,
) -> bool {
    match result {
        Ok(Receive::Received(count, source)) => {
            &&& reported(shared) is None
            &&& queued.len() > 0
            &&& source == queued[0].0
            &&& count == copied_len(before, queued[0].1)
            &&& after == copied(before, queued[0].1)
            &&& left == queued.skip(1)
        },
        Ok(Receive::Wait) => {
            &&& queued.len() == 0
            &&& !shared.is_nonblocking
            &&& left == queued
            &&& after == before
        },
        Err(error) => {
            &&& left == queued
            &&& after == before
            &&& match reported(shared) {
                Some(early) => error@ == early,
                None => shared.is_nonblocking && queued.len() == 0 && error@ == (
                    ErrorKind::WouldBlock,
                    "operation would block"@,
                ),
            }
        },
    }
}

/// What a socket sees after it exchanged with its interface: its own choices, the peer and the
/// longest payload that the interface knows, and what came of the last datagram if that is new.
pub open spec fn socket_share(
    ours: UdpSocketSharedState,
    theirs: UdpSocketSharedState,
) -> UdpSocketSharedState {
    UdpSocketSharedState {
        send_result: if theirs.send_result.holds() is Some {
            theirs.send_result
        } else {
            ours.send_result
        },
        connected_to: theirs.connected_to,
        max_payload_size: theirs.max_payload_size,
        ..ours
    }
}

/// What an interface sees after it exchanged with a socket: the choices of the socket, and nothing
/// of what came of the last datagram, which the socket has now.
pub open spec fn handle_share(
    ours: UdpSocketSharedState,
    theirs: UdpSocketSharedState,
) -> UdpSocketSharedState {
    UdpSocketSharedState {
        send_result: SharableUdpSendResult { state: 0 },
        is_nonblocking: ours.is_nonblocking,
        allow_broadcast: ours.allow_broadcast,
        ..theirs
    }
}

/// How many datagrams a socket takes over: none while it has some left to read, or else as many as
/// it has room for.
pub open spec fn taken_over(
    unread: Seq<ReceivedView>,
    arrived: Seq<ReceivedView>,
    capacity: nat,
) -> int {
    if unread.len() > 0 {
        0
    } else if arrived.len() <= capacity {
        arrived.len() as int
    } else {
        capacity as int
    }
}

/// What a socket has to read, and what waits at its interface, after an exchange.
pub open spec fn queues_exchanged(
    unread: Seq<ReceivedView>,
    arrived: Seq<ReceivedView>,
    capacity: nat,
) -> (Seq<ReceivedView>, Seq<ReceivedView>) {
    let count = taken_over(unread, arrived, capacity);
    (unread + arrived.take(count), arrived.skip(count))
}

/// An exchange loses no datagram and keeps their order: what the socket has left to read, with what
/// waits at the interface behind it, is the same as before. The socket has something to read if
/// there is anything.
pub proof fn exchange_keeps_order(
    unread: Seq<ReceivedView>,
    arrived: Seq<ReceivedView>,
    capacity: nat,
)
    requires
        capacity > 0,
    ensures
        ({
            let (readable, left) = queues_exchanged(unread, arrived, capacity);
            &&& readable + left == unread + arrived
            &&& readable.len() == 0 ==> left.len() == 0
        }),
{
    let (readable, left) = queues_exchanged(unread, arrived, capacity);
    assert(readable + left =~= unread + arrived);
}

/// What a socket reads after an exchange is the oldest datagram that was not read yet, wherever it
/// waited, and all the others are left in their order. It finds nothing to read only where nothing
/// is left.
pub proof fn datagrams_are_read_in_order(
    unread: Seq<ReceivedView>,
    arrived: Seq<ReceivedView>,
    capacity: nat,
    shared: UdpSocketSharedState,
    left: Seq<ReceivedView>,
    before: Seq<u8>,
    after: Seq<u8>,
    result: Result<Receive, Error>,
)
    requires
        capacity > 0,
        received_first(
            shared,
            queues_exchanged(unread, arrived, capacity).0,
            left,
            before,
            after,
            result,
        ),
    ensures
        ({
            let waiting = unread + arrived;
            let still_waiting = left + queues_exchanged(unread, arrived, capacity).1;
            match result {
                Ok(Receive::Received(count, source)) => {
                    &&& waiting.len() > 0
                    &&& source == waiting[0].0
                    &&& count == copied_len(before, waiting[0].1)
                    &&& after == copied(before, waiting[0].1)
                    &&& still_waiting == waiting.skip(1)
                },
                Ok(Receive::Wait) => waiting.len() == 0,
                Err(_) => {
                    &&& still_waiting == waiting
                    &&& reported(shared) is None ==> waiting.len() == 0
                },
            }
        }),
{
    exchange_keeps_order(unread, arrived, capacity);
    let (readable, rest) = queues_exchanged(unread, arrived, capacity);
    let waiting = unread + arrived;
    assert(readable + rest == waiting);
    if result matches Ok(Receive::Received(count, source)) {
        assert(waiting[0] == readable[0]);
        assert(left + rest =~= waiting.skip(1));
    }
}

/// Whether a payload was sent to the first of some addresses, or refused for the right reason.
pub open spec fn send_outcome(
    before: UdpSocket,
    after: UdpSocket,
    payload: Seq<u8>,
    addrs: Seq<SocketAddr>,
    platform: Platform,
    returned: Seq<PooledBuffer>,
    result: Result<Outgoing, SocketError>,
) -> bool {
    let shared = before.shared_state;
    let pool = before.context.buffer_pool;
    let available = pool.available(returned);
    &&& after.socket_addr == before.socket_addr
    &&& after.context.recv == before.context.recv
    &&& after.context.socket_id == before.context.socket_id
    &&& after.context.buffer_pool.wf()
    &&& after.context.buffer_pool.buffer_size == pool.buffer_size
    &&& after.shared_state == (if payload.len() <= shared.max_payload_size {
        after_check(shared)
    } else {
        shared
    })
    &&& match send_refused(shared, before.socket_addr, payload.len(), addrs, platform) {
        Some(refused) => {
            &&& result matches Err(error) && error@ == refused
            &&& after.context.buffer_pool == pool
        },
        None => if payload.len() > pool.buffer_size {
            &&& result matches Err(error) && error@ == SocketErrorView::Io(
                (ErrorKind::InvalidInput, "buffer too large"@),
            )
            &&& after.context.buffer_pool == pool
        } else if available.len() == 0 {
            &&& result matches Err(error) && error@ == SocketErrorView::Io(
                if shared.is_nonblocking {
                    (ErrorKind::WouldBlock, "operation would block"@)
                } else {
                    (ErrorKind::OutOfMemory, "buffer pool exhausted"@)
                },
            )
            &&& after.context.buffer_pool.free().len() == 0
        } else {
            &&& result matches Ok(outgoing) && {
                &&& outgoing.destination == addrs[0]
                &&& outgoing.blocking == !shared.is_nonblocking
                &&& outgoing.buffer.written == payload.len()
                &&& outgoing.buffer.written_part() == payload
                &&& outgoing.buffer.buffer@.len() == pool.buffer_size
            }
            &&& after.context.buffer_pool.free() == available.skip(1)
        },
    }
}

impl UdpSocket {
    /// Whether the socket is a new one that is bound to an address.
    pub open spec fn is_new(self, addr: SocketAddr, mtu: int) -> bool {
        &&& self.socket_addr == addr
        &&& self.shared_state == UdpSocketHandle::initial(
            addr,
            (mtu - 28) as usize,
        ).shared_state
        &&& self.context.recv.queued() == Seq::<ReceivedView>::empty()
        &&& self.context.recv.capacity() == RECV_RING_SIZE
        &&& self.context.buffer_pool.wf()
        &&& self.context.buffer_pool.buffer_size == mtu - 28
        &&& self.context.buffer_pool.free() == Seq::new(
            BUFFER_POOL_SIZE as nat,
            |i: int| zeroed((mtu - 28) as nat),
        )
    }

    /// Whether the socket differs from another at most in what it shares with its interface and in
    /// what waits to be read.
    pub open spec fn same_end(self, other: Self) -> bool {
        &&& self.socket_addr == other.socket_addr
        &&& self.context.buffer_pool == other.context.buffer_pool
        &&& self.context.socket_id == other.context.socket_id
        &&& self.context.recv.capacity() == other.context.recv.capacity()
    }

    /// A socket that is bound to an address.
    pub fn new(socket_addr: SocketAddr, context: UdpSocketContext, max_payload_size: usize) -> (socket:
        Self)
        ensures
            socket.socket_addr == socket_addr,
            socket.context == context,
            socket.shared_state == UdpSocketHandle::initial(
                socket_addr,
                max_payload_size,
            ).shared_state,
    {
        UdpSocket {
            socket_addr,
            shared_state: UdpSocketSharedState {
                send_result: SharableUdpSendResult::new(),
                connected_to: None,
                is_nonblocking: false,
                allow_broadcast: false,
                max_payload_size,
            },
            context,
        }
    }

    /// Whether the socket does not wait. One that does not wait reports here what came of an
    /// earlier datagram.
    pub fn load_non_blocking_and_check_errors(&mut self) -> (result: Result<bool, Error>)
        requires
            old(self).shared_state.send_result.wf(),
        ensures
            *final(self) == (UdpSocket {
                shared_state: after_check(old(self).shared_state),
                ..*old(self)
            }),
            match result {
                Ok(non_blocking) => non_blocking == old(self).shared_state.is_nonblocking
                    && reported(old(self).shared_state) is None,
                Err(error) => reported(old(self).shared_state) == Some(error@),
            },
    {
        let non_blocking: bool = self.shared_state.is_nonblocking;
        if non_blocking {
            match self.shared_state.send_result.reset() {
                Some(Err(UdpSendError::NetworkUnreachable)) => {
                    return Err(Error::new(ErrorKind::NetworkUnreachable, "network unreachable"));
                },
                Some(Err(UdpSendError::HostUnreachable)) => {
                    return Err(Error::new(ErrorKind::HostUnreachable, "host unreachable"));
                },
                _ => {},
            }
        }
        Ok(non_blocking)
    }

    /// Checks that a payload of the given length can be sent to the first of some addresses.
    /// Returns that address, and whether the socket does not wait for what comes of the datagram.
    pub fn prepare_send(
        &mut self,
        length: usize,
        addrs: &Vec<SocketAddr>,
        platform: Platform,
    ) -> (result: Result<(SocketAddr, bool), SocketError>)
        requires
            old(self).shared_state.send_result.wf(),
        ensures
            ({
                let shared = old(self).shared_state;
                &&& *final(self) == (UdpSocket {
                    shared_state: if length <= shared.max_payload_size {
                        after_check(shared)
                    } else {
                        shared
                    },
                    ..*old(self)
                })
                &&& match send_refused(
                    shared,
                    old(self).socket_addr,
                    length as nat,
                    addrs@,
                    platform,
                ) {
                    Some(refused) => result matches Err(error) && error@ == refused,
                    None => result == Ok::<(SocketAddr, bool), SocketError>(
                        (addrs@[0], shared.is_nonblocking),
                    ),
                }
            }),
    {
        if length > self.shared_state.max_payload_size {
            return Err(SocketError::Os(errmsgsize(platform)));
        }
        let non_blocking: bool = match self.load_non_blocking_and_check_errors() {
            Ok(non_blocking) => non_blocking,
            Err(error) => {
                return Err(SocketError::Io(error));
            },
        };
        if addrs.len() == 0 {
            return Err(
                SocketError::Io(Error::new(ErrorKind::InvalidInput, "invalid address")),
            );
        }
        let destination = addrs[0];
        if self.socket_addr.is_ipv4() != destination.is_ipv4() {
            return Err(
                SocketError::Io(
                    Error::new(ErrorKind::InvalidInput, "address version does not match"),
                ),
            );
        }
        Ok((destination, non_blocking))
    }

    /// What a socket that waits reports of what came of its datagram.
    pub fn blocking_result(result: UdpSendResult, written: usize) -> (reported: Result<
        usize,
        Error,
    >)
        ensures
            match reported {
                Ok(count) => result is Ok && count == written,
                Err(error) => result matches Err(reason) && error@ == send_error(reason),
            },
    {
        match result {
            Ok(_) => Ok(written),
            Err(UdpSendError::PayloadTooLarge) => Err(
                Error::new(ErrorKind::InvalidInput, "payload too large"),
            ),
            Err(UdpSendError::Other) => Err(
                Error::new(ErrorKind::OutOfMemory, "network buffer full"),
            ),
            Err(UdpSendError::NetworkUnreachable) => Err(
                Error::new(ErrorKind::NetworkUnreachable, "no route to host"),
            ),
            Err(UdpSendError::HostUnreachable) => Err(
                Error::new(ErrorKind::HostUnreachable, "host unreachable"),
            ),
        }
    }

    /// What a socket reports of the peer that it asked for.
    pub fn connect_result(result: UdpConnectResult) -> (reported: Result<(), Error>)
        ensures
            match reported {
                Ok(_) => result is Ok,
                Err(error) => result matches Err(reason) && error@ == peer_error(reason),
            },
    {
        match result {
            Ok(_) => Ok(()),
            Err(UdpConnectError::NoRouteToHost) => Err(
                Error::new(ErrorKind::NetworkUnreachable, "no route to host"),
            ),
            Err(UdpConnectError::InvalidAddress) => Err(
                Error::new(ErrorKind::InvalidInput, "invalid or unsupported address"),
            ),
            Err(UdpConnectError::NoAddress) => Err(
                Error::new(ErrorKind::InvalidInput, "no address in input"),
            ),
        }
    }

    /// Takes the oldest datagram, if one waits. One that is longer than the buffer is cut off.
    /// Where none waits, a socket that does not wait reports so, and one that waits has to.
    pub fn recv_from(&mut self, buf: &mut [u8]) -> (result: Result<Receive, Error>)
        requires
            old(self).shared_state.send_result.wf(),
        ensures
            final(self).same_end(*old(self)),
            final(self).shared_state == after_check(old(self).shared_state),
            received_first(
                old(self).shared_state,
                old(self).context.recv.queued(),
                final(self).context.recv.queued(),
                old(buf)@,
                final(buf)@,
                result,
            ),
    {
        let non_blocking: bool = match self.load_non_blocking_and_check_errors() {
            Ok(non_blocking) => non_blocking,
            Err(error) => {
                return Err(error);
            },
        };
        match self.context.try_pop(buf) {
            Some((count, source)) => Ok(Receive::Received(count, source)),
            None => if non_blocking {
                Err(Error::new(ErrorKind::WouldBlock, "operation would block"))
            } else {
                Ok(Receive::Wait)
            },
        }
    }

    /// As [`UdpSocket::recv_from`], but the datagram stays where it is.
    pub fn peek_from(&mut self, buf: &mut [u8]) -> (result: Result<Receive, Error>)
        requires
            old(self).shared_state.send_result.wf(),
        ensures
            *final(self) == (UdpSocket {
                shared_state: after_check(old(self).shared_state),
                ..*old(self)
            }),
            ({
                let shared = old(self).shared_state;
                let queued = old(self).context.recv.queued();
                let late = reported(shared);
                match result {
                    Ok(Receive::Received(count, source)) => {
                        &&& late is None
                        &&& queued.len() > 0
                        &&& source == queued[0].0
                        &&& count == copied_len(old(buf)@, queued[0].1)
                        &&& final(buf)@ == copied(old(buf)@, queued[0].1)
                    },
                    Ok(Receive::Wait) => {
                        &&& queued.len() == 0
                        &&& !shared.is_nonblocking
                        &&& final(buf)@ == old(buf)@
                    },
                    Err(error) => {
                        &&& final(buf)@ == old(buf)@
                        &&& match late {
                            Some(early) => error@ == early,
                            None => shared.is_nonblocking && queued.len() == 0 && error@ == (
                                ErrorKind::WouldBlock,
                                "operation would block"@,
                            ),
                        }
                    },
                }
            }),
    {
        let non_blocking: bool = match self.load_non_blocking_and_check_errors() {
            Ok(non_blocking) => non_blocking,
            Err(error) => {
                return Err(error);
            },
        };
        match self.context.try_peek(buf) {
            Some((count, source)) => Ok(Receive::Received(count, source)),
            None => if non_blocking {
                Err(Error::new(ErrorKind::WouldBlock, "operation would block"))
            } else {
                Ok(Receive::Wait)
            },
        }
    }

    /// Sends a payload to the first of some addresses: copies it into a buffer of the pool, and
    /// says where the buffer is to be sent and whether the socket waits for what comes of it.
    /// `returned` holds the buffers that were given back.
    pub fn send_to(
        &mut self,
        buf: &[u8],
        addrs: &Vec<SocketAddr>,
        platform: Platform,
        returned: &mut Vec<PooledBuffer>,
    ) -> (result: Result<Outgoing, SocketError>)
        requires
            old(self).shared_state.send_result.wf(),
            old(self).context.buffer_pool.wf(),
            sized(old(returned)@, old(self).context.buffer_pool.buffer_size),
        ensures
            send_outcome(*old(self), *final(self), buf@, addrs@, platform, old(returned)@, result),
            sized(final(returned)@, old(self).context.buffer_pool.buffer_size),
    {
        let (destination, non_blocking) = match self.prepare_send(buf.len(), addrs, platform) {
            Ok(checked) => checked,
            Err(error) => {
                return Err(error);
            },
        };
        match self.context.send_inner(buf, returned) {
            Ok(buffer) => Ok(Outgoing { destination, buffer, blocking: !non_blocking }),
            // A buffer may come back, so one that does not wait may try again.
            Err(error) => if non_blocking && error.kind() == ErrorKind::OutOfMemory {
                Err(SocketError::Io(Error::new(ErrorKind::WouldBlock, "operation would block")))
            } else {
                Err(SocketError::Io(error))
            },
        }
    }

    /// What a socket reports of a datagram for which its interface has no room.
    pub fn no_room(blocking: bool) -> (error: Error)
        ensures
            error@ == (if blocking {
                (ErrorKind::OutOfMemory, "failed to push packet to ringbuf"@)
            } else {
                (ErrorKind::WouldBlock, "operation would block"@)
            }),
    {
        if blocking {
            Error::new(ErrorKind::OutOfMemory, "failed to push packet to ringbuf")
        } else {
            Error::new(ErrorKind::WouldBlock, "operation would block")
        }
    }

    /// Exchanges with the interface's end of the socket what both see, and takes the datagrams that
    /// wait there once all that were taken before are read.
    pub fn exchange(&mut self, handle: &mut UdpSocketHandle)
        ensures
            final(self).same_end(*old(self)),
            final(handle).send == old(handle).send,
            final(handle).recv.capacity() == old(handle).recv.capacity(),
            final(self).shared_state == socket_share(
                old(self).shared_state,
                old(handle).state.shared_state,
            ),
            final(handle).state == (SocketState {
                shared_state: handle_share(
                    old(self).shared_state,
                    old(handle).state.shared_state,
                ),
                ..old(handle).state
            }),
            ({
                let unread = old(self).context.recv.queued();
                let arrived = old(handle).recv.queued();
                let room = old(self).context.recv.capacity();
                let readable = final(self).context.recv.queued();
                &&& (readable, final(handle).recv.queued()) == queues_exchanged(
                    unread,
                    arrived,
                    room,
                )
                &&& unread.len() == 0 && old(handle).recv.capacity() <= room ==> readable == arrived
            }),
    {
        let theirs = handle.state.shared_state;
        let ours = self.shared_state;
        handle.state.shared_state.is_nonblocking = ours.is_nonblocking;
        handle.state.shared_state.allow_broadcast = ours.allow_broadcast;
        self.shared_state.connected_to = theirs.connected_to;
        self.shared_state.max_payload_size = theirs.max_payload_size;
        if theirs.send_result.state != 0 {
            self.shared_state.send_result = theirs.send_result;
            handle.state.shared_state.send_result = SharableUdpSendResult { state: 0 };
        }
        let ghost unread = self.context.recv.queued();
        let ghost arrived = handle.recv.queued();
        if !self.context.recv.is_empty() || handle.recv.is_empty() {
            assert(arrived.take(0) =~= Seq::empty());
            assert(unread + arrived.take(0) =~= unread);
            assert(arrived.skip(0) =~= arrived);
            return ;
        }
        let ghost mut count: int = 0;
        assert(arrived.take(0) =~= Seq::empty());
        assert(arrived.skip(0) =~= arrived);
        while !self.context.recv.is_full() && !handle.recv.is_empty()
            invariant
                0 <= count <= arrived.len(),
                count <= self.context.recv.capacity(),
                self.same_end(*old(self)),
                self.shared_state == socket_share(ours, theirs),
                ours == old(self).shared_state,
                theirs == old(handle).state.shared_state,
                handle.send == old(handle).send,
                handle.recv.capacity() == old(handle).recv.capacity(),
                handle.state == (SocketState {
                    shared_state: handle_share(ours, theirs),
                    ..old(handle).state
                }),
                self.context.recv.queued() == arrived.take(count),
                handle.recv.queued() == arrived.skip(count),
            decreases arrived.len() - count,
        {
            if let Some(message) = handle.recv.try_pop() {
                let _pushed = self.context.recv.try_push(message);
                proof {
                    assert(arrived.skip(count)[0] == arrived[count]);
                    assert(arrived.take(count + 1) =~= arrived.take(count).push(arrived[count]));
                    assert(arrived.skip(count).skip(1) =~= arrived.skip(count + 1));
                    count = count + 1;
                }
            }
        }
        proof {
            assert(unread + arrived.take(count) =~= arrived.take(count));
            if count == arrived.len() {
                assert(arrived.take(count) =~= arrived);
            }
        }
    }

    /// Sends a payload to the peer, as [`UdpSocket::send_to`] does.
    pub fn send(
        &mut self,
        buf: &[u8],
        platform: Platform,
        returned: &mut Vec<PooledBuffer>,
    ) -> (result: Result<Outgoing, SocketError>)
        requires
            old(self).shared_state.send_result.wf(),
            old(self).context.buffer_pool.wf(),
            sized(old(returned)@, old(self).context.buffer_pool.buffer_size),
        ensures
            sized(final(returned)@, old(self).context.buffer_pool.buffer_size),
            match old(self).shared_state.connected_to {
                Some(peer) => send_outcome(
                    *old(self),
                    *final(self),
                    buf@,
                    seq![peer],
                    platform,
                    old(returned)@,
                    result,
                ),
                None => {
                    &&& *final(self) == *old(self)
                    &&& result matches Err(error) && error@ == SocketErrorView::Io(
                        (ErrorKind::NotConnected, "not connected"@),
                    )
                },
            },
    {
        match self.peer_addr() {
            Ok(peer) => {
                let addrs: Vec<SocketAddr> = vec![peer];
                assert(addrs@ =~= seq![peer]);
                self.send_to(buf, &addrs, platform, returned)
            },
            Err(error) => Err(SocketError::Io(error)),
        }
    }

    /// Takes the oldest datagram from the peer, if one waits. Datagrams from others that came
    /// before it are dropped.
    pub fn recv(&mut self, buf: &mut [u8]) -> (result: Result<Receive, Error>)
        requires
            old(self).shared_state.send_result.wf(),
        ensures
            final(self).same_end(*old(self)),
            ({
                let shared = old(self).shared_state;
                let queued = old(self).context.recv.queued();
                let left = final(self).context.recv.queued();
                match shared.connected_to {
                    None => {
                        &&& result matches Err(error) && error@ == (
                            ErrorKind::NotConnected,
                            "not connected"@,
                        )
                        &&& final(self).shared_state == shared
                        &&& left == queued
                        &&& final(buf)@ == old(buf)@
                    },
                    Some(peer) => {
                        &&& final(self).shared_state == after_check(shared)
                        &&& received_from(shared, queued, peer, old(buf)@, final(buf)@, result)
                        &&& match result {
                            Ok(Receive::Received(_, _)) => exists|index: int| #[trigger]
                                first_from(queued, peer, index) && left == queued.skip(index + 1),
                            _ => left == (if reported(shared) is Some {
                                queued
                            } else {
                                Seq::empty()
                            }),
                        }
                    },
                }
            }),
    {
        let peer = match self.peer_addr() {
            Ok(peer) => peer,
            Err(error) => {
                return Err(error);
            },
        };
        let ghost queued = self.context.recv.queued();
        let ghost start = buf@;
        let ghost mut dropped: int = 0;
        assert(queued.take(0) =~= Seq::empty());
        assert(queued.skip(0) =~= queued);
        loop
            invariant
                self.same_end(*old(self)),
                self.shared_state.send_result.wf(),
                0 <= dropped <= queued.len(),
                queued == old(self).context.recv.queued(),
                self.context.recv.queued() == queued.skip(dropped),
                start == old(buf)@,
                buf@ == copied_each(start, queued.take(dropped)),
                forall|i: int| 0 <= i < dropped ==> (#[trigger] queued[i]).0 != peer,
                old(self).shared_state.connected_to == Some(peer),
                if dropped == 0 {
                    self.shared_state == old(self).shared_state
                } else {
                    self.shared_state == after_check(old(self).shared_state) && reported(
                        old(self).shared_state,
                    ) is None
                },
            decreases self.context.recv.queued().len(),
        {
            let result = self.recv_from(buf);
            match result {
                Ok(Receive::Received(count, source)) => {
                    assert(queued.take(dropped + 1).drop_last() =~= queued.take(dropped));
                    assert(queued.skip(dropped)[0] == queued[dropped]);
                    assert(queued.skip(dropped).skip(1) =~= queued.skip(dropped + 1));
                    if source == peer {
                        proof {
                            copied_each_keeps_length(start, queued.take(dropped));
                            assert(first_from(queued, peer, dropped));
                        }
                        return Ok(Receive::Received(count, source));
                    }
                    proof {
                        dropped = dropped + 1;
                    }
                },
                other => {
                    assert(queued.take(queued.len() as int) =~= queued);
                    assert(queued.skip(queued.len() as int) =~= Seq::empty());
                    return other;
                },
            }
        }
    }

    /// As [`UdpSocket::recv`], but the datagram stays where it is.
    pub fn peek(&mut self, buf: &mut [u8]) -> (result: Result<Receive, Error>)
        requires
            old(self).shared_state.send_result.wf(),
        ensures
            final(self).same_end(*old(self)),
            ({
                let shared = old(self).shared_state;
                let queued = old(self).context.recv.queued();
                let left = final(self).context.recv.queued();
                match shared.connected_to {
                    None => {
                        &&& result matches Err(error) && error@ == (
                            ErrorKind::NotConnected,
                            "not connected"@,
                        )
                        &&& final(self).shared_state == shared
                        &&& left == queued
                        &&& final(buf)@ == old(buf)@
                    },
                    Some(peer) => {
                        &&& final(self).shared_state == after_check(shared)
                        &&& received_from(shared, queued, peer, old(buf)@, final(buf)@, result)
                        &&& match result {
                            Ok(Receive::Received(_, _)) => exists|index: int| #[trigger]
                                first_from(queued, peer, index) && left == queued.skip(index),
                            _ => left == (if reported(shared) is Some {
                                queued
                            } else {
                                Seq::empty()
                            }),
                        }
                    },
                }
            }),
    {
        let peer = match self.peer_addr() {
            Ok(peer) => peer,
            Err(error) => {
                return Err(error);
            },
        };
        let ghost queued = self.context.recv.queued();
        let ghost start = buf@;
        let ghost mut dropped: int = 0;
        assert(queued.take(0) =~= Seq::empty());
        assert(queued.skip(0) =~= queued);
        loop
            invariant
                self.same_end(*old(self)),
                self.shared_state.send_result.wf(),
                0 <= dropped <= queued.len(),
                queued == old(self).context.recv.queued(),
                self.context.recv.queued() == queued.skip(dropped),
                start == old(buf)@,
                buf@ == copied_each(start, queued.take(dropped)),
                forall|i: int| 0 <= i < dropped ==> (#[trigger] queued[i]).0 != peer,
                old(self).shared_state.connected_to == Some(peer),
                if dropped == 0 {
                    self.shared_state == old(self).shared_state
                } else {
                    self.shared_state == after_check(old(self).shared_state) && reported(
                        old(self).shared_state,
                    ) is None
                },
            decreases self.context.recv.queued().len(),
        {
            let result = self.peek_from(buf);
            match result {
                Ok(Receive::Received(count, source)) => {
                    assert(queued.take(dropped + 1).drop_last() =~= queued.take(dropped));
                    assert(queued.take(dropped + 1).last() == queued[dropped]);
                    assert(queued.skip(dropped)[0] == queued[dropped]);
                    assert(queued.skip(dropped).skip(1) =~= queued.skip(dropped + 1));
                    proof {
                        copied_each_keeps_length(start, queued.take(dropped));
                        copied_each_keeps_length(start, queued.take(dropped + 1));
                    }
                    if source == peer {
                        assert(first_from(queued, peer, dropped));
                        return Ok(Receive::Received(count, source));
                    }
                    // It is of no interest.
                    let _dropped = self.recv_from(buf);
                    proof {
                        dropped = dropped + 1;
                    }
                },
                other => {
                    assert(queued.take(queued.len() as int) =~= queued);
                    assert(queued.skip(queued.len() as int) =~= Seq::empty());
                    return other;
                },
            }
        }
    }

    /// The peer.
    pub fn peer_addr(&self) -> (result: Result<SocketAddr, Error>)
        ensures
            match result {
                Ok(peer) => self.shared_state.connected_to == Some(peer),
                Err(error) => self.shared_state.connected_to is None && error@ == (
                    ErrorKind::NotConnected,
                    "not connected"@,
                ),
            },
    {
        match self.shared_state.connected_to {
            Some(peer) => Ok(peer),
            None => Err(Error::new(ErrorKind::NotConnected, "not connected")),
        }
    }

    /// The address that the socket is bound to.
    pub fn local_addr(&self) -> (address: SocketAddr)
        ensures
            address == self.socket_addr,
    {
        self.socket_addr
    }

    /// Says whether the socket may send to broadcast addresses.
    pub fn set_broadcast(&mut self, enabled: bool)
        ensures
            *final(self) == (UdpSocket {
                shared_state: UdpSocketSharedState {
                    allow_broadcast: enabled,
                    ..old(self).shared_state
                },
                ..*old(self)
            }),
    {
        self.shared_state.allow_broadcast = enabled;
    }

    /// Whether the socket may send to broadcast addresses.
    pub fn broadcast(&self) -> (enabled: bool)
        ensures
            enabled == self.shared_state.allow_broadcast,
    {
        self.shared_state.allow_broadcast
    }

    /// Says whether the socket does not wait.
    pub fn set_nonblocking(&mut self, enabled: bool)
        ensures
            *final(self) == (UdpSocket {
                shared_state: UdpSocketSharedState {
                    is_nonblocking: enabled,
                    ..old(self).shared_state
                },
                ..*old(self)
            }),
    {
        self.shared_state.is_nonblocking = enabled;
    }
}

} // verus!
