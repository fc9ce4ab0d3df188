//! What runs an interface.

use super::context::{ContextView, InterfaceContext, MAX_MTU, MIN_MTU};
use super::l2_ethernet::arp_table::{arp_can_count, arp_request, lists_pending, ArpState};
use super::l2_ethernet::{
    arp_request_sent, arp_timers, frame_handled, frame_ok, gratuitous_arp_sent, EthernetHandler,
};
use super::l3_ipv4::identifications_drawn;
use super::l4_managers::ping::{
    earlier, earlier_of, session_at, session_started, timers_ok, timers_performed, without_stopped,
    EntryView, PingEntryKey, PingView,
};
use super::l4_managers::Managers;
use super::InterfaceError;
use crate::buffer::bytes_contents;
use crate::net::{Ipv4Addr, NetworkAddress};
use crate::protocols::ethernet::mac::MacAddr;
use crate::protocols::ipv4::icmp::EchoMessageDataUnix;
use crate::protocols::ipv4::{mask_bits, prefix_to_mask};
use crate::runtime::address_table::{first_for, has_address, network_of, without_first};
use crate::runtime::channel::{
    NetworkRecvPayload, NetworkSendPayload, NetworkSender, NetworkSenderError, PayloadView,
};
use crate::runtime::network::{HandleView, InterfaceHandle};
use crate::runtime::route_table::{
    put_among_unique, with_route, without_flagged_source, without_source, RouteInformation,
};
use crate::time::{Duration, Instant};
use crate::write_to_buffer::WriteToBuffer;
use bytes::Bytes;
use vstd::prelude::*;

verus! {

/// What an interface is asked to do. Whoever asks is told what came of it by the number of the
/// request.
#[derive(Debug, PartialEq, Eq, Clone, Copy, Structural)]
pub enum InterfaceControlMessage {
    /// Add an address with a prefix length, unless another station has it.
    IPv4AddressAdd { addr: Ipv4Addr, prefix: u8, request: u64 },
    /// Remove an address.
    IPv4AddressRemove { addr: Ipv4Addr },
    /// Add a route.
    IPv4RouteAdd {
        target: Ipv4Addr,
        target_mask: Ipv4Addr,
        next_hop: Ipv4Addr,
        src: Option<Ipv4Addr>,
        request: u64,
    },
    /// Start an echo session.
    Ping { target: Ipv4Addr, count: Option<usize>, interval: Duration, request: u64 },
    /// Stop.
    Stop,
}

impl InterfaceControlMessage {
    /// Asks for a route to the network of an address.
    pub fn route_add(
        target: Ipv4Addr,
        prefix: u8,
        next_hop: Ipv4Addr,
        src: Option<Ipv4Addr>,
        request: u64,
    ) -> (message: Self)
        requires
            prefix <= 32,
        ensures
            message == (InterfaceControlMessage::IPv4RouteAdd {
                target: network_of(target, Ipv4Addr { bits: mask_bits(prefix) }),
                target_mask: Ipv4Addr { bits: mask_bits(prefix) },
                next_hop,
                src,
                request,
            }),
    {
        let target_mask = prefix_to_mask(prefix);
        InterfaceControlMessage::IPv4RouteAdd {
            target: target.mask_with(target_mask),
            target_mask,
            next_hop,
            src,
            request,
        }
    }

    /// Asks for an echo session, with an echo each second where nothing else is asked for.
    pub fn ping(
        target: Ipv4Addr,
        count: Option<usize>,
        interval: Option<Duration>,
        request: u64,
    ) -> (message: Self)
        ensures
            message == (InterfaceControlMessage::Ping {
                target,
                count,
                interval: match interval {
                    Some(interval) => interval,
                    None => Duration { nanos: 1_000_000_000 },
                },
                request,
            }),
    {
        let interval = match interval {
            Some(interval) => interval,
            None => Duration::from_secs(1),
        };
        InterfaceControlMessage::Ping { target, count, interval, request }
    }
}

/// What came of a request.
#[derive(Debug, PartialEq, Eq, Clone, Copy, Structural)]
pub enum ControlReply {
    /// It was done.
    Done,
    /// It failed.
    Failed(InterfaceError),
    /// The session with this key was started.
    Session(PingEntryKey),
    /// No session could be started, as all identifiers are taken.
    NoIdentifier,
}

/// An address that is to be added once it is known that no other station has it: the address, its
/// mask and the number of the request.
pub type PendingAddress = (Ipv4Addr, Ipv4Addr, u64);

/// What is told to whoever asked: the number of the request, and what came of it.
pub type Told = (u64, ControlReply);

/// What an interface remembers and does, as far as requests go.
#[verifier::ext_equal]
pub struct WorkerView {
    pub pending: Seq<PendingAddress>,
    pub context: ContextView,
    pub ping: PingView,
    pub replies: Seq<Told>,
}

/// What comes of asking whether another station has an address.
pub open spec fn address_add(
    worker: WorkerView,
    addr: Ipv4Addr,
    prefix: u8,
    request: u64,
    now: Instant,
) -> WorkerView {
    let (context, result) = arp_request_sent(
        worker.context,
        addr,
        Ipv4Addr::unspecified(),
        now,
    );
    match result {
        Ok(_) => WorkerView {
            context,
            pending: worker.pending.push((addr, Ipv4Addr { bits: mask_bits(prefix) }, request)),
            ..worker
        },
        Err(error) => WorkerView {
            context,
            replies: worker.replies.push(
                (request, ControlReply::Failed(InterfaceError::AddressCheckFailed(error))),
            ),
            ..worker
        },
    }
}

/// The addresses that are still to be added when one is given up, and what is told of it. They are
/// looked at from the last to the first.
pub open spec fn pending_cancelled(pending: Seq<PendingAddress>, addr: Ipv4Addr) -> (
    Seq<PendingAddress>,
    Seq<Told>,
)
    decreases pending.len(),
{
    if pending.len() == 0 {
        (Seq::empty(), Seq::empty())
    } else {
        let (kept, told) = pending_cancelled(pending.skip(1), addr);
        if pending[0].0 == addr {
            (
                kept,
                told.push((pending[0].2, ControlReply::Failed(InterfaceError::AddressRemoved))),
            )
        } else {
            (seq![pending[0]] + kept, told)
        }
    }
}

/// What comes of removing an address: it is not added any more, the routes that send from it are
/// removed, and so is the address itself.
pub open spec fn address_removed(worker: WorkerView, addr: Ipv4Addr) -> WorkerView {
    let (kept, told) = pending_cancelled(worker.pending, addr);
    WorkerView {
        pending: kept,
        replies: worker.replies + told,
        context: ContextView {
            routes: without_source(worker.context.routes, addr),
            addresses: without_first(worker.context.addresses, addr),
            ..worker.context
        },
        ..worker
    }
}

/// The address from which a route sends: the one that was asked for, or the first one in whose
/// network the next hop lies. It has to be an address of the interface.
pub open spec fn route_source(
    addresses: Seq<(Ipv4Addr, Ipv4Addr)>,
    next_hop: Ipv4Addr,
    src: Option<Ipv4Addr>,
) -> Result<Ipv4Addr, InterfaceError> {
    let wanted = match src {
        Some(src) => Some(src),
        None => first_for(addresses, next_hop),
    };
    match wanted {
        None => Err(InterfaceError::RouteNextHopUnreachable),
        Some(src) => if has_address(addresses, src) {
            Ok(src)
        } else {
            Err(InterfaceError::RouteUnknownSource)
        },
    }
}

/// What comes of adding a route.
pub open spec fn route_added(
    context: ContextView,
    target: Ipv4Addr,
    target_mask: Ipv4Addr,
    next_hop: Ipv4Addr,
    src: Option<Ipv4Addr>,
) -> (ContextView, Result<(), InterfaceError>) {
    match route_source(context.addresses, next_hop, src) {
        Err(error) => (context, Err(error)),
        Ok(source) => (
            ContextView {
                routes: with_route(
                    context.routes,
                    RouteInformation {
                        target,
                        mask: target_mask,
                        source,
                        next_hop: Some(next_hop),
                    },
                ),
                ..context
            },
            Ok(()),
        ),
    }
}

/// What becomes of an address that is to be added when it is looked at. Where nobody answers for it
/// the address and the route to its network are added, and the address is announced.
pub open spec fn address_checked(context: ContextView, pending: PendingAddress, now: Instant) -> (
    ContextView,
    Option<ControlReply>,
) {
    let (addr, mask, _) = pending;
    let (arp, state) = arp_request(context.arp, addr, Ipv4Addr::unspecified(), now);
    let requested = ContextView { arp, ..context };
    match state {
        ArpState::PendingWait { .. } => (requested, None),
        ArpState::PendingRetry { .. } | ArpState::ResolvedStale(_) | ArpState::Restart => {
            let (asked, result) = arp_request_sent(
                requested,
                addr,
                Ipv4Addr::unspecified(),
                now,
            );
            match result {
                Ok(_) => (asked, None),
                Err(error) => (
                    asked,
                    Some(ControlReply::Failed(InterfaceError::AddressCheckFailed(error))),
                ),
            }
        },
        ArpState::Timeout => {
            let added = ContextView {
                addresses: requested.addresses.push((addr, mask)),
                routes: with_route(
                    requested.routes,
                    RouteInformation {
                        target: network_of(addr, mask),
                        mask,
                        source: addr,
                        next_hop: None,
                    },
                ),
                ..requested
            };
            (gratuitous_arp_sent(added, addr).0, Some(ControlReply::Done))
        },
        ArpState::Resolved(_) => (
            requested,
            Some(ControlReply::Failed(InterfaceError::AddressInUse)),
        ),
    }
}

/// What becomes of the addresses that are to be added when they are looked at, from the last to the
/// first.
pub open spec fn addresses_checked(
    context: ContextView,
    pending: Seq<PendingAddress>,
    now: Instant,
) -> (ContextView, Seq<PendingAddress>, Seq<Told>)
    decreases pending.len(),
{
    if pending.len() == 0 {
        (context, Seq::empty(), Seq::empty())
    } else {
        let (before, kept, told) = addresses_checked(context, pending.skip(1), now);
        let (after, reply) = address_checked(before, pending[0], now);
        match reply {
            None => (after, seq![pending[0]] + kept, told),
            Some(reply) => (after, kept, told.push((pending[0].2, reply))),
        }
    }
}

/// What runs an interface.
pub struct InterfaceWorker {
    pub ipv4_pending_addresses: Vec<PendingAddress>,
    pub context: InterfaceContext,
    pub managers: Managers,
    /// What is still to be told to whoever asked.
    pub replies: Vec<Told>,
}

impl View for InterfaceWorker {
    type V = WorkerView;

    open spec fn view(&self) -> WorkerView {
        WorkerView {
            pending: self.ipv4_pending_addresses@,
            context: self.context@,
            ping: self.managers.ping_manager@,
            replies: self.replies@,
        }
    }
}

/// Whether a request is one that can be handled.
pub open spec fn control_ok(
    context: ContextView,
    message: InterfaceControlMessage,
    now: Instant,
) -> bool {
    message matches InterfaceControlMessage::IPv4AddressAdd { addr, prefix, .. } ==> {
        &&& arp_can_count(context.arp, addr)
        &&& arp_request_sent(context, addr, Ipv4Addr::unspecified(), now).1 is Ok ==> prefix <= 32
    }
}

/// What an interface remembers after a request was handled.
pub open spec fn context_after(
    context: ContextView,
    message: InterfaceControlMessage,
    now: Instant,
) -> ContextView {
    match message {
        InterfaceControlMessage::IPv4AddressAdd { addr, .. } => arp_request_sent(
            context,
            addr,
            Ipv4Addr::unspecified(),
            now,
        ).0,
        InterfaceControlMessage::IPv4AddressRemove { addr } => ContextView {
            routes: without_source(context.routes, addr),
            addresses: without_first(context.addresses, addr),
            ..context
        },
        InterfaceControlMessage::IPv4RouteAdd { target, target_mask, next_hop, src, .. } =>
            route_added(context, target, target_mask, next_hop, src).0,
        _ => context,
    }
}

/// Whether each of some requests up to the first one to stop is one that can be handled when its
/// turn comes.
pub open spec fn controls_ok(
    context: ContextView,
    messages: Seq<InterfaceControlMessage>,
    now: Instant,
) -> bool
    decreases messages.len(),
{
    messages.len() == 0 || messages[0] is Stop || {
        &&& control_ok(context, messages[0], now)
        &&& controls_ok(context_after(context, messages[0], now), messages.skip(1), now)
    }
}

/// How many of some requests are handled: those up to the first one to stop.
pub open spec fn handled_count(messages: Seq<InterfaceControlMessage>) -> nat
    decreases messages.len(),
{
    if messages.len() == 0 || messages[0] is Stop {
        0
    } else {
        1 + handled_count(messages.skip(1))
    }
}

/// Whether requests were handled one after the other, from the first of some states to the last.
pub open spec fn controls_handled(
    states: Seq<WorkerView>,
    messages: Seq<InterfaceControlMessage>,
    now: Instant,
) -> bool {
    &&& states.len() == handled_count(messages) + 1
    &&& steps_handled(states, messages, now)
}

/// Whether each state is the one before it after a request was handled.
pub open spec fn steps_handled(
    states: Seq<WorkerView>,
    messages: Seq<InterfaceControlMessage>,
    now: Instant,
) -> bool {
    forall|i: int|
        0 <= i < states.len() - 1 ==> control_handled(
            #[trigger] states[i],
            states[i + 1],
            messages[i],
            now,
        )
}

proof fn steps_extended(
    states: Seq<WorkerView>,
    next: WorkerView,
    messages: Seq<InterfaceControlMessage>,
    now: Instant,
)
    requires
        states.len() > 0,
        steps_handled(states, messages, now),
        control_handled(states.last(), next, messages[states.len() - 1], now),
    ensures
        steps_handled(states.push(next), messages, now),
{
    let more = states.push(next);
    assert forall|j: int| 0 <= j < more.len() - 1 implies control_handled(
        #[trigger] more[j],
        more[j + 1],
        messages[j],
        now,
    ) by {
        if j < states.len() - 1 {
            assert(more[j] == states[j] && more[j + 1] == states[j + 1]);
        }
    }
}

/// Whether frames were handled, one after the other, from the first of some states to the last.
pub open spec fn frames_handled(
    states: Seq<(ContextView, Managers)>,
    frames: Seq<Seq<u8>>,
    identifications: Seq<u16>,
    clock: EchoMessageDataUnix,
    now: Instant,
) -> bool {
    &&& states.len() == identifications.len() + 1
    &&& forall|i: int|
        0 <= i < identifications.len() ==> identifications[i] < u16::MAX && frame_handled(
            states[i],
            states[i + 1],
            frames[i],
            clock,
            #[trigger] identifications[i],
            now,
        )
}

/// Whether frames were handled up to one that cannot be received, if there is one.
pub open spec fn frames_received(
    states: Seq<(ContextView, Managers)>,
    frames: Seq<Seq<u8>>,
    identifications: Seq<u16>,
    clock: EchoMessageDataUnix,
    now: Instant,
    all: bool,
) -> bool {
    let count = identifications.len() as int;
    &&& frames_handled(states, frames, identifications, clock, now)
    &&& if all {
        count == frames.len()
    } else {
        count < frames.len() && !frame_ok(
            states.last().0,
            states.last().1,
            frames[count],
            now,
        )
    }
}

proof fn frames_extended(
    states: Seq<(ContextView, Managers)>,
    next: (ContextView, Managers),
    frames: Seq<Seq<u8>>,
    identifications: Seq<u16>,
    identification: u16,
    clock: EchoMessageDataUnix,
    now: Instant,
)
    requires
        frames_handled(states, frames, identifications, clock, now),
        identification < u16::MAX,
        frame_handled(
            states.last(),
            next,
            frames[identifications.len() as int],
            clock,
            identification,
            now,
        ),
    ensures
        frames_handled(
            states.push(next),
            frames,
            identifications.push(identification),
            clock,
            now,
        ),
{
    let all = states.push(next);
    let drawn = identifications.push(identification);
    assert forall|i: int| 0 <= i < drawn.len() implies drawn[i] < u16::MAX && frame_handled(
        all[i],
        all[i + 1],
        frames[i],
        clock,
        #[trigger] drawn[i],
        now,
    ) by {
        if i < identifications.len() {
            assert(drawn[i] == identifications[i]);
            assert(all[i] == states[i] && all[i + 1] == states[i + 1]);
        }
    }
}

/// What becomes of an interface when it looks at the addresses that are to be added.
pub open spec fn pending_checked(worker: WorkerView, now: Instant) -> WorkerView {
    let (context, pending, told) = addresses_checked(worker.context, worker.pending, now);
    WorkerView { context, pending, replies: worker.replies + told, ..worker }
}

/// Whether a request was handled.
pub open spec fn control_handled(
    before: WorkerView,
    after: WorkerView,
    message: InterfaceControlMessage,
    now: Instant,
) -> bool {
    match message {
        InterfaceControlMessage::IPv4AddressAdd { addr, prefix, request } => after == address_add(
            before,
            addr,
            prefix,
            request,
            now,
        ),
        InterfaceControlMessage::IPv4AddressRemove { addr } => after == address_removed(
            before,
            addr,
        ),
        InterfaceControlMessage::IPv4RouteAdd { target, target_mask, next_hop, src, request } => {
            let (context, result) = route_added(
                before.context,
                target,
                target_mask,
                next_hop,
                src,
            );
            after == WorkerView {
                context,
                replies: before.replies.push(
                    (
                        request,
                        match result {
                            Ok(_) => ControlReply::Done,
                            Err(error) => ControlReply::Failed(error),
                        },
                    ),
                ),
                ..before
            }
        },
        InterfaceControlMessage::Ping { target, count, interval, request } => {
            ||| exists|identifier: u16|
                {
                    let key = PingEntryKey(target, identifier);
                    &&& #[trigger] session_at(before.ping.sessions, PingEntryKey(target, identifier))
                        is None
                    &&& after == WorkerView {
                        ping: session_started(before.ping, key, count, interval),
                        replies: before.replies.push((request, ControlReply::Session(key))),
                        ..before
                    }
                }
            ||| {
                &&& forall|identifier: u16| #[trigger]
                    session_at(before.ping.sessions, PingEntryKey(target, identifier)) is Some
                &&& after == WorkerView {
                    replies: before.replies.push((request, ControlReply::NoIdentifier)),
                    ..before
                }
            }
        },
        InterfaceControlMessage::Stop => after == before,
    }
}

impl InterfaceWorker {
    pub open spec fn wf(self) -> bool {
        self.context.wf() && self.managers.wf()
    }

    /// What requests do not touch.
    pub open spec fn same_rest(self, other: Self) -> bool {
        self.context.same_setup(other.context) && self.managers.udp_manager
            == other.managers.udp_manager
    }

    /// An interface that knows nothing yet.
    pub fn new(
        network_tx: NetworkSender,
        mtu: usize,
        mac_addr: MacAddr,
        ephemeral_ports: (u16, u16),
    ) -> (worker: Self)
        requires
            MIN_MTU <= mtu <= MAX_MTU,
        ensures
            worker.wf(),
            worker@ == (WorkerView {
                pending: Seq::empty(),
                context: ContextView {
                    mtu: mtu as int,
                    mac: mac_addr,
                    sent: network_tx.queued(),
                    capacity: network_tx.capacity(),
                    arp: Map::empty(),
                    addresses: Seq::empty(),
                    routes: Seq::empty(),
                    waiting: Map::empty(),
                },
                ping: PingView { sessions: Seq::empty(), events: Seq::empty() },
                replies: Seq::empty(),
            }),
            worker.managers.udp_manager.is_empty(),
            worker.context.network_tx == network_tx,
            worker.context.ephemeral_ports == ephemeral_ports,
    {
        let worker = InterfaceWorker {
            ipv4_pending_addresses: Vec::new(),
            context: InterfaceContext::new(mtu, mac_addr, network_tx, ephemeral_ports),
            managers: Managers::new(),
            replies: Vec::new(),
        };
        assert(worker@.ping.sessions =~= Seq::empty());
        assert(worker@.ping.events =~= Seq::empty());
        worker
    }

    /// Asks whether another station has an address that is to be added.
    pub fn handle_ipv4_address_add(
        &mut self,
        addr: Ipv4Addr,
        prefix: u8,
        request: u64,
        now: Instant,
    )
        requires
            old(self).wf(),
            now.can_look_ahead(),
            arp_can_count(old(self)@.context.arp, addr),
            arp_request_sent(old(self)@.context, addr, Ipv4Addr::unspecified(), now).1 is Ok
                ==> prefix <= 32,
        ensures
            final(self).wf(),
            final(self).same_rest(*old(self)),
            final(self)@ == address_add(old(self)@, addr, prefix, request, now),
    {
        match EthernetHandler::send_arp_request(
            &mut self.context,
            addr,
            Ipv4Addr::unspecified(),
            now,
        ) {
            Err(error) => {
                self.replies.push(
                    (request, ControlReply::Failed(InterfaceError::AddressCheckFailed(error))),
                );
            },
            Ok(_) => {
                self.ipv4_pending_addresses.push((addr, prefix_to_mask(prefix), request));
            },
        }
    }

    /// Removes an address.
    pub fn handle_ipv4_address_remove(&mut self, addr: Ipv4Addr)
        requires
            old(self).wf(),
        ensures
            final(self).wf(),
            final(self).same_rest(*old(self)),
            final(self)@ == address_removed(old(self)@, addr),
    {
        let ghost all = self.ipv4_pending_addresses@;
        let mut i: usize = self.ipv4_pending_addresses.len();
        assert(all.skip(i as int) =~= Seq::<PendingAddress>::empty());
        assert(all.take(i as int) + Seq::<PendingAddress>::empty() =~= all);
        assert(self.replies@ + Seq::<Told>::empty() =~= self.replies@);
        // From the last to the first, so that removing one does not move those to come.
        while i > 0
            invariant
                i <= all.len(),
                self.context == old(self).context,
                self.managers == old(self).managers,
                self.ipv4_pending_addresses@ == all.take(i as int) + pending_cancelled(
                    all.skip(i as int),
                    addr,
                ).0,
                self.replies@ == old(self).replies@ + pending_cancelled(
                    all.skip(i as int),
                    addr,
                ).1,
            decreases i,
        {
            i = i - 1;
            let ghost (kept, told) = pending_cancelled(all.skip(i + 1), addr);
            assert(all.skip(i as int).skip(1) =~= all.skip(i + 1));
            assert(all.skip(i as int)[0] == all[i as int]);
            assert(self.ipv4_pending_addresses@[i as int] == all[i as int]);
            if self.ipv4_pending_addresses[i].0 == addr {
                let (_, _, request) = self.ipv4_pending_addresses.remove(i);
                self.replies.push((request, ControlReply::Failed(InterfaceError::AddressRemoved)));
                assert(self.ipv4_pending_addresses@ =~= all.take(i as int) + kept);
                assert(self.replies@ =~= old(self).replies@ + told.push(
                    (request, ControlReply::Failed(InterfaceError::AddressRemoved)),
                ));
            } else {
                assert(all.take(i + 1) + kept =~= all.take(i as int) + (seq![all[i as int]]
                    + kept));
            }
        }
        assert(all.skip(0) =~= all);
        assert(all.take(0) + pending_cancelled(all, addr).0 =~= pending_cancelled(all, addr).0);
        let ghost routes = self.context.ipv4_route_table@;
        let predicate = |route: &RouteInformation<Ipv4Addr>| -> (picked: bool)
            ensures
                picked == (route.source == addr),
            { route.source == addr };
        self.context.ipv4_route_table.remove_matching(predicate);
        proof {
            let flags = choose|flags: Seq<bool>|
                {
                    &&& flags.len() == routes.len()
                    &&& forall|i: int|
                        0 <= i < flags.len() ==> predicate.ensures(
                            (&routes[i],),
                            #[trigger] flags[i],
                        )
                    &&& self.context.ipv4_route_table@
                        == #[trigger] crate::runtime::route_table::without_flagged(routes, flags)
                };
            without_flagged_source(routes, flags, addr);
        }
        self.context.ipv4_addresses.remove(addr);
    }

    /// Adds a route.
    pub fn handle_ipv4_route_add(
        &mut self,
        target: Ipv4Addr,
        target_mask: Ipv4Addr,
        next_hop: Ipv4Addr,
        src: Option<Ipv4Addr>,
    ) -> (result: Result<(), InterfaceError>)
        requires
            old(self).wf(),
        ensures
            final(self).wf(),
            final(self).same_rest(*old(self)),
            ({
                let (context, outcome) = route_added(
                    old(self)@.context,
                    target,
                    target_mask,
                    next_hop,
                    src,
                );
                &&& result == outcome
                &&& final(self)@ == (WorkerView { context, ..old(self)@ })
            }),
    {
        let wanted: Option<Ipv4Addr> = match src {
            Some(src) => Some(src),
            None => self.context.ipv4_addresses.first_with_subnet_containing(next_hop),
        };
        let source = match wanted {
            Some(source) => source,
            None => {
                return Err(InterfaceError::RouteNextHopUnreachable);
            },
        };
        if !self.context.ipv4_addresses.contains(source) {
            return Err(InterfaceError::RouteUnknownSource);
        }
        let ghost before = self.context.ipv4_route_table@;
        self.context.ipv4_route_table.insert_or_update(target, target_mask, source, Some(next_hop));
        proof {
            put_among_unique(
                before,
                self.context.ipv4_route_table@,
                self.context.ipv4_route_table@,
                RouteInformation { target, mask: target_mask, source, next_hop: Some(next_hop) },
            );
        }
        Ok(())
    }

    /// Whether a request is one that can be handled.
    pub fn can_handle(&self, message: &InterfaceControlMessage, now: Instant) -> (result: bool)
        requires
            self.wf(),
        ensures
            result == control_ok(self@.context, *message, now),
    {
        match *message {
            InterfaceControlMessage::IPv4AddressAdd { addr, prefix, .. } => {
                let (countable, may_ask) = self.context.arp_table.question_state(addr);
                let sent: bool = !may_ask || self.context.network_tx.has_room();
                countable && (!sent || prefix <= 32)
            },
            _ => true,
        }
    }

    /// Handles a request. Returns whether the interface goes on.
    pub fn handle_control(&mut self, message: InterfaceControlMessage, now: Instant) -> (goes_on:
        bool)
        requires
            old(self).wf(),
            now.can_look_ahead(),
            control_ok(old(self)@.context, message, now),
        ensures
            final(self).wf(),
            final(self).same_rest(*old(self)),
            control_handled(old(self)@, final(self)@, message, now),
            final(self)@.context == context_after(old(self)@.context, message, now),
            goes_on == !(message is Stop),
    {
        match message {
            InterfaceControlMessage::IPv4AddressAdd { addr, prefix, request } => {
                self.handle_ipv4_address_add(addr, prefix, request, now);
            },
            InterfaceControlMessage::IPv4AddressRemove { addr } => {
                self.handle_ipv4_address_remove(addr);
            },
            InterfaceControlMessage::IPv4RouteAdd {
                target,
                target_mask,
                next_hop,
                src,
                request,
            } => {
                let reply = match self.handle_ipv4_route_add(target, target_mask, next_hop, src) {
                    Ok(_) => ControlReply::Done,
                    Err(error) => ControlReply::Failed(error),
                };
                self.replies.push((request, reply));
            },
            InterfaceControlMessage::Ping { target, count, interval, request } => {
                let ghost sessions = self@.ping.sessions;
                let reply = match self.managers.ping_manager.ping(target, count, interval) {
                    Some(key) => {
                        assert(session_at(sessions, PingEntryKey(target, key.1)) is None);
                        ControlReply::Session(key)
                    },
                    None => ControlReply::NoIdentifier,
                };
                self.replies.push((request, reply));
            },
            InterfaceControlMessage::Stop => {
                return false;
            },
        }
        true
    }

    /// Looks at the address at an index among those that are to be added.
    fn check_pending_address(&mut self, index: usize, now: Instant)
        requires
            old(self).wf(),
            now.can_look_ahead(),
            index < old(self)@.pending.len(),
        ensures
            final(self).wf(),
            final(self).same_rest(*old(self)),
            ({
                let pending = old(self)@.pending[index as int];
                let (context, reply) = address_checked(old(self)@.context, pending, now);
                final(self)@ == (match reply {
                    None => WorkerView { context, ..old(self)@ },
                    Some(reply) => WorkerView {
                        context,
                        pending: old(self)@.pending.remove(index as int),
                        replies: old(self)@.replies.push((pending.2, reply)),
                        ..old(self)@
                    },
                })
            }),
    {
        let (addr, mask, request) = self.ipv4_pending_addresses[index];
        let reply: Option<ControlReply> = match self.context.arp_table.request(
            addr,
            Ipv4Addr::unspecified(),
            now,
        ) {
            ArpState::PendingWait { .. } => None,
            ArpState::PendingRetry { .. } => self.ask_again(addr, now),
            ArpState::ResolvedStale(_) => self.ask_again(addr, now),
            ArpState::Restart => self.ask_again(addr, now),
            ArpState::Timeout => {
                self.context.ipv4_addresses.insert(addr, mask);
                let ghost before = self.context.ipv4_route_table@;
                let network = addr.mask_with(mask);
                self.context.ipv4_route_table.insert_or_update(network, mask, addr, None);
                proof {
                    put_among_unique(
                        before,
                        self.context.ipv4_route_table@,
                        self.context.ipv4_route_table@,
                        RouteInformation { target: network, mask, source: addr, next_hop: None },
                    );
                }
                let _sent = EthernetHandler::send_gratuitous_arp(&mut self.context, addr);
                Some(ControlReply::Done)
            },
            ArpState::Resolved(_) => Some(ControlReply::Failed(InterfaceError::AddressInUse)),
        };
        if let Some(reply) = reply {
            let _removed = self.ipv4_pending_addresses.remove(index);
            self.replies.push((request, reply));
        }
    }

    /// Asks again whether another station has an address.
    fn ask_again(&mut self, addr: Ipv4Addr, now: Instant) -> (reply: Option<ControlReply>)
        requires
            old(self).wf(),
            now.can_look_ahead(),
            arp_can_count(old(self)@.context.arp, addr),
        ensures
            final(self).wf(),
            final(self).same_rest(*old(self)),
            ({
                let (context, result) = arp_request_sent(
                    old(self)@.context,
                    addr,
                    Ipv4Addr::unspecified(),
                    now,
                );
                &&& final(self)@ == (WorkerView { context, ..old(self)@ })
                &&& reply == (match result {
                    Ok(_) => None,
                    Err(error) => Some(
                        ControlReply::Failed(InterfaceError::AddressCheckFailed(error)),
                    ),
                })
            }),
    {
        match EthernetHandler::send_arp_request(
            &mut self.context,
            addr,
            Ipv4Addr::unspecified(),
            now,
        ) {
            Ok(_) => None,
            Err(error) => Some(ControlReply::Failed(InterfaceError::AddressCheckFailed(error))),
        }
    }

    /// Looks at the addresses that are to be added.
    pub fn check_pending_addresses(&mut self, now: Instant)
        requires
            old(self).wf(),
            now.can_look_ahead(),
        ensures
            final(self).wf(),
            final(self).same_rest(*old(self)),
            final(self)@ == pending_checked(old(self)@, now),
    {
        let ghost all = self@.pending;
        let mut i: usize = self.ipv4_pending_addresses.len();
        assert(all.skip(i as int) =~= Seq::<PendingAddress>::empty());
        assert(all.take(i as int) + Seq::<PendingAddress>::empty() =~= all);
        assert(self.replies@ + Seq::<Told>::empty() =~= self.replies@);
        while i > 0
            invariant
                i <= all.len(),
                now.can_look_ahead(),
                self.wf(),
                self.same_rest(*old(self)),
                self@.ping == old(self)@.ping,
                ({
                    let (context, kept, told) = addresses_checked(
                        old(self)@.context,
                        all.skip(i as int),
                        now,
                    );
                    &&& self@.context == context
                    &&& self@.pending == all.take(i as int) + kept
                    &&& self@.replies == old(self)@.replies + told
                }),
            decreases i,
        {
            i = i - 1;
            let ghost (_, kept, told) = addresses_checked(
                old(self)@.context,
                all.skip(i + 1),
                now,
            );
            let ghost before = self@;
            assert(all.skip(i as int).skip(1) =~= all.skip(i + 1));
            assert(all.skip(i as int)[0] == all[i as int]);
            assert(self@.pending[i as int] == all[i as int]);
            self.check_pending_address(i, now);
            proof {
                let (context, reply) = address_checked(before.context, all[i as int], now);
                match reply {
                    None => {
                        assert(all.take(i + 1) + kept =~= all.take(i as int) + (seq![all[i as int]]
                            + kept));
                    },
                    Some(reply) => {
                        assert(self@.pending =~= all.take(i as int) + kept);
                        assert(self@.replies =~= old(self)@.replies + told.push(
                            (all[i as int].2, reply),
                        ));
                    },
                }
            }
        }
        assert(all.skip(0) =~= all);
        proof {
            let (_, kept, told) = addresses_checked(old(self)@.context, all, now);
            assert(all.take(0) + kept =~= kept);
        }
    }

    /// Handles requests up to the first one to stop, and then, unless there was one, looks at the
    /// addresses that are to be added. Returns whether the interface goes on, or how many requests
    /// were handled before one that cannot be.
    #[verifier::spinoff_prover]
    #[verifier::rlimit(40)]
    pub fn perform_control(&mut self, messages: &Vec<InterfaceControlMessage>, now: Instant) -> (outcome:
        Result<bool, usize>)
        requires
            old(self).wf(),
            now.can_look_ahead(),
        ensures
            final(self).wf(),
            final(self).same_rest(*old(self)),
            outcome is Ok <==> controls_ok(old(self)@.context, messages@, now),
            outcome matches Ok(goes_on) ==> {
                &&& goes_on == (handled_count(messages@) == messages@.len())
                &&& exists|states: Seq<WorkerView>|
                    {
                        &&& #[trigger] controls_handled(states, messages@, now)
                        &&& states[0] == old(self)@
                        &&& final(self)@ == (if goes_on {
                            pending_checked(states.last(), now)
                        } else {
                            states.last()
                        })
                    }
            },
            outcome matches Err(count) ==> {
                &&& count < handled_count(messages@)
                &&& !control_ok(final(self)@.context, messages@[count as int], now)
                &&& exists|states: Seq<WorkerView>|
                    {
                        &&& #[trigger] steps_handled(states, messages@, now)
                        &&& states.len() == count + 1
                        &&& states[0] == old(self)@
                        &&& states.last() == final(self)@
                    }
            },
    {
        let ghost mut states: Seq<WorkerView> = seq![self@];
        let mut i: usize = 0;
        let mut stopped: bool = false;
        assert(messages@.skip(0) =~= messages@);
        while i < messages.len() && !stopped
            invariant
                i <= messages@.len(),
                self.wf(),
                self.same_rest(*old(self)),
                now.can_look_ahead(),
                states.len() == i + 1,
                states[0] == old(self)@,
                states.last() == self@,
                steps_handled(states, messages@, now),
                controls_ok(old(self)@.context, messages@, now) == controls_ok(
                    self@.context,
                    messages@.skip(i as int),
                    now,
                ),
                handled_count(messages@) == i + handled_count(messages@.skip(i as int)),
                stopped ==> i < messages@.len() && messages@[i as int] is Stop,
            decreases messages@.len() - i + (if stopped {
                0int
            } else {
                1
            }),
        {
            let message = messages[i];
            assert(messages@.skip(i as int)[0] == message);
            if matches!(message, InterfaceControlMessage::Stop) {
                stopped = true;
            } else {
                if !self.can_handle(&message, now) {
                    return Err(i);
                }
                let _goes_on = self.handle_control(message, now);
                proof {
                    assert(messages@.skip(i as int).skip(1) =~= messages@.skip(i + 1));
                    steps_extended(states, self@, messages@, now);
                    states = states.push(self@);
                }
                i = i + 1;
            }
        }
        assert(controls_handled(states, messages@, now));
        if stopped {
            return Ok(false);
        }
        self.check_pending_addresses(now);
        Ok(true)
    }

    /// Receives a frame.
    pub fn recv(
        &mut self,
        frame: &Bytes,
        clock: EchoMessageDataUnix,
        now: Instant,
    )
        requires
            old(self).wf(),
            now.can_look_ahead(),
            frame_ok(old(self)@.context, old(self).managers, bytes_contents(*frame), now),
        ensures
            final(self).wf(),
            final(self).context.same_setup(old(self).context),
            final(self)@.pending == old(self)@.pending,
            final(self)@.replies == old(self)@.replies,
            exists|identification: u16|
                identification < u16::MAX && #[trigger] frame_handled(
                    (old(self)@.context, old(self).managers),
                    (final(self)@.context, final(self).managers),
                    bytes_contents(*frame),
                    clock,
                    identification,
                    now,
                ),
    {
        EthernetHandler::recv(&mut self.context, &mut self.managers, frame, clock, now);
    }

    /// Receives the frames that are on their way to the interface, the oldest first, up to one that
    /// cannot be received. Returns whether there was none of those.
    pub fn recv_waiting(
        &mut self,
        handle: &mut InterfaceHandle,
        clock: EchoMessageDataUnix,
        now: Instant,
    ) -> (all: bool)
        requires
            old(self).wf(),
            now.can_look_ahead(),
        ensures
            final(self).wf(),
            final(self).context.same_setup(old(self).context),
            final(self)@.pending == old(self)@.pending,
            final(self)@.replies == old(self)@.replies,
            exists|states: Seq<(ContextView, Managers)>, identifications: Seq<u16>| #[trigger]
                frames_received(
                    states,
                    old(handle)@.incoming,
                    identifications,
                    clock,
                    now,
                    all,
                ) && states[0] == (old(self)@.context, old(self).managers) && states.last() == (
                    final(self)@.context,
                    final(self).managers,
                ) && final(handle)@ == (HandleView {
                    incoming: if all {
                        Seq::empty()
                    } else {
                        old(handle)@.incoming.skip(identifications.len() as int + 1)
                    },
                    ..old(handle)@
                }),
    {
        let ghost frames = handle@.incoming;
        let ghost mut states: Seq<(ContextView, Managers)> = seq![(self@.context, self.managers)];
        let ghost mut identifications: Seq<u16> = Seq::empty();
        assert(frames.skip(0) =~= frames);
        loop
            invariant
                self.wf(),
                self.context.same_setup(old(self).context),
                self@.pending == old(self)@.pending,
                self@.replies == old(self)@.replies,
                now.can_look_ahead(),
                frames == old(handle)@.incoming,
                identifications.len() <= frames.len(),
                handle@ == (HandleView {
                    incoming: frames.skip(identifications.len() as int),
                    ..old(handle)@
                }),
                states[0] == (old(self)@.context, old(self).managers),
                states.last() == (self@.context, self.managers),
                frames_handled(states, frames, identifications, clock, now),
            decreases handle@.incoming.len(),
        {
            let ghost count = identifications.len() as int;
            match handle.next_incoming() {
                None => {
                    assert(frames.skip(count) =~= Seq::empty());
                    assert(frames_received(states, frames, identifications, clock, now, true));
                    return true;
                },
                Some(NetworkRecvPayload::Packet(frame)) => {
                    assert(frames.skip(count)[0] == frames[count]);
                    assert(frames.skip(count).skip(1) =~= frames.skip(count + 1));
                    if !EthernetHandler::can_recv(&self.context, &self.managers, &frame, now) {
                        assert(frames_received(states, frames, identifications, clock, now, false));
                        return false;
                    }
                    let ghost before = (self@.context, self.managers);
                    self.recv(&frame, clock, now);
                    proof {
                        let after = (self@.context, self.managers);
                        let identification = choose|identification: u16|
                            identification < u16::MAX && #[trigger] frame_handled(
                                before,
                                after,
                                bytes_contents(frame),
                                clock,
                                identification,
                                now,
                            );
                        frames_extended(
                            states,
                            after,
                            frames,
                            identifications,
                            identification,
                            clock,
                            now,
                        );
                        states = states.push(after);
                        identifications = identifications.push(identification);
                    }
                },
            }
        }
    }

    /// Whether all timers can be looked at.
    pub fn can_perform_timers(
        &self,
        stops: &Vec<PingEntryKey>,
        clock: EchoMessageDataUnix,
        now: Instant,
    ) -> (result: bool)
        ensures
            result == timers_ok(self@.context, self@.ping, stops@, clock, now),
    {
        self.managers.ping_manager.can_perform_timers(&self.context, stops, clock, now)
    }

    /// Looks at all timers. Returns when to look again: at the first deadline, or after a second
    /// where there is none.
    pub fn perform_timers(
        &mut self,
        stops: &Vec<PingEntryKey>,
        clock: EchoMessageDataUnix,
        now: Instant,
    ) -> (deadline: Instant)
        requires
            old(self).wf(),
            now.can_look_ahead(),
            timers_ok(old(self)@.context, old(self)@.ping, stops@, clock, now),
        ensures
            final(self).wf(),
            final(self).same_rest(*old(self)),
            final(self)@.pending == old(self)@.pending,
            final(self)@.replies == old(self)@.replies,
            exists|questions: Seq<(Ipv4Addr, Ipv4Addr)>, identifications: Seq<u16>|
                {
                    let asked = arp_timers(
                        old(self)@.context,
                        old(self)@.ping,
                        questions,
                        now,
                    ).1;
                    &&& lists_pending(questions, old(self)@.context.arp)
                    &&& identifications_drawn(
                        identifications,
                        without_stopped(asked.sessions, stops@).len(),
                    )
                    &&& #[trigger] all_timers(
                        old(self)@,
                        stops@,
                        clock,
                        questions,
                        identifications,
                        now,
                    ) == (final(self)@.context, final(self)@.ping, deadline)
                },
    {
        let ghost before = self@;
        let arp_deadline = EthernetHandler::perform_arp_timers(
            &mut self.context,
            &mut self.managers,
            now,
        );
        let ghost questions = choose|pending: Seq<(Ipv4Addr, Ipv4Addr)>|
            lists_pending(pending, before.context.arp) && #[trigger] arp_timers(
                before.context,
                before.ping,
                pending,
                now,
            ) == (self@.context, self@.ping, arp_deadline);
        proof {
            arp_timers_keep_schedules(before.context, before.ping, questions, now);
        }
        let ghost middle = self@;
        let ping_deadline = self.managers.ping_manager.perform_timers(
            &mut self.context,
            stops,
            clock,
            now,
        );
        let ghost identifications = choose|identifications: Seq<u16>|
            identifications_drawn(
                identifications,
                without_stopped(middle.ping.sessions, stops@).len(),
            ) && #[trigger] timers_performed(
                middle.context,
                middle.ping,
                stops@,
                clock,
                identifications,
                now,
            ) == (self@.context, self@.ping, ping_deadline);
        let deadline = match earlier_of(arp_deadline, ping_deadline) {
            Some(deadline) => deadline,
            None => now.after(Duration::from_secs(1)),
        };
        assert(all_timers(before, stops@, clock, questions, identifications, now) == (
            self@.context,
            self@.ping,
            deadline,
        ));
        deadline
    }

    /// Tells the network that the interface is gone.
    pub fn close(&mut self) -> (result: Result<(), NetworkSenderError>)
        requires
            old(self).wf(),
        ensures
            final(self).wf(),
            final(self).same_rest(*old(self)),
            ({
                let context = old(self)@.context;
                let room = context.sent.len() < context.capacity;
                &&& result is Ok == room
                &&& final(self)@ == (WorkerView {
                    context: ContextView {
                        sent: if room {
                            context.sent.push(PayloadView::Closed(context.mac))
                        } else {
                            context.sent
                        },
                        ..context
                    },
                    ..old(self)@
                })
            }),
    {
        self.context.network_tx.try_send(NetworkSendPayload::Closed(self.context.mac_addr))
    }
}

/// What becomes of everything that waits when all timers are looked at: first the questions, then
/// the sessions.
pub open spec fn all_timers(
    worker: WorkerView,
    stops: Seq<PingEntryKey>,
    clock: EchoMessageDataUnix,
    questions: Seq<(Ipv4Addr, Ipv4Addr)>,
    identifications: Seq<u16>,
    now: Instant,
) -> (ContextView, PingView, Instant) {
    let (asked, told, arp_deadline) = arp_timers(worker.context, worker.ping, questions, now);
    let (context, ping, ping_deadline) = timers_performed(
        asked,
        told,
        stops,
        clock,
        identifications,
        now,
    );
    (
        context,
        ping,
        match earlier(arp_deadline, ping_deadline) {
            Some(deadline) => deadline,
            None => Instant { nanos: (now.nanos + 1_000_000_000) as u64 },
        },
    )
}

/// Whether sessions are others but for the echoes that were not answered yet.
pub open spec fn same_schedules(one: PingView, other: PingView) -> bool {
    &&& one.sessions.len() == other.sessions.len()
    &&& forall|i: int|
        0 <= i < one.sessions.len() ==> (#[trigger] one.sessions[i]) == (EntryView {
            pending: one.sessions[i].pending,
            ..other.sessions[i]
        })
}

proof fn losses_keep_schedules(ping: PingView, losses: Seq<super::LossView>)
    ensures
        same_schedules(super::l4_managers::losses_forwarded(ping, losses), ping),
    decreases losses.len(),
{
    if losses.len() > 0 {
        losses_keep_schedules(ping, losses.drop_last());
    }
}

proof fn queue_sent_keeps_mtu(
    context: ContextView,
    mac: MacAddr,
    queue: Seq<super::context::DatagramView>,
)
    ensures
        super::l2_ethernet::queue_sent(context, mac, queue).0.mtu == context.mtu,
    decreases queue.len(),
{
    if queue.len() > 0 {
        queue_sent_keeps_mtu(context, mac, queue.drop_last());
    }
}

proof fn arp_timers_keep_schedules(
    context: ContextView,
    ping: PingView,
    pending: Seq<(Ipv4Addr, Ipv4Addr)>,
    now: Instant,
)
    ensures
        same_schedules(arp_timers(context, ping, pending, now).1, ping),
        arp_timers(context, ping, pending, now).0.mtu == context.mtu,
    decreases pending.len(),
{
    if pending.len() > 0 {
        arp_timers_keep_schedules(context, ping, pending.drop_last(), now);
        let (before, told, _) = arp_timers(context, ping, pending.drop_last(), now);
        let (address, source) = pending.last();
        let (arp, state) = arp_request(before.arp, address, source, now);
        let requested = ContextView { arp, ..before };
        let queue = requested.queue(address.bits);
        losses_keep_schedules(told, super::l2_ethernet::queue_lost(queue));
        match state {
            ArpState::Resolved(mac) | ArpState::ResolvedStale(mac) => {
                let start = super::l2_ethernet::without_queue(requested, address.bits);
                queue_sent_keeps_mtu(start, mac, queue);
                losses_keep_schedules(told, super::l2_ethernet::queue_sent(start, mac, queue).1);
            },
            _ => {},
        }
    }
}

/// After an address was removed no route sends from it, and the routes that send from others are
/// still there.
pub proof fn removed_address_has_no_routes(
    routes: Seq<RouteInformation<Ipv4Addr>>,
    addr: Ipv4Addr,
)
    ensures
        forall|route: RouteInformation<Ipv4Addr>| #[trigger]
            without_source(routes, addr).contains(route) == (routes.contains(route) && route.source
                != addr),
    decreases routes.len(),
{
    let rest = without_source(routes, addr);
    if routes.len() > 0 {
        let front = routes.drop_last();
        removed_address_has_no_routes(front, addr);
        let kept = without_source(front, addr);
        assert forall|route: RouteInformation<Ipv4Addr>| #[trigger]
            rest.contains(route) == (routes.contains(route) && route.source != addr) by {
            assert(kept.contains(route) == (front.contains(route) && route.source != addr));
            if routes.contains(route) {
                let i = choose|i: int| 0 <= i < routes.len() && routes[i] == route;
                if i < front.len() {
                    assert(front[i] == route);
                }
            }
            if front.contains(route) {
                let i = choose|i: int| 0 <= i < front.len() && front[i] == route;
                assert(routes[i] == route);
            }
            if kept.contains(route) {
                let i = choose|i: int| 0 <= i < kept.len() && kept[i] == route;
                assert(rest[i] == route);
            }
            if rest.contains(route) {
                let i = choose|i: int| 0 <= i < rest.len() && rest[i] == route;
                if i < kept.len() {
                    assert(kept[i] == route);
                } else {
                    assert(routes[routes.len() - 1] == route);
                }
            }
            if routes.last() == route && route.source != addr {
                assert(rest[rest.len() - 1] == route);
            }
        }
    }
}

/// An address for which nobody answered becomes one of the interface: the interface has it, has a
/// route to each address in its network, and announces it where there is room.
pub proof fn unanswered_address_is_added(
    context: ContextView,
    pending: PendingAddress,
    now: Instant,
    other: Ipv4Addr,
)
    requires
        context.wf(),
        arp_request(context.arp, pending.0, Ipv4Addr::unspecified(), now).1 is Timeout,
        network_of(other, pending.1) == network_of(pending.0, pending.1),
    ensures
        ({
            let (after, reply) = address_checked(context, pending, now);
            &&& reply == Some(ControlReply::Done)
            &&& has_address(after.addresses, pending.0)
            &&& super::l3_ipv4::route_to(after.routes, other) is Some
            &&& context.sent.len() < context.capacity ==> after.sent == context.sent.push(
                PayloadView::Packet(
                    super::l2_ethernet::frame_of(
                        context.mac,
                        MacAddr::broadcast(),
                        crate::protocols::ethernet::EtherType::ARP,
                        crate::protocols::arp::ArpMessage::gratuitous(
                            context.mac,
                            pending.0,
                        ).encoding(),
                    ),
                ),
            )
        }),
{
    let (addr, mask, _) = pending;
    let new = RouteInformation {
        target: network_of(addr, mask),
        mask,
        source: addr,
        next_hop: None,
    };
    let (after, _) = address_checked(context, pending, now);
    crate::runtime::address_table::added_address_is_found(context.addresses, addr, mask, addr);
    crate::runtime::route_table::route_can_be_put(context.routes, new);
    let routes = with_route(context.routes, new);
    assert(crate::runtime::route_table::put_among(context.routes, routes, new)
        && crate::runtime::route_table::ordered(routes));
    assert(new.matches(other));
    crate::runtime::route_table::added_route_is_found(context.routes, routes, new, other);
    let i = choose|i: int| #[trigger]
        crate::runtime::route_table::first_match(routes, other, i) && routes[i].mask.value()
            >= new.mask.value();
    assert(crate::runtime::route_table::first_match(routes, other, i));
}

/// An address that another station answers for is refused, and the interface stays without it.
pub proof fn answered_address_is_refused(
    context: ContextView,
    pending: PendingAddress,
    now: Instant,
)
    requires
        arp_request(context.arp, pending.0, Ipv4Addr::unspecified(), now).1 is Resolved,
    ensures
        address_checked(context, pending, now).1 == Some(
            ControlReply::Failed(InterfaceError::AddressInUse),
        ),
        address_checked(context, pending, now).0.addresses == context.addresses,
        address_checked(context, pending, now).0.routes == context.routes,
{
}

} // verus!
