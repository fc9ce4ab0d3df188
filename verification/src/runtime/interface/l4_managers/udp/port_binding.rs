//! Which addresses are taken by sockets.

use super::handle::{SocketState, UdpSocketHandle};
use super::messages::{ReceivedView, SendMessageView, UdpRecvMessage};
use crate::net::{IpAddr, SocketAddr};
use vstd::prelude::*;

verus! {

/// For which addresses a socket gets datagrams.
#[derive(Debug, PartialEq, Eq, Clone, Copy, Structural)]
pub enum AddressBindingTarget {
    Any,
    AnyIpv4,
    AnyIpv6,
    Specific(IpAddr),
}

impl AddressBindingTarget {
    /// Whether the target takes in any IPv4 address.
    pub open spec fn takes_ipv4(self) -> bool {
        match self {
            AddressBindingTarget::Any | AddressBindingTarget::AnyIpv4 => true,
            AddressBindingTarget::AnyIpv6 => false,
            AddressBindingTarget::Specific(ip) => ip is V4,
        }
    }

    /// Whether the target takes in any IPv6 address.
    pub open spec fn takes_ipv6(self) -> bool {
        match self {
            AddressBindingTarget::Any | AddressBindingTarget::AnyIpv6 => true,
            AddressBindingTarget::AnyIpv4 => false,
            AddressBindingTarget::Specific(ip) => ip is V6,
        }
    }

    /// Whether the target takes in an address.
    pub open spec fn takes(self, ip: IpAddr) -> bool {
        match self {
            AddressBindingTarget::Any => true,
            AddressBindingTarget::AnyIpv4 => ip is V4,
            AddressBindingTarget::AnyIpv6 => ip is V6,
            AddressBindingTarget::Specific(own) => ip == own,
        }
    }

    /// Whether the target and a request for an address are after the same datagrams. A request for
    /// an unspecified address is after those of its family, and after those of both where it binds
    /// both.
    pub open spec fn overlaps(self, request: IpAddr, unspecified_binds_dual_stack: bool) -> bool {
        if request.is_unspecified() {
            unspecified_binds_dual_stack || (if request is V4 {
                self.takes_ipv4()
            } else {
                self.takes_ipv6()
            })
        } else {
            self.takes(request)
        }
    }
}

/// The target of a socket that is bound to an address.
pub open spec fn target_of(ip: IpAddr, unspecified_binds_dual_stack: bool) -> AddressBindingTarget {
    if !ip.is_unspecified() {
        AddressBindingTarget::Specific(ip)
    } else if unspecified_binds_dual_stack {
        AddressBindingTarget::Any
    } else if ip is V4 {
        AddressBindingTarget::AnyIpv4
    } else {
        AddressBindingTarget::AnyIpv6
    }
}

/// A socket on a port.
pub struct AddressBinding {
    pub target: AddressBindingTarget,
    /// The address that the socket asked for.
    pub original: SocketAddr,
    pub handle: UdpSocketHandle,
}

impl AddressBinding {
    /// Whether the socket is not bound to one address.
    pub fn is_any(&self) -> (result: bool)
        ensures
            result == !(self.target is Specific),
    {
        match self.target {
            AddressBindingTarget::Any => true,
            AddressBindingTarget::AnyIpv4 => true,
            AddressBindingTarget::AnyIpv6 => true,
            AddressBindingTarget::Specific(_) => false,
        }
    }

    /// Whether the socket gets datagrams for IPv4 addresses.
    pub fn is_ipv4(&self) -> (result: bool)
        ensures
            result == self.target.takes_ipv4(),
    {
        match self.target {
            AddressBindingTarget::Any => true,
            AddressBindingTarget::AnyIpv4 => true,
            AddressBindingTarget::AnyIpv6 => false,
            AddressBindingTarget::Specific(ip) => ip.is_ipv4(),
        }
    }

    /// Whether the socket gets datagrams for IPv4 addresses only.
    pub fn is_only_ipv4(&self) -> (result: bool)
        ensures
            result == (self.target.takes_ipv4() && !self.target.takes_ipv6()),
    {
        match self.target {
            AddressBindingTarget::Any => false,
            AddressBindingTarget::AnyIpv6 => false,
            AddressBindingTarget::AnyIpv4 => true,
            AddressBindingTarget::Specific(ip) => ip.is_ipv4(),
        }
    }

    /// Whether the socket gets datagrams for IPv6 addresses.
    pub fn is_ipv6(&self) -> (result: bool)
        ensures
            result == self.target.takes_ipv6(),
    {
        match self.target {
            AddressBindingTarget::Any => true,
            AddressBindingTarget::AnyIpv6 => true,
            AddressBindingTarget::AnyIpv4 => false,
            AddressBindingTarget::Specific(ip) => ip.is_ipv6(),
        }
    }

    /// Whether the socket gets datagrams for IPv6 addresses only.
    pub fn is_only_ipv6(&self) -> (result: bool)
        ensures
            result == (self.target.takes_ipv6() && !self.target.takes_ipv4()),
    {
        match self.target {
            AddressBindingTarget::Any => false,
            AddressBindingTarget::AnyIpv4 => false,
            AddressBindingTarget::AnyIpv6 => true,
            AddressBindingTarget::Specific(ip) => ip.is_ipv6(),
        }
    }

    /// Whether the socket gets datagrams for an address.
    pub fn matches(&self, ip: &IpAddr) -> (result: bool)
        ensures
            result == self.target.takes(*ip),
    {
        match self.target {
            AddressBindingTarget::Any => true,
            AddressBindingTarget::AnyIpv4 => ip.is_ipv4(),
            AddressBindingTarget::AnyIpv6 => ip.is_ipv6(),
            AddressBindingTarget::Specific(own) => *ip == own,
        }
    }

    /// Whether the socket lets others have the same address.
    pub fn allows_reuse(&self) -> (result: bool)
        ensures
            result == self.handle.state.allow_reuse,
    {
        self.handle.state.allow_reuse
    }

    /// Whether the socket and a request for an address are after the same datagrams.
    fn overlaps(&self, request: &IpAddr, unspecified_binds_dual_stack: bool) -> (result: bool)
        ensures
            result == self.target.overlaps(*request, unspecified_binds_dual_stack),
    {
        if request.is_unspecified() {
            if unspecified_binds_dual_stack {
                true
            } else if request.is_ipv4() {
                self.is_ipv4()
            } else {
                self.is_ipv6()
            }
        } else {
            self.matches(request)
        }
    }
}

/// Whether an address can be bound beside other sockets on its port: each socket that is after the
/// same datagrams has to let others have the address, and so does the new one.
pub open spec fn bindable(
    bindings: Seq<AddressBinding>,
    request: IpAddr,
    allow_reuse: bool,
    unspecified_binds_dual_stack: bool,
) -> bool {
    forall|i: int|
        0 <= i < bindings.len() ==> ((#[trigger] bindings[i]).target.overlaps(
            request,
            unspecified_binds_dual_stack,
        ) ==> allow_reuse && bindings[i].handle.state.allow_reuse)
}

/// Whether the socket at an index is the first one that gets datagrams for an address.
pub open spec fn first_taking(bindings: Seq<AddressBinding>, ip: IpAddr, index: int) -> bool {
    &&& 0 <= index < bindings.len()
    &&& bindings[index].target.takes(ip)
    &&& forall|i: int| 0 <= i < index ==> !(#[trigger] bindings[i]).target.takes(ip)
}

/// Whether the socket at an index is the first one that asked for an address.
pub open spec fn first_original(
    bindings: Seq<AddressBinding>,
    addr: SocketAddr,
    index: int,
) -> bool {
    &&& 0 <= index < bindings.len()
    &&& bindings[index].original == addr
    &&& forall|i: int| 0 <= i < index ==> (#[trigger] bindings[i]).original != addr
}

/// The sockets on a port.
pub struct AddressBindings(pub Vec<AddressBinding>);

impl AddressBindings {
    /// Whether an address can be bound by a socket that shares it with none.
    fn is_bindable_exclusive(
        &self,
        request: &SocketAddr,
        unspecified_binds_dual_stack: bool,
    ) -> (result: bool)
        ensures
            result == bindable(self.0@, request.ip, false, unspecified_binds_dual_stack),
    {
        let mut i: usize = 0;
        while i < self.0.len()
            invariant
                i <= self.0@.len(),
                forall|j: int|
                    0 <= j < i ==> !(#[trigger] self.0@[j]).target.overlaps(
                        request.ip,
                        unspecified_binds_dual_stack,
                    ),
            decreases self.0@.len() - i,
        {
            if self.0[i].overlaps(&request.ip, unspecified_binds_dual_stack) {
                assert(self.0@[i as int].target.overlaps(
                    request.ip,
                    unspecified_binds_dual_stack,
                ));
                return false;
            }
            i = i + 1;
        }
        true
    }

    /// Whether an address can be bound by a socket that shares it with others that do.
    fn is_bindable_allow_reuse(
        &self,
        request: &SocketAddr,
        unspecified_binds_dual_stack: bool,
    ) -> (result: bool)
        ensures
            result == bindable(self.0@, request.ip, true, unspecified_binds_dual_stack),
    {
        let mut i: usize = 0;
        while i < self.0.len()
            invariant
                i <= self.0@.len(),
                forall|j: int|
                    0 <= j < i ==> ((#[trigger] self.0@[j]).target.overlaps(
                        request.ip,
                        unspecified_binds_dual_stack,
                    ) ==> self.0@[j].handle.state.allow_reuse),
            decreases self.0@.len() - i,
        {
            if self.0[i].overlaps(&request.ip, unspecified_binds_dual_stack)
                && !self.0[i].allows_reuse() {
                assert(self.0@[i as int].target.overlaps(
                    request.ip,
                    unspecified_binds_dual_stack,
                ));
                return false;
            }
            i = i + 1;
        }
        true
    }

    /// Whether an address can be bound.
    pub fn is_bindable(
        &self,
        request: &SocketAddr,
        allow_reuse: bool,
        unspecified_binds_dual_stack: bool,
    ) -> (result: bool)
        ensures
            result == bindable(
                self.0@,
                request.ip,
                allow_reuse,
                unspecified_binds_dual_stack,
            ),
    {
        if allow_reuse {
            self.is_bindable_allow_reuse(request, unspecified_binds_dual_stack)
        } else {
            self.is_bindable_exclusive(request, unspecified_binds_dual_stack)
        }
    }

    /// The position of the first socket that gets datagrams for an address.
    pub fn position(&self, request: &IpAddr) -> (position: Option<usize>)
        ensures
            match position {
                Some(index) => first_taking(self.0@, *request, index as int),
                None => forall|i: int|
                    0 <= i < self.0@.len() ==> !(#[trigger] self.0@[i]).target.takes(*request),
            },
    {
        let mut i: usize = 0;
        while i < self.0.len()
            invariant
                i <= self.0@.len(),
                forall|j: int| 0 <= j < i ==> !(#[trigger] self.0@[j]).target.takes(*request),
            decreases self.0@.len() - i,
        {
            if self.0[i].matches(request) {
                return Some(i);
            }
            i = i + 1;
        }
        None
    }

    /// The first socket that gets datagrams for an address, to be changed.
    pub fn get_mut(&mut self, request: &IpAddr) -> (handle: Option<&mut UdpSocketHandle>)
        ensures
            match handle {
                Some(handle) => exists|index: int| #[trigger]
                    first_taking(old(self).0@, *request, index) && *handle
                        == old(self).0@[index].handle && final(self).0@ == old(self).0@.update(
                        index,
                        AddressBinding { handle: *final(handle), ..old(self).0@[index] },
                    ),
                None => {
                    &&& forall|i: int|
                        0 <= i < old(self).0@.len() ==> !(
                        #[trigger] old(self).0@[i]).target.takes(*request)
                    &&& final(self).0@ == old(self).0@
                },
            },
    {
        match self.position(request) {
            Some(index) => Some(&mut self.0[index].handle),
            None => None,
        }
    }

    /// Adds a socket that is bound to an address.
    pub fn insert(
        &mut self,
        addr: SocketAddr,
        handle: UdpSocketHandle,
        unspecified_binds_dual_stack: bool,
    )
        ensures
            final(self).0@ == old(self).0@.push(
                AddressBinding {
                    target: target_of(addr.ip, unspecified_binds_dual_stack),
                    original: addr,
                    handle,
                },
            ),
    {
        let target = if !addr.ip.is_unspecified() {
            AddressBindingTarget::Specific(addr.ip)
        } else if unspecified_binds_dual_stack {
            AddressBindingTarget::Any
        } else if addr.is_ipv4() {
            AddressBindingTarget::AnyIpv4
        } else {
            AddressBindingTarget::AnyIpv6
        };
        self.0.push(AddressBinding { target, original: addr, handle });
    }

    /// Removes the first socket that asked for an address.
    pub fn remove(&mut self, addr: &SocketAddr)
        ensures
            removed(old(self).0@, final(self).0@, *addr),
    {
        let mut i: usize = 0;
        while i < self.0.len()
            invariant
                i <= self.0@.len(),
                self.0@ == old(self).0@,
                forall|j: int| 0 <= j < i ==> (#[trigger] self.0@[j]).original != *addr,
            decreases self.0@.len() - i,
        {
            if self.0[i].original == *addr {
                assert(first_original(self.0@, *addr, i as int));
                let _removed = self.0.remove(i);
                return ;
            }
            i = i + 1;
        }
    }
}

/// Whether the first socket that asked for an address was removed, if there was one.
pub open spec fn removed(
    before: Seq<AddressBinding>,
    after: Seq<AddressBinding>,
    addr: SocketAddr,
) -> bool {
    ||| exists|index: int| #[trigger]
        first_original(before, addr, index) && after == before.remove(index)
    ||| {
        &&& forall|i: int| 0 <= i < before.len() ==> (#[trigger] before[i]).original != addr
        &&& after == before
    }
}

/// The sockets on all ports.
pub struct PortBindings(pub Vec<Option<Box<AddressBindings>>>);

impl PortBindings {
    /// There is a place for each port.
    pub open spec fn wf(self) -> bool {
        self.0@.len() == 65536
    }

    /// The sockets on a port.
    pub open spec fn on_port(self, port: u16) -> Seq<AddressBinding> {
        match self.0@[port as int] {
            Some(bindings) => bindings.0@,
            None => Seq::empty(),
        }
    }

    /// No sockets.
    pub fn new() -> (bindings: Self)
        ensures
            bindings.wf(),
            forall|port: u16| #[trigger] bindings.on_port(port) == Seq::<AddressBinding>::empty(),
    {
        let mut ports: Vec<Option<Box<AddressBindings>>> = Vec::new();
        // One more than the highest port, which is a port too.
        while ports.len() < 65536
            invariant
                ports@.len() <= 65536,
                forall|i: int| 0 <= i < ports@.len() ==> #[trigger] ports@[i] is None,
            decreases 65536 - ports@.len(),
        {
            ports.push(None);
        }
        PortBindings(ports)
    }

    /// Whether an address can be bound.
    pub fn is_bindable(
        &self,
        addr: &SocketAddr,
        allow_reuse: bool,
        unspecified_binds_dual_stack: bool,
    ) -> (result: bool)
        requires
            self.wf(),
        ensures
            result == bindable(
                self.on_port(addr.port),
                addr.ip,
                allow_reuse,
                unspecified_binds_dual_stack,
            ),
    {
        match &self.0[addr.port as usize] {
            Some(bindings) => bindings.is_bindable(addr, allow_reuse, unspecified_binds_dual_stack),
            None => true,
        }
    }

    /// Adds a socket that is bound to an address.
    pub fn insert(
        &mut self,
        addr: SocketAddr,
        handle: UdpSocketHandle,
        unspecified_binds_dual_stack: bool,
    )
        requires
            old(self).wf(),
        ensures
            final(self).wf(),
            forall|port: u16| #[trigger]
                final(self).on_port(port) == (if port == addr.port {
                    old(self).on_port(port).push(
                        AddressBinding {
                            target: target_of(addr.ip, unspecified_binds_dual_stack),
                            original: addr,
                            handle,
                        },
                    )
                } else {
                    old(self).on_port(port)
                }),
    {
        let mut bindings = match self.take_port(addr.port) {
            Some(bindings) => bindings,
            None => Box::new(AddressBindings(Vec::new())),
        };
        bindings.insert(addr, handle, unspecified_binds_dual_stack);
        self.0.set(addr.port as usize, Some(bindings));
    }

    /// Takes the sockets on a port.
    fn take_port(&mut self, port: u16) -> (bindings: Option<Box<AddressBindings>>)
        requires
            old(self).wf(),
        ensures
            final(self).wf(),
            bindings == old(self).0@[port as int],
            final(self).0@ == old(self).0@.update(port as int, None),
    {
        let mut slot: Option<Box<AddressBindings>> = None;
        core::mem::swap(&mut slot, &mut self.0[port as usize]);
        slot
    }

    /// The first socket that gets datagrams for an address, to be changed.
    pub fn get_mut(&mut self, input: &SocketAddr) -> (handle: Option<&mut UdpSocketHandle>)
        requires
            old(self).wf(),
        ensures
            final(self).wf(),
            match handle {
                Some(handle) => exists|index: int| #[trigger]
                    first_taking(old(self).on_port(input.port), input.ip, index) && *handle
                        == old(self).on_port(input.port)[index].handle && forall|port: u16|
                     #[trigger]
                        final(self).on_port(port) == (if port == input.port {
                            old(self).on_port(port).update(
                                index,
                                AddressBinding {
                                    handle: *final(handle),
                                    ..old(self).on_port(port)[index]
                                },
                            )
                        } else {
                            old(self).on_port(port)
                        }),
                None => {
                    &&& forall|i: int|
                        0 <= i < old(self).on_port(input.port).len() ==> !(
                        #[trigger] old(self).on_port(input.port)[i]).target.takes(input.ip)
                    &&& forall|port: u16| #[trigger]
                        final(self).on_port(port) == old(self).on_port(port)
                },
            },
    {
        match &mut self.0[input.port as usize] {
            Some(bindings) => bindings.get_mut(&input.ip),
            None => None,
        }
    }

    /// Removes the first socket that asked for an address.
    pub fn remove(&mut self, original: &SocketAddr)
        requires
            old(self).wf(),
        ensures
            final(self).wf(),
            removed(
                old(self).on_port(original.port),
                final(self).on_port(original.port),
                *original,
            ),
            forall|port: u16|
                port != original.port ==> #[trigger] final(self).on_port(port) == old(
                    self,
                ).on_port(port),
    {
        if let Some(bindings) = self.take_port(original.port) {
            let mut bindings = bindings;
            bindings.remove(original);
            self.0.set(original.port as usize, Some(bindings));
        }
    }
}

/// The socket that gets a datagram for an address: the first one for the address itself, or else
/// the first one for any address of its family.
pub open spec fn listener(bindings: Seq<AddressBinding>, ip: IpAddr) -> Option<int> {
    if exists|i: int| #[trigger] first_taking(bindings, ip, i) {
        Some(choose|i: int| #[trigger] first_taking(bindings, ip, i))
    } else if exists|i: int| #[trigger] first_taking(bindings, ip.to_unspecified(), i) {
        Some(choose|i: int| #[trigger] first_taking(bindings, ip.to_unspecified(), i))
    } else {
        None
    }
}

/// What is known of a socket on a port.
pub struct BindingView {
    pub target: AddressBindingTarget,
    pub original: SocketAddr,
    pub state: SocketState,
    /// The datagrams that wait to be read.
    pub queued: Seq<ReceivedView>,
    /// How many datagrams can wait.
    pub capacity: nat,
    /// What the socket told.
    pub messages: Seq<SendMessageView>,
    /// How much the socket can have told.
    pub message_capacity: nat,
}

impl View for AddressBinding {
    type V = BindingView;

    open spec fn view(&self) -> BindingView {
        BindingView {
            target: self.target,
            original: self.original,
            state: self.handle.state,
            queued: self.handle.recv.queued(),
            capacity: self.handle.recv.capacity(),
            messages: self.handle.send.queued(),
            message_capacity: self.handle.send.capacity(),
        }
    }
}

/// What is known of sockets.
pub open spec fn binding_views(bindings: Seq<AddressBinding>) -> Seq<BindingView> {
    Seq::new(bindings.len(), |i: int| bindings[i]@)
}

impl PortBindings {
    /// What is known of the sockets on a port.
    pub open spec fn port_view(self, port: u16) -> Seq<BindingView> {
        binding_views(self.on_port(port))
    }

    /// The socket that gets a datagram for an address.
    pub fn listener_position(&self, addr: &SocketAddr) -> (position: Option<usize>)
        requires
            self.wf(),
        ensures
            match position {
                Some(index) => {
                    &&& index < self.on_port(addr.port).len()
                    &&& listener(self.on_port(addr.port), addr.ip) == Some(index as int)
                },
                None => listener(self.on_port(addr.port), addr.ip) is None,
            },
    {
        match &self.0[addr.port as usize] {
            Some(bindings) => {
                proof {
                    first_taking_is_told(bindings.0@, addr.ip);
                    first_taking_is_told(bindings.0@, addr.ip.to_unspecified());
                }
                match bindings.position(&addr.ip) {
                    Some(index) => Some(index),
                    None => bindings.position(&addr.ip.to_unspecified()),
                }
            },
            None => None,
        }
    }

    /// What an interface knows of the socket at a position.
    pub fn state_at(&self, port: u16, index: usize) -> (state: SocketState)
        requires
            self.wf(),
            index < self.on_port(port).len(),
        ensures
            state == self.port_view(port)[index as int].state,
    {
        match &self.0[port as usize] {
            Some(bindings) => bindings.0[index].handle.state,
            None => {
                proof {
                    assert(false);
                }
                vstd::pervasive::unreached()
            },
        }
    }

    /// Hands a datagram to the socket at a position. Returns whether there was room.
    pub fn deliver(&mut self, port: u16, index: usize, message: UdpRecvMessage) -> (delivered: bool)
        requires
            old(self).wf(),
            index < old(self).on_port(port).len(),
        ensures
            final(self).wf(),
            ({
                let socket = old(self).port_view(port)[index as int];
                let after = BindingView {
                    queued: if delivered {
                        socket.queued.push(message@)
                    } else {
                        socket.queued
                    },
                    ..socket
                };
                &&& delivered == (socket.queued.len() < socket.capacity)
                &&& forall|other: u16| #[trigger]
                    final(self).port_view(other) == (if other == port {
                        old(self).port_view(port).update(index as int, after)
                    } else {
                        old(self).port_view(other)
                    })
            }),
    {
        let ghost before = *self;
        let mut delivered: bool = false;
        if let Some(bindings) = self.take_port(port) {
            let mut bindings = bindings;
            let ghost had = bindings.0@;
            delivered = bindings.0[index].handle.recv.try_push(message);
            self.0.set(port as usize, Some(bindings));
            assert forall|other: u16| other != port implies #[trigger] self.on_port(other)
                == before.on_port(other) by {}
            assert(self.port_view(port) =~= before.port_view(port).update(
                index as int,
                self.port_view(port)[index as int],
            ));
        }
        delivered
    }
}

/// There is one first socket for an address at most.
proof fn first_taking_is_told(bindings: Seq<AddressBinding>, ip: IpAddr)
    ensures
        forall|i: int, j: int|
            #![trigger first_taking(bindings, ip, i), first_taking(bindings, ip, j)]
            first_taking(bindings, ip, i) && first_taking(bindings, ip, j) ==> i == j,
{
    assert forall|i: int, j: int|
        #![trigger first_taking(bindings, ip, i), first_taking(bindings, ip, j)]
        first_taking(bindings, ip, i) && first_taking(bindings, ip, j) implies i == j by {
        if i < j {
            assert(!bindings[i].target.takes(ip));
        }
        if j < i {
            assert(!bindings[j].target.takes(ip));
        }
    }
}

/// What one socket has, another that shares with none cannot get: an address that was bound cannot
/// be bound again unless both sockets let others have it.
pub proof fn bound_address_is_taken(
    bindings: Seq<AddressBinding>,
    new: AddressBinding,
    request: IpAddr,
    allow_reuse: bool,
    dual_stack: bool,
)
    requires
        new.target == target_of(request, dual_stack),
        !allow_reuse || !new.handle.state.allow_reuse,
    ensures
        !bindable(bindings.push(new), request, allow_reuse, dual_stack),
{
    let after = bindings.push(new);
    assert(after[bindings.len() as int] == new);
    assert(new.target.overlaps(request, dual_stack));
}

/// Where an address can be bound by a socket that shares it with none, it can be bound by one that
/// shares it.
pub proof fn exclusive_implies_shared(
    bindings: Seq<AddressBinding>,
    request: IpAddr,
    dual_stack: bool,
)
    requires
        bindable(bindings, request, false, dual_stack),
    ensures
        bindable(bindings, request, true, dual_stack),
{
}

/// Whether of any two sockets on a port that are after the same datagrams both let others have
/// them.
pub open spec fn sharing_agreed(bindings: Seq<AddressBinding>, dual_stack: bool) -> bool {
    forall|i: int, j: int|
        0 <= i < j < bindings.len() && (#[trigger] bindings[i]).target.overlaps(
            (#[trigger] bindings[j]).original.ip,
            dual_stack,
        ) ==> bindings[i].handle.state.allow_reuse && bindings[j].handle.state.allow_reuse
}

/// Sockets that are added only where their address can be bound share addresses only where all of
/// them agree.
pub proof fn binding_keeps_agreement(
    bindings: Seq<AddressBinding>,
    new: AddressBinding,
    dual_stack: bool,
)
    requires
        sharing_agreed(bindings, dual_stack),
        bindable(bindings, new.original.ip, new.handle.state.allow_reuse, dual_stack),
    ensures
        sharing_agreed(bindings.push(new), dual_stack),
{
    let after = bindings.push(new);
    assert forall|i: int, j: int|
        0 <= i < j < after.len() && (#[trigger] after[i]).target.overlaps(
            (#[trigger] after[j]).original.ip,
            dual_stack,
        ) implies after[i].handle.state.allow_reuse && after[j].handle.state.allow_reuse by {
        assert(after[i] == bindings[i]);
        if j < bindings.len() {
            assert(after[j] == bindings[j]);
        }
    }
}

/// A socket that is bound to an address gets the datagrams for it, unless another socket on the
/// port that came before gets them.
pub proof fn bound_socket_listens(
    bindings: Seq<AddressBinding>,
    new: AddressBinding,
    dual_stack: bool,
)
    requires
        new.target == target_of(new.original.ip, dual_stack),
    ensures
        listener(bindings.push(new), new.original.ip) matches Some(index) && 0 <= index
            <= bindings.len() && bindings.push(new)[index].target.takes(new.original.ip),
{
    let after = bindings.push(new);
    let ip = new.original.ip;
    assert(after[bindings.len() as int].target.takes(ip));
    first_taking_exists(after, ip, bindings.len() as int);
}

proof fn first_taking_exists(bindings: Seq<AddressBinding>, ip: IpAddr, at: int)
    requires
        0 <= at < bindings.len(),
        bindings[at].target.takes(ip),
    ensures
        exists|i: int| #[trigger] first_taking(bindings, ip, i) && i <= at,
    decreases at,
{
    if forall|i: int| 0 <= i < at ==> !(#[trigger] bindings[i]).target.takes(ip) {
        assert(first_taking(bindings, ip, at));
    } else {
        let i = choose|i: int| 0 <= i < at && (#[trigger] bindings[i]).target.takes(ip);
        first_taking_exists(bindings, ip, i);
    }
}

} // verus!
