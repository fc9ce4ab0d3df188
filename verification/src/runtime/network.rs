//! Several interfaces on one bridge.

use super::channel::{NetworkRecvPayload, ReceiveRing};
use crate::buffer::{as_slice, bytes_contents};
use crate::common::{Error as ParseError, ErrorKind};
use crate::net::{network_contains, Ipv4Addr};
use crate::protocols::ethernet::mac::{mac_at, MacAddr};
use crate::protocols::ethernet::EthernetHeader;
use bytes::Bytes;
use vstd::prelude::*;

verus! {

/// How many interfaces there can be.
pub const MAX_INTERFACES: usize = 256;

/// How many buffers are made when there are none left.
pub const POOL_STEP: usize = 64;

/// How many frames can be on their way to an interface.
pub const RECV_QUEUE_SIZE: usize = 4096;

/// How many frames can be on their way from an interface.
pub const SEND_QUEUE_SIZE: usize = 4096;

/// Why an operation on a network failed.
#[derive(Debug, PartialEq, Eq, Clone)]
pub enum NetworkError {
    /// The interface does not run.
    InterfaceHandleIncorrectSendState,
    /// Too much is on its way to the interface already. Holds what could not be sent.
    InterfaceSendFailed { payload: NetworkRecvPayload },
    /// There is no room for another interface.
    NoInterfaceSpace,
    /// Another interface, or the bridge, has the same address.
    MacAddressConflict,
}

/// Whether an interface runs.
#[derive(Debug, PartialEq, Eq, Clone, Copy, Structural)]
pub enum WorkerState {
    /// It was made, but not started.
    Worker,
    /// It runs.
    Handle,
}

impl WorkerState {
    /// Starts an interface that does not run yet.
    pub fn start(&mut self)
        ensures
            *final(self) == WorkerState::Handle,
    {
        if let WorkerState::Worker = *self {
            *self = WorkerState::Handle;
        }
    }
}

/// An interface on the bridge.
pub struct InterfaceHandle {
    pub mac: MacAddr,
    /// The number of the interface.
    pub id: u8,
    pub worker: WorkerState,
    pub receiver: ReceiveRing,
}

/// An interface on the bridge, with the frames that are on their way to it.
pub struct HandleView {
    pub mac: MacAddr,
    pub id: u8,
    pub worker: WorkerState,
    /// The frames, the oldest first.
    pub incoming: Seq<Seq<u8>>,
    /// How many there can be.
    pub capacity: nat,
}

impl View for InterfaceHandle {
    type V = HandleView;

    open spec fn view(&self) -> HandleView {
        HandleView {
            mac: self.mac,
            id: self.id,
            worker: self.worker,
            incoming: self.receiver.queued(),
            capacity: self.receiver.capacity(),
        }
    }
}

impl HandleView {
    /// Whether one more frame can be on its way to the interface: it runs, and its queue is not
    /// full.
    pub open spec fn takes_more(self) -> bool {
        self.worker == WorkerState::Handle && self.incoming.len() < self.capacity
    }

    /// The interface once it was handed one more frame.
    pub open spec fn with_frame(self, frame: Seq<u8>) -> HandleView {
        HandleView { incoming: self.incoming.push(frame), ..self }
    }
}

impl InterfaceHandle {
    /// Hands a frame to the interface.
    pub fn send(&mut self, payload: NetworkRecvPayload) -> (result: Result<(), NetworkError>)
        ensures
            match result {
                Ok(_) => old(self)@.takes_more() && final(self)@ == old(self)@.with_frame(payload@),
                Err(error) => {
                    &&& final(self)@ == old(self)@
                    &&& !old(self)@.takes_more()
                    &&& error == if old(self).worker == WorkerState::Handle {
                        NetworkError::InterfaceSendFailed { payload }
                    } else {
                        NetworkError::InterfaceHandleIncorrectSendState
                    }
                },
            },
    {
        match self.worker {
            WorkerState::Handle => match self.receiver.try_push(payload) {
                Ok(_) => Ok(()),
                Err(payload) => Err(NetworkError::InterfaceSendFailed { payload }),
            },
            WorkerState::Worker => Err(NetworkError::InterfaceHandleIncorrectSendState),
        }
    }

    /// Takes the oldest frame that is on its way to the interface.
    pub fn next_incoming(&mut self) -> (payload: Option<NetworkRecvPayload>)
        ensures
            match payload {
                Some(payload) => old(self)@.incoming.len() > 0 && payload@ == old(
                    self,
                )@.incoming[0] && final(self)@ == (HandleView {
                    incoming: old(self)@.incoming.skip(1),
                    ..old(self)@
                }),
                None => old(self)@.incoming.len() == 0 && final(self)@ == old(self)@,
            },
    {
        self.receiver.try_pop()
    }
}

/// Whether one of some interfaces has an address.
pub open spec fn has_mac(interfaces: Seq<HandleView>, mac: MacAddr) -> bool {
    exists|i: int| 0 <= i < interfaces.len() && (#[trigger] interfaces[i]).mac == mac
}

/// Whether no two interfaces have the same address.
pub open spec fn macs_unique(interfaces: Seq<HandleView>) -> bool {
    forall|i: int, j: int|
        0 <= i < interfaces.len() && 0 <= j < interfaces.len() && (#[trigger] interfaces[i]).mac
            == (#[trigger] interfaces[j]).mac ==> i == j
}

/// Whether a number is the lowest one that is free.
pub open spec fn first_free_id(taken: Seq<bool>, id: int) -> bool {
    &&& 0 <= id < taken.len()
    &&& !taken[id]
    &&& forall|i: int| 0 <= i < id ==> #[trigger] taken[i]
}

/// The interfaces without the one with an address.
pub open spec fn without_mac(interfaces: Seq<HandleView>, mac: MacAddr) -> Seq<HandleView>
    decreases interfaces.len(),
{
    if interfaces.len() == 0 {
        interfaces
    } else if interfaces[0].mac == mac {
        interfaces.skip(1)
    } else {
        seq![interfaces[0]] + without_mac(interfaces.skip(1), mac)
    }
}

/// Whether an interface is one to which a frame is handed: a broadcast goes to all of them,
/// anything else to the one whose address it has, and what is too short to be a frame to none.
pub open spec fn is_recipient(frame: Seq<u8>, interface: HandleView) -> bool {
    &&& frame.len() >= 14
    &&& mac_at(frame, 0) == MacAddr::broadcast() || mac_at(frame, 0) == interface.mac
}

/// Whether a frame that arrives at the bridge is put on its way to an interface.
pub open spec fn takes_frame(interface: HandleView, frame: Seq<u8>) -> bool {
    is_recipient(frame, interface) && interface.takes_more()
}

/// An interface after a frame arrived at the bridge. A frame for which there is no room is
/// dropped.
pub open spec fn handed(interface: HandleView, frame: Seq<u8>) -> HandleView {
    if takes_frame(interface, frame) {
        interface.with_frame(frame)
    } else {
        interface
    }
}

/// An interface that runs.
pub open spec fn running(interface: HandleView) -> HandleView {
    HandleView { worker: WorkerState::Handle, ..interface }
}

/// The interfaces on a bridge.
pub struct Network {
    pub bridge_mac: MacAddr,
    pub interfaces: Vec<InterfaceHandle>,
    /// Which numbers are taken.
    pub senders: Vec<bool>,
    /// Whether interfaces are started when they are added.
    pub started: bool,
}

impl View for Network {
    type V = Seq<HandleView>;

    open spec fn view(&self) -> Seq<HandleView> {
        Seq::new(self.interfaces@.len(), |i: int| self.interfaces@[i]@)
    }
}

impl Network {
    pub open spec fn wf(self) -> bool {
        self.senders@.len() == MAX_INTERFACES && macs_unique(self@)
    }

    /// A bridge without interfaces.
    pub fn new(bridge_mac: MacAddr) -> (network: Self)
        ensures
            network.wf(),
            network.bridge_mac == bridge_mac,
            network@ == Seq::<HandleView>::empty(),
            network.started,
            forall|i: int| 0 <= i < MAX_INTERFACES ==> !(#[trigger] network.senders@[i]),
    {
        let mut senders: Vec<bool> = Vec::new();
        while senders.len() < MAX_INTERFACES
            invariant
                senders@.len() <= MAX_INTERFACES,
                forall|i: int| 0 <= i < senders@.len() ==> !(#[trigger] senders@[i]),
            decreases MAX_INTERFACES - senders@.len(),
        {
            senders.push(false);
        }
        Network { bridge_mac, interfaces: Vec::new(), senders, started: true }
    }

    /// The addresses of all interfaces, and that of the bridge.
    pub fn mac_addresses(&self) -> (addresses: Vec<MacAddr>)
        ensures
            addresses@ == Seq::new(self@.len(), |i: int| self@[i].mac).push(self.bridge_mac),
    {
        let mut addresses: Vec<MacAddr> = Vec::new();
        let mut i: usize = 0;
        while i < self.interfaces.len()
            invariant
                i <= self@.len(),
                addresses@ == Seq::new(i as nat, |j: int| self@[j].mac),
            decreases self@.len() - i,
        {
            addresses.push(self.interfaces[i].mac);
            i = i + 1;
            assert(addresses@ =~= Seq::new(i as nat, |j: int| self@[j].mac));
        }
        addresses.push(self.bridge_mac);
        addresses
    }

    /// The position of the interface with an address.
    fn position(&self, mac: MacAddr) -> (position: Option<usize>)
        ensures
            match position {
                Some(index) => index < self@.len() && self@[index as int].mac == mac && forall|
                    i: int,
                |
                    0 <= i < index ==> (#[trigger] self@[i]).mac != mac,
                None => !has_mac(self@, mac),
            },
    {
        let mut i: usize = 0;
        while i < self.interfaces.len()
            invariant
                i <= self@.len(),
                forall|j: int| 0 <= j < i ==> (#[trigger] self@[j]).mac != mac,
            decreases self@.len() - i,
        {
            if self.interfaces[i].mac == mac {
                return Some(i);
            }
            i = i + 1;
        }
        None
    }

    /// Adds an interface, with the lowest number that is free.
    pub fn add_interface(&mut self, mac_addr: MacAddr) -> (result: Result<u8, NetworkError>)
        requires
            old(self).wf(),
        ensures
            final(self).wf(),
            final(self).bridge_mac == old(self).bridge_mac,
            final(self).started == old(self).started,
            ({
                let conflict = mac_addr == old(self).bridge_mac || has_mac(old(self)@, mac_addr);
                match result {
                    Ok(id) => {
                        &&& !conflict
                        &&& first_free_id(old(self).senders@, id as int)
                        &&& final(self).senders@ == old(self).senders@.update(id as int, true)
                        &&& final(self)@ == old(self)@.push(
                            HandleView {
                                mac: mac_addr,
                                id,
                                worker: if old(self).started {
                                    WorkerState::Handle
                                } else {
                                    WorkerState::Worker
                                },
                                incoming: Seq::empty(),
                                capacity: RECV_QUEUE_SIZE as nat,
                            },
                        )
                    },
                    Err(error) => {
                        &&& *final(self) == *old(self)
                        &&& if conflict {
                            error == NetworkError::MacAddressConflict
                        } else {
                            error == NetworkError::NoInterfaceSpace && forall|i: int|
                                !first_free_id(old(self).senders@, i)
                        }
                    },
                }
            }),
    {
        if mac_addr == self.bridge_mac || self.position(mac_addr).is_some() {
            return Err(NetworkError::MacAddressConflict);
        }
        let mut id: usize = 0;
        while id < self.senders.len() && self.senders[id]
            invariant
                id <= self.senders@.len(),
                forall|i: int| 0 <= i < id ==> #[trigger] self.senders@[i],
            decreases self.senders@.len() - id,
        {
            id = id + 1;
        }
        if id == self.senders.len() {
            return Err(NetworkError::NoInterfaceSpace);
        }
        self.senders.set(id, true);
        let mut handle = InterfaceHandle {
            mac: mac_addr,
            id: id as u8,
            worker: WorkerState::Worker,
            receiver: ReceiveRing::with_capacity(RECV_QUEUE_SIZE),
        };
        if self.started {
            handle.worker.start();
        }
        let ghost before = self@;
        let ghost added = handle@;
        self.interfaces.push(handle);
        assert(self@ =~= before.push(added));
        assert forall|i: int, j: int|
            0 <= i < self@.len() && 0 <= j < self@.len() && (#[trigger] self@[i]).mac == (
            #[trigger] self@[j]).mac implies i == j by {
            if i < before.len() {
                assert(before[i].mac == self@[i].mac);
            }
            if j < before.len() {
                assert(before[j].mac == self@[j].mac);
            }
        }
        Ok(id as u8)
    }

    /// Starts the interfaces that do not run yet.
    pub fn start(&mut self)
        requires
            old(self).wf(),
        ensures
            final(self).wf(),
            final(self).bridge_mac == old(self).bridge_mac,
            final(self).started == old(self).started,
            final(self).senders == old(self).senders,
            final(self)@ == Seq::new(old(self)@.len(), |i: int| running(old(self)@[i])),
    {
        let mut i: usize = 0;
        while i < self.interfaces.len()
            invariant
                i <= self@.len(),
                self@.len() == old(self)@.len(),
                self.bridge_mac == old(self).bridge_mac,
                self.started == old(self).started,
                self.senders == old(self).senders,
                forall|j: int| 0 <= j < i ==> #[trigger] self@[j] == running(old(self)@[j]),
                forall|j: int| i <= j < self@.len() ==> #[trigger] self@[j] == old(self)@[j],
            decreases self@.len() - i,
        {
            let ghost before = self@;
            let handle = &mut self.interfaces[i];
            handle.worker.start();
            assert(self@ =~= before.update(i as int, running(before[i as int])));
            i = i + 1;
        }
        assert(self@ =~= Seq::new(old(self)@.len(), |i: int| running(old(self)@[i])));
        proof {
            macs_stay_unique(old(self)@, self@);
        }
    }

    /// Forgets an interface that is gone. Its number stays taken.
    pub fn on_closed(&mut self, mac: MacAddr)
        requires
            old(self).wf(),
        ensures
            final(self).wf(),
            final(self).bridge_mac == old(self).bridge_mac,
            final(self).started == old(self).started,
            final(self).senders == old(self).senders,
            final(self)@ == without_mac(old(self)@, mac),
    {
        let ghost all = self@;
        match self.position(mac) {
            Some(index) => {
                proof {
                    without_mac_removes(all, mac, index as int);
                }
                let _removed = self.interfaces.remove(index);
                assert(self@ =~= all.remove(index as int));
                assert forall|i: int, j: int|
                    0 <= i < self@.len() && 0 <= j < self@.len() && (#[trigger] self@[i]).mac == (
                    #[trigger] self@[j]).mac implies i == j by {
                    let a = if i < index {
                        i
                    } else {
                        i + 1
                    };
                    let b = if j < index {
                        j
                    } else {
                        j + 1
                    };
                    assert(all[a].mac == all[b].mac);
                }
            },
            None => {
                proof {
                    without_mac_absent(all, mac);
                }
            },
        }
    }

    /// Hands a frame to the interfaces it is for. Returns the positions of the interfaces that
    /// took it, in ascending order.
    pub fn on_recv(&mut self, frame: &Bytes) -> (takers: Vec<usize>)
        requires
            old(self).wf(),
        ensures
            final(self).wf(),
            final(self).bridge_mac == old(self).bridge_mac,
            final(self).started == old(self).started,
            final(self).senders == old(self).senders,
            final(self)@ == Seq::new(
                old(self)@.len(),
                |i: int| handed(old(self)@[i], bytes_contents(*frame)),
            ),
            forall|k: int|
                0 <= k < takers@.len() ==> (#[trigger] takers@[k]) < old(self)@.len() && takes_frame(
                    old(self)@[takers@[k] as int],
                    bytes_contents(*frame),
                ),
            forall|i: int|
                0 <= i < old(self)@.len() && takes_frame(
                    #[trigger] old(self)@[i],
                    bytes_contents(*frame),
                ) ==> takers@.contains(i as usize),
            forall|j: int, k: int| 0 <= j < k < takers@.len() ==> takers@[j] < takers@[k],
    {
        let mut takers: Vec<usize> = Vec::new();
        let bytes = as_slice(frame);
        if bytes.len() < EthernetHeader::MIN_LENGTH {
            assert(self@ =~= Seq::new(
                old(self)@.len(),
                |i: int| handed(old(self)@[i], bytes_contents(*frame)),
            ));
            return takers;
        }
        let destination = MacAddr::read(bytes, 0);
        // A broadcast is for everybody.
        let everybody: bool = destination.is_broadcast();
        let mut i: usize = 0;
        while i < self.interfaces.len()
            invariant
                i <= self@.len(),
                self@.len() == old(self)@.len(),
                self.bridge_mac == old(self).bridge_mac,
                self.started == old(self).started,
                self.senders == old(self).senders,
                destination == mac_at(bytes_contents(*frame), 0),
                everybody == (destination == MacAddr::broadcast()),
                bytes_contents(*frame).len() >= 14,
                forall|j: int|
                    0 <= j < i ==> #[trigger] self@[j] == handed(
                        old(self)@[j],
                        bytes_contents(*frame),
                    ),
                forall|j: int| i <= j < self@.len() ==> #[trigger] self@[j] == old(self)@[j],
                forall|k: int|
                    0 <= k < takers@.len() ==> (#[trigger] takers@[k]) < i && takes_frame(
                        old(self)@[takers@[k] as int],
                        bytes_contents(*frame),
                    ),
                forall|j: int|
                    0 <= j < i && takes_frame(
                        #[trigger] old(self)@[j],
                        bytes_contents(*frame),
                    ) ==> takers@.contains(j as usize),
                forall|j: int, k: int| 0 <= j < k < takers@.len() ==> takers@[j] < takers@[k],
            decreases self@.len() - i,
        {
            let ghost before = takers@;
            let ghost handles = self@;
            assert(handles[i as int] == old(self)@[i as int]);
            if everybody || self.interfaces[i].mac == destination {
                let handle = &mut self.interfaces[i];
                // A frame for which there is no room is dropped.
                if handle.send(NetworkRecvPayload::Packet(frame.clone())).is_ok() {
                    takers.push(i);
                    assert(takers@[before.len() as int] == i);
                }
            }
            assert(self@ =~= handles.update(
                i as int,
                handed(handles[i as int], bytes_contents(*frame)),
            ));
            assert forall|j: int|
                0 <= j < i + 1 && takes_frame(
                    #[trigger] old(self)@[j],
                    bytes_contents(*frame),
                ) implies takers@.contains(j as usize) by {
                if j < i {
                    assert(before.contains(j as usize));
                    let k = choose|k: int| 0 <= k < before.len() && before[k] == j as usize;
                    assert(takers@[k] == j as usize);
                }
            }
            i = i + 1;
        }
        assert(self@ =~= Seq::new(
            old(self)@.len(),
            |i: int| handed(old(self)@[i], bytes_contents(*frame)),
        ));
        proof {
            macs_stay_unique(old(self)@, self@);
        }
        takers
    }
}

proof fn macs_stay_unique(before: Seq<HandleView>, after: Seq<HandleView>)
    requires
        macs_unique(before),
        before.len() == after.len(),
        forall|i: int| 0 <= i < after.len() ==> (#[trigger] after[i]).mac == before[i].mac,
    ensures
        macs_unique(after),
{
    assert forall|i: int, j: int|
        0 <= i < after.len() && 0 <= j < after.len() && (#[trigger] after[i]).mac == (
        #[trigger] after[j]).mac implies i == j by {
        assert(before[i].mac == before[j].mac);
    }
}

proof fn without_mac_removes(interfaces: Seq<HandleView>, mac: MacAddr, index: int)
    requires
        0 <= index < interfaces.len(),
        interfaces[index].mac == mac,
        forall|i: int| 0 <= i < index ==> (#[trigger] interfaces[i]).mac != mac,
    ensures
        without_mac(interfaces, mac) == interfaces.remove(index),
    decreases interfaces.len(),
{
    if index > 0 {
        let rest = interfaces.skip(1);
        assert(interfaces[0].mac != mac);
        assert forall|i: int| 0 <= i < index - 1 implies (#[trigger] rest[i]).mac != mac by {
            assert(rest[i] == interfaces[i + 1]);
        }
        without_mac_removes(rest, mac, index - 1);
        assert(without_mac(interfaces, mac) =~= interfaces.remove(index));
    } else {
        assert(interfaces.skip(1) =~= interfaces.remove(0));
    }
}

proof fn without_mac_absent(interfaces: Seq<HandleView>, mac: MacAddr)
    requires
        !has_mac(interfaces, mac),
    ensures
        without_mac(interfaces, mac) == interfaces,
    decreases interfaces.len(),
{
    if interfaces.len() > 0 {
        let rest = interfaces.skip(1);
        assert(interfaces[0].mac != mac);
        assert(!has_mac(rest, mac)) by {
            if has_mac(rest, mac) {
                let i = choose|i: int| 0 <= i < rest.len() && (#[trigger] rest[i]).mac == mac;
                assert(interfaces[i + 1].mac == mac);
            }
        }
        without_mac_absent(rest, mac);
        assert(without_mac(interfaces, mac) =~= interfaces);
    }
}

/// A frame that is not a broadcast is handed to one interface at most.
pub proof fn unicast_has_one_recipient(
    interfaces: Seq<HandleView>,
    frame: Seq<u8>,
    one: int,
    other: int,
)
    requires
        macs_unique(interfaces),
        mac_at(frame, 0) != MacAddr::broadcast(),
        0 <= one < interfaces.len(),
        0 <= other < interfaces.len(),
        is_recipient(frame, interfaces[one]),
        is_recipient(frame, interfaces[other]),
    ensures
        one == other,
{
    assert(interfaces[one].mac == interfaces[other].mac);
}

/// A frame reaches each interface that runs, has room and is addressed, alone or with all others,
/// as the last frame in its queue. It does not reach any other.
pub proof fn frame_reaches_who_is_addressed(interface: HandleView, frame: Seq<u8>)
    requires
        frame.len() >= 14,
        interface.takes_more(),
    ensures
        ({
            let addressed = mac_at(frame, 0) == MacAddr::broadcast() || mac_at(frame, 0)
                == interface.mac;
            handed(interface, frame).incoming == (if addressed {
                interface.incoming.push(frame)
            } else {
                interface.incoming
            })
        }),
{
}

/// What reading from the bridge comes to.
#[derive(Debug, PartialEq, Eq, Clone, Copy, Structural)]
pub enum BridgeRead {
    /// This many bytes were read.
    Read(usize),
    /// There is nothing to read.
    WouldBlock,
    /// Reading failed.
    Failed,
}

/// What to do after reading from the bridge.
#[derive(Debug, PartialEq, Eq, Clone, Copy, Structural)]
pub enum BridgeAction {
    /// Hand the frame of this many bytes on, and read again.
    Forward(usize),
    /// Read again.
    Again,
    /// Wait until there is something to read.
    Wait,
    /// The bridge is closed.
    Closed,
}

/// What to do after reading from the bridge. Nothing at all is read only from a bridge that is
/// closed.
pub fn after_bridge_read(read: BridgeRead) -> (action: BridgeAction)
    ensures
        action == (match read {
            BridgeRead::Read(count) => if count == 0 {
                BridgeAction::Closed
            } else {
                BridgeAction::Forward(count)
            },
            BridgeRead::WouldBlock => BridgeAction::Wait,
            BridgeRead::Failed => BridgeAction::Again,
        }),
{
    match read {
        BridgeRead::Read(0) => BridgeAction::Closed,
        BridgeRead::Read(count) => BridgeAction::Forward(count),
        BridgeRead::WouldBlock => BridgeAction::Wait,
        BridgeRead::Failed => BridgeAction::Again,
    }
}

/// The host on whose network interfaces are added.
#[derive(Debug, PartialEq, Eq, Clone, Copy, Structural)]
pub struct HostNetwork {
    pub mac_host: MacAddr,
    pub ipv4_host: Ipv4Addr,
    pub prefix: u8,
}

/// Whether an address has the prefix of another.
pub open spec fn same_prefix(one: Ipv4Addr, other: Ipv4Addr, prefix: u8) -> bool {
    prefix == 0 || one.bits >> ((32 - prefix) as u32) == other.bits >> ((32 - prefix) as u32)
}

impl HostNetwork {
    /// Checks that an interface can have the given addresses: they must not be those of the host,
    /// and the IPv4 address must lie in the network of the host.
    pub fn check_interface(&self, mac_addr: MacAddr, ipv4addr: Ipv4Addr) -> (result: Result<
        (),
        ParseError,
    >)
        requires
            self.prefix <= 32,
        ensures
            match result {
                Ok(_) => {
                    &&& mac_addr != self.mac_host
                    &&& ipv4addr != self.ipv4_host
                    &&& same_prefix(ipv4addr, self.ipv4_host, self.prefix)
                },
                Err(error) => if mac_addr == self.mac_host {
                    error@ == (ErrorKind::InvalidInput, "Mac address in use by host"@)
                } else if ipv4addr == self.ipv4_host {
                    error@ == (ErrorKind::InvalidInput, "IPv4 address in use by host"@)
                } else {
                    &&& !same_prefix(ipv4addr, self.ipv4_host, self.prefix)
                    &&& error@ == (
                        ErrorKind::InvalidInput,
                        "Our addresses must be in the same range as the host address"@,
                    )
                },
            },
    {
        if self.mac_host == mac_addr {
            return Err(ParseError::new(ErrorKind::InvalidInput, "Mac address in use by host"));
        }
        if self.ipv4_host == ipv4addr {
            return Err(ParseError::new(ErrorKind::InvalidInput, "IPv4 address in use by host"));
        }
        if !network_contains(self.ipv4_host.bits, self.prefix, ipv4addr.bits) {
            return Err(
                ParseError::new(
                    ErrorKind::InvalidInput,
                    "Our addresses must be in the same range as the host address",
                ),
            );
        }
        Ok(())
    }
}

} // verus!
