//! A client that gets its address from a server.

use crate::buffer::{
    buffer_with_capacity, bytes_contents, freeze, max_buffer_len,
};
use crate::common::{Error, ErrorKind};
use crate::net::{IpAddr, Ipv4Addr, SocketAddr};
use crate::protocols::ethernet::mac::MacAddr;
use crate::protocols::ipv4::dhcp::{
    encode_dhcp, parse_dhcp, DHCPMessageType, DHCPView, Flags, Operation, OptionCode, OptionData,
    DHCP,
};
use crate::random::{draw_u32, draw_u64_in, drawn_u32, drawn_u64_in, new_seed};
use crate::time::{Duration, Instant};
use crate::write_to_buffer::WriteToBuffer;
use bytes::Bytes;
use vstd::prelude::*;

verus! {

/// The port to which clients send.
pub const SERVER_PORT: u16 = 67;

/// The port to which servers send.
pub const CLIENT_PORT: u16 = 68;

/// Where a client stands.
#[derive(Debug, PartialEq, Eq, Clone, Copy, Structural)]
pub enum Phase {
    /// The client has not asked for anything yet.
    Init,
    /// The client looks for servers, under a transaction number and since a point in time.
    Selecting { transaction_id: u32, started_at: Instant },
    Requesting,
    Bound,
    Rebinding,
    Renewing,
    Rebooting,
    InitRebooting,
}

/// A client.
#[derive(Debug, PartialEq, Eq, Clone, Copy, Structural)]
pub struct ClientState {
    /// The state of the generator from which the client draws its random numbers.
    pub seed: u64,
    pub mac_addr: MacAddr,
    pub phase: Phase,
}

/// What a client wants to be done.
#[derive(Debug)]
pub enum Action {
    /// Send a message to an address.
    SendPacket(SocketAddr, DHCP),
    /// Nothing.
    Idle,
}

/// The message of a client that looks for servers.
pub open spec fn discover_message(transaction_id: u32, mac_addr: MacAddr) -> DHCPView {
    DHCPView {
        operation: Operation::BootRequest,
        hops: 0,
        transaction_id,
        secs: 0,
        flags: Flags { broadcast: false },
        client_ip_addr: None,
        your_ip_addr: None,
        next_server_ip_addr: None,
        relay_agent_ip_addr: None,
        client_hardware_addr: mac_addr.spec_octets() + Seq::new(10, |i: int| 0u8),
        server_hostname: None,
        boot_file_name: None,
        options: seq![
            (OptionCode::DHCPMessageType, OptionData::MessageType(DHCPMessageType::Discover)),
        ],
    }
}

/// Where every server listens.
pub open spec fn server_address() -> SocketAddr {
    SocketAddr { ip: IpAddr::V4(Ipv4Addr::broadcast()), port: SERVER_PORT }
}

impl ClientState {
    /// A client that has not asked for anything yet.
    pub fn new(mac_addr: MacAddr) -> (client: Self)
        ensures
            client.mac_addr == mac_addr,
            client.phase == Phase::Init,
    {
        ClientState { seed: new_seed(), mac_addr, phase: Phase::Init }
    }

    /// A client that draws its random numbers from a generator in the given state.
    pub fn new_seeded(mac_addr: MacAddr, seed: u64) -> (client: Self)
        ensures
            client == (ClientState { seed, mac_addr, phase: Phase::Init }),
    {
        ClientState { seed, mac_addr, phase: Phase::Init }
    }

    /// When the client wants to act next. A client that has not asked for anything yet waits for
    /// one to ten seconds first.
    pub fn deadline(&mut self, now: Instant) -> (deadline: Option<Instant>)
        requires
            now.can_look_ahead(),
        ensures
            final(self).mac_addr == old(self).mac_addr,
            final(self).phase == old(self).phase,
            if old(self).phase == Phase::Init {
                let (seed, seconds) = drawn_u64_in(old(self).seed, 1, 10);
                &&& final(self).seed == seed
                &&& 1 <= seconds < 10
                &&& deadline == Some(
                    Instant { nanos: (now.nanos + seconds * 1_000_000_000) as u64 },
                )
            } else {
                deadline is None && final(self).seed == old(self).seed
            },
    {
        match self.phase {
            Phase::Init => {
                let (seed, seconds) = draw_u64_in(self.seed, 1, 10);
                self.seed = seed;
                Some(now.after(Duration::from_secs(seconds)))
            },
            _ => None,
        }
    }

    /// Starts to look for servers.
    fn transition_init_to_selecting(&mut self, now: Instant) -> (action: Action)
        ensures
            ({
                let (seed, transaction_id) = drawn_u32(old(self).seed);
                &&& *final(self) == (ClientState {
                    seed,
                    mac_addr: old(self).mac_addr,
                    phase: Phase::Selecting { transaction_id, started_at: now },
                })
                &&& action matches Action::SendPacket(address, message)
                &&& address == server_address()
                &&& message@ == discover_message(transaction_id, old(self).mac_addr)
                &&& message.encodable()
            }),
    {
        let (seed, transaction_id) = draw_u32(self.seed);
        self.seed = seed;
        self.phase = Phase::Selecting { transaction_id, started_at: now };
        let message = DHCP::discover(transaction_id, now, now, self.mac_addr);
        proof {
            crate::protocols::ipv4::dhcp::discover_is_encodable(message);
        }
        Action::SendPacket(
            SocketAddr { ip: IpAddr::V4(Ipv4Addr::broadcast()), port: SERVER_PORT },
            message,
        )
    }

    /// Lets the client act when its time has come.
    pub fn handle_tick(&mut self, now: Instant) -> (action: Action)
        ensures
            if old(self).phase == Phase::Init {
                let (seed, transaction_id) = drawn_u32(old(self).seed);
                &&& *final(self) == (ClientState {
                    seed,
                    mac_addr: old(self).mac_addr,
                    phase: Phase::Selecting { transaction_id, started_at: now },
                })
                &&& action matches Action::SendPacket(address, message)
                &&& address == server_address()
                &&& message@ == discover_message(transaction_id, old(self).mac_addr)
                &&& message.encodable()
            } else {
                action is Idle && *final(self) == *old(self)
            },
    {
        match self.phase {
            Phase::Init => self.transition_init_to_selecting(now),
            // The other phases wait for messages.
            _ => Action::Idle,
        }
    }

    /// Lets the client act on a message. It does not act on any yet.
    pub fn handle_packet(&mut self, _packet: DHCP) -> (action: Action)
        ensures
            action is Idle,
            *final(self) == *old(self),
    {
        Action::Idle
    }

    /// Lets the client act on what was received.
    pub fn handle_datagram(&mut self, bytes: &[u8]) -> (result: Result<Action, Error>)
        ensures
            *final(self) == *old(self),
            match result {
                Ok(action) => parse_dhcp(bytes@) is Ok && action is Idle,
                Err(error) => parse_dhcp(bytes@) == Err::<DHCPView, _>(error@),
            },
    {
        match DHCP::try_from(bytes) {
            Ok(packet) => Ok(self.handle_packet(packet)),
            Err(error) => Err(error),
        }
    }
}

/// The bytes of a message.
pub fn packet_bytes(packet: &DHCP) -> (bytes: Bytes)
    requires
        packet.encodable(),
        packet.encoding().len() <= max_buffer_len(),
    ensures
        bytes_contents(bytes) == encode_dhcp(packet@),
{
    let mut buffer = buffer_with_capacity(packet.encoded_length());
    packet.write_to_buffer(&mut buffer);
    let bytes = freeze(buffer);
    assert(bytes_contents(bytes) =~= encode_dhcp(packet@));
    bytes
}

/// A server that reads what a client sends first reads what the client meant.
pub proof fn discover_is_understood(transaction_id: u32, mac_addr: MacAddr)
    ensures
        parse_dhcp(encode_dhcp(discover_message(transaction_id, mac_addr))) == Ok::<
            DHCPView,
            (ErrorKind, Seq<char>),
        >(discover_message(transaction_id, mac_addr)),
{
    crate::protocols::ipv4::dhcp::discover_round_trip(discover_message(transaction_id, mac_addr));
}

} // verus!
