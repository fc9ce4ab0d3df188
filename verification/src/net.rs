//! Internet addresses.

use crate::buffer::{be32, be32_bytes, be32_round_trip};
use ipnet::Ipv4Net;
use vstd::prelude::*;

verus! {

/// An IPv4 address, held as the integer that its four octets make, the first one highest.
#[derive(Debug, PartialEq, Eq, Clone, Copy, PartialOrd, Ord, Hash, Structural)]
pub struct Ipv4Addr {
    pub bits: u32,
}

/// The address that the octets `a.b.c.d` make.
pub open spec fn ipv4(a: u8, b: u8, c: u8, d: u8) -> Ipv4Addr {
    Ipv4Addr { bits: be32(a, b, c, d) }
}

/// The address at a position.
pub open spec fn ipv4_at(bytes: Seq<u8>, at: int) -> Ipv4Addr {
    ipv4(bytes[at], bytes[at + 1], bytes[at + 2], bytes[at + 3])
}

impl Ipv4Addr {
    /// `0.0.0.0`.
    pub open spec fn spec_unspecified() -> Self {
        Ipv4Addr { bits: 0 }
    }

    /// `255.255.255.255`.
    pub open spec fn spec_broadcast() -> Self {
        Ipv4Addr { bits: 0xffff_ffff }
    }

    /// The address `0.0.0.0`.
    #[verifier::when_used_as_spec(spec_unspecified)]
    pub fn unspecified() -> (address: Self)
        ensures
            address == Self::spec_unspecified(),
    {
        Ipv4Addr { bits: 0 }
    }

    /// The address `255.255.255.255`.
    #[verifier::when_used_as_spec(spec_broadcast)]
    pub fn broadcast() -> (address: Self)
        ensures
            address == Self::spec_broadcast(),
    {
        Ipv4Addr { bits: 0xffff_ffff }
    }

    /// The four octets, the first one first.
    pub open spec fn spec_octets(self) -> Seq<u8> {
        be32_bytes(self.bits)
    }

    /// The address `a.b.c.d`.
    pub fn new(a: u8, b: u8, c: u8, d: u8) -> (address: Self)
        ensures
            address == ipv4(a, b, c, d),
    {
        Ipv4Addr { bits: a as u32 * 0x100_0000 + b as u32 * 0x1_0000 + c as u32 * 0x100 + d as u32 }
    }

    /// The address whose octets are given.
    pub fn from_octets(octets: [u8; 4]) -> (address: Self)
        ensures
            address == ipv4(octets[0], octets[1], octets[2], octets[3]),
    {
        Ipv4Addr::new(octets[0], octets[1], octets[2], octets[3])
    }

    /// Reads the address at a position.
    pub fn read(bytes: &[u8], at: usize) -> (address: Self)
        requires
            at + 4 <= bytes@.len(),
        ensures
            address == ipv4_at(bytes@, at as int),
    {
        Ipv4Addr::new(bytes[at], bytes[at + 1], bytes[at + 2], bytes[at + 3])
    }

    /// The four octets, the first one first.
    pub fn octets(&self) -> (octets: [u8; 4])
        ensures
            octets@ == self.spec_octets(),
    {
        let octets = [
            (self.bits / 0x100_0000) as u8,
            (self.bits / 0x1_0000 % 256) as u8,
            (self.bits / 0x100 % 256) as u8,
            (self.bits % 256) as u8,
        ];
        assert(octets@ =~= self.spec_octets());
        octets
    }

    /// Whether this is `0.0.0.0`.
    pub fn is_unspecified(&self) -> (result: bool)
        ensures
            result == (*self == Ipv4Addr::unspecified()),
    {
        self.bits == 0
    }
}

/// An address is what its octets make.
pub broadcast proof fn ipv4_round_trip(address: Ipv4Addr)
    ensures
        #![trigger address.spec_octets()]
        address.spec_octets().len() == 4,
        ipv4_at(address.spec_octets(), 0) == address,
{
    be32_round_trip(address.bits);
}

/// `ipnet::Ipv4Net::contains`: whether a candidate lies in the network of an address with the given
/// prefix length: from the lowest address with the same prefix to the highest. These are the
/// addresses that agree with the address in as many of their highest bits as the prefix is long. A
/// network with a prefix of more than 32 bits cannot be made.
#[verifier::external_body]
pub(crate) fn network_contains(address: u32, prefix: u8, candidate: u32) -> (result: bool)
    requires
        prefix <= 32,
    ensures
        result == (prefix == 0 || candidate >> ((32 - prefix) as u32) == address >> ((32
            - prefix) as u32)),
{
    let other = Ipv4Net::new(candidate.into(), prefix).unwrap().addr();
    Ipv4Net::new(address.into(), prefix).unwrap().contains(&other)
}

/// An IPv6 address, held as the integer that its sixteen octets make, the first one highest.
#[derive(Debug, PartialEq, Eq, Clone, Copy, PartialOrd, Ord, Hash, Structural)]
pub struct Ipv6Addr {
    pub bits: u128,
}

/// An address that is ordered as a number and can be masked.
pub trait NetworkAddress: Copy {
    /// The number by which addresses are ordered.
    spec fn value(self) -> nat;

    /// The address with the bits outside of a mask cleared.
    spec fn masked(self, mask: Self) -> Self;

    /// Addresses of the same number are the same.
    proof fn value_tells_apart(one: Self, other: Self)
        ensures
            one.value() == other.value() ==> one == other,
    ;

    /// Whether this address comes before another.
    fn less(self, other: Self) -> (result: bool)
        ensures
            result == (self.value() < other.value()),
    ;

    /// Whether this address is the same as another.
    fn same(self, other: Self) -> (result: bool)
        ensures
            result == (self == other),
    ;

    /// The address with the bits outside of a mask cleared.
    fn mask_with(self, mask: Self) -> (result: Self)
        ensures
            result == self.masked(mask),
    ;
}

impl NetworkAddress for Ipv4Addr {
    open spec fn value(self) -> nat {
        self.bits as nat
    }

    open spec fn masked(self, mask: Self) -> Self {
        Ipv4Addr { bits: self.bits & mask.bits }
    }

    proof fn value_tells_apart(one: Self, other: Self) {
    }

    fn less(self, other: Self) -> (result: bool) {
        self.bits < other.bits
    }

    fn same(self, other: Self) -> (result: bool) {
        self == other
    }

    fn mask_with(self, mask: Self) -> (result: Self) {
        Ipv4Addr { bits: self.bits & mask.bits }
    }
}

impl NetworkAddress for Ipv6Addr {
    open spec fn value(self) -> nat {
        self.bits as nat
    }

    open spec fn masked(self, mask: Self) -> Self {
        Ipv6Addr { bits: self.bits & mask.bits }
    }

    proof fn value_tells_apart(one: Self, other: Self) {
    }

    fn less(self, other: Self) -> (result: bool) {
        self.bits < other.bits
    }

    fn same(self, other: Self) -> (result: bool) {
        self == other
    }

    fn mask_with(self, mask: Self) -> (result: Self) {
        Ipv6Addr { bits: self.bits & mask.bits }
    }
}

/// An address of either family.
#[derive(Debug, PartialEq, Eq, Clone, Copy, PartialOrd, Ord, Hash, Structural)]
pub enum IpAddr {
    V4(Ipv4Addr),
    V6(Ipv6Addr),
}

/// More than any integer of so many segments.
spec fn segment_bound(count: nat) -> int
    decreases count,
{
    if count == 0 {
        1
    } else {
        segment_bound((count - 1) as nat) * 65536
    }
}

/// The integer that eight segments make, the first one highest.
pub open spec fn segments_value(segments: Seq<u16>) -> nat
    decreases segments.len(),
{
    if segments.len() == 0 {
        0
    } else {
        segments_value(segments.drop_last()) * 65536 + segments.last() as nat
    }
}

impl Ipv6Addr {
    /// The address with the given segments.
    pub fn new(segments: [u16; 8]) -> (address: Self)
        ensures
            address.bits == segments_value(segments@),
    {
        let mut bits: u128 = 0;
        let mut i: usize = 0;
        let ghost mut bound: int = 1;
        while i < 8
            invariant
                i <= 8,
                bits == segments_value(segments@.take(i as int)),
                bits < bound,
                bound == segment_bound(i as nat),
            decreases 8 - i,
        {
            proof {
                reveal_with_fuel(segment_bound, 9);
            }
            bits = bits * 65536 + segments[i] as u128;
            assert(segments@.take(i + 1).drop_last() =~= segments@.take(i as int));
            proof {
                bound = bound * 65536;
            }
            i = i + 1;
        }
        assert(segments@.take(8) =~= segments@);
        Ipv6Addr { bits }
    }

    /// `::`.
    pub open spec fn spec_unspecified() -> Self {
        Ipv6Addr { bits: 0 }
    }

    /// The address `::`.
    #[verifier::when_used_as_spec(spec_unspecified)]
    pub fn unspecified() -> (address: Self)
        ensures
            address == Self::spec_unspecified(),
    {
        Ipv6Addr { bits: 0 }
    }
}

impl IpAddr {
    /// Whether this is the address that stands for any.
    pub open spec fn spec_is_unspecified(&self) -> bool {
        match *self {
            IpAddr::V4(address) => address == Ipv4Addr::unspecified(),
            IpAddr::V6(address) => address == Ipv6Addr::unspecified(),
        }
    }

    /// The address of the same family that stands for any.
    pub open spec fn spec_to_unspecified(&self) -> IpAddr {
        match *self {
            IpAddr::V4(_) => IpAddr::V4(Ipv4Addr::unspecified()),
            IpAddr::V6(_) => IpAddr::V6(Ipv6Addr::unspecified()),
        }
    }

    /// Whether this is an IPv4 address.
    pub fn is_ipv4(&self) -> (result: bool)
        ensures
            result == (*self is V4),
    {
        matches!(*self, IpAddr::V4(_))
    }

    /// Whether this is an IPv6 address.
    pub fn is_ipv6(&self) -> (result: bool)
        ensures
            result == (*self is V6),
    {
        matches!(*self, IpAddr::V6(_))
    }

    /// Whether this is the address that stands for any.
    #[verifier::when_used_as_spec(spec_is_unspecified)]
    pub fn is_unspecified(&self) -> (result: bool)
        ensures
            result == self.spec_is_unspecified(),
    {
        match *self {
            IpAddr::V4(address) => address.bits == 0,
            IpAddr::V6(address) => address.bits == 0,
        }
    }

    /// The address of the same family that stands for any.
    #[verifier::when_used_as_spec(spec_to_unspecified)]
    pub fn to_unspecified(&self) -> (address: IpAddr)
        ensures
            address == self.spec_to_unspecified(),
    {
        match *self {
            IpAddr::V4(_) => IpAddr::V4(Ipv4Addr::unspecified()),
            IpAddr::V6(_) => IpAddr::V6(Ipv6Addr::unspecified()),
        }
    }
}

/// An address and a port.
#[derive(Debug, PartialEq, Eq, Clone, Copy, PartialOrd, Ord, Hash, Structural)]
pub struct SocketAddr {
    pub ip: IpAddr,
    pub port: u16,
}

impl SocketAddr {
    /// The given port of the given address.
    pub fn new(ip: IpAddr, port: u16) -> (address: Self)
        ensures
            address == (SocketAddr { ip, port }),
    {
        SocketAddr { ip, port }
    }

    /// Whether the address is an IPv4 address.
    pub fn is_ipv4(&self) -> (result: bool)
        ensures
            result == (self.ip is V4),
    {
        self.ip.is_ipv4()
    }
}

} // verus!
