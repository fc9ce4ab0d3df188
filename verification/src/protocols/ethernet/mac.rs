//! Link layer addresses.

use crate::text::{hex_digit, hex_digit_of};
use vstd::prelude::*;

verus! {

/// A 48-bit link layer address.
#[derive(Debug, PartialEq, Eq, Clone, Copy, Hash, Structural)]
pub struct MacAddr(pub u8, pub u8, pub u8, pub u8, pub u8, pub u8);

/// A slice that is not six bytes long is no [`MacAddr`].
#[derive(Debug, Clone, Copy)]
pub struct TryFromSliceError(());

/// The address at a position.
pub open spec fn mac_at(bytes: Seq<u8>, at: int) -> MacAddr {
    MacAddr(
        bytes[at],
        bytes[at + 1],
        bytes[at + 2],
        bytes[at + 3],
        bytes[at + 4],
        bytes[at + 5],
    )
}

/// Two digits for each octet, with colons between the octets.
pub open spec fn mac_text(octets: Seq<u8>) -> Seq<char>
    decreases octets.len(),
{
    if octets.len() == 0 {
        Seq::empty()
    } else {
        let last = octets.last() as int;
        let pair = seq![hex_digit(last / 16), hex_digit(last % 16)];
        if octets.len() == 1 {
            pair
        } else {
            mac_text(octets.drop_last()) + seq![':'] + pair
        }
    }
}

impl MacAddr {
    pub const LENGTH: usize = 6;

    /// The six octets, the first one first.
    pub open spec fn spec_octets(self) -> Seq<u8> {
        seq![self.0, self.1, self.2, self.3, self.4, self.5]
    }

    /// The address to which every station listens.
    pub open spec fn spec_broadcast() -> Self {
        MacAddr(255, 255, 255, 255, 255, 255)
    }

    /// The address to which every station listens.
    #[verifier::when_used_as_spec(spec_broadcast)]
    pub fn broadcast() -> (mac: Self)
        ensures
            mac == Self::spec_broadcast(),
    {
        MacAddr(255, 255, 255, 255, 255, 255)
    }

    /// The address `a:b:c:d:e:f`.
    pub fn new(a: u8, b: u8, c: u8, d: u8, e: u8, f: u8) -> (mac: Self)
        ensures
            mac.spec_octets() == seq![a, b, c, d, e, f],
    {
        MacAddr(a, b, c, d, e, f)
    }

    /// The address whose octets are given.
    pub fn from_octets(bytes: [u8; 6]) -> (mac: Self)
        ensures
            mac.spec_octets() == bytes@,
    {
        let mac = MacAddr(bytes[0], bytes[1], bytes[2], bytes[3], bytes[4], bytes[5]);
        assert(mac.spec_octets() =~= bytes@);
        mac
    }

    /// The address that a slice holds, where the slice is six bytes long.
    pub fn try_from(bytes: &[u8]) -> (result: Result<Self, TryFromSliceError>)
        ensures
            result is Ok <==> bytes@.len() == 6,
            result matches Ok(mac) ==> mac.spec_octets() == bytes@,
    {
        if bytes.len() != 6 {
            return Err(TryFromSliceError(()));
        }
        let mac = MacAddr(bytes[0], bytes[1], bytes[2], bytes[3], bytes[4], bytes[5]);
        assert(mac.spec_octets() =~= bytes@);
        Ok(mac)
    }

    /// Reads the address at a position.
    pub fn read(bytes: &[u8], at: usize) -> (mac: Self)
        requires
            at + 6 <= bytes@.len(),
        ensures
            mac == mac_at(bytes@, at as int),
    {
        MacAddr(
            bytes[at],
            bytes[at + 1],
            bytes[at + 2],
            bytes[at + 3],
            bytes[at + 4],
            bytes[at + 5],
        )
    }

    /// Whether this is the address to which every station listens.
    pub fn is_broadcast(&self) -> (result: bool)
        ensures
            result == (*self == MacAddr::broadcast()),
    {
        *self == MacAddr::broadcast()
    }

    /// The six octets, the first one first.
    pub fn octets(&self) -> (octets: [u8; 6])
        ensures
            octets@ == self.spec_octets(),
    {
        let octets = [self.0, self.1, self.2, self.3, self.4, self.5];
        assert(octets@ =~= self.spec_octets());
        octets
    }

    /// The address in its usual notation: two lower case digits for each octet, with colons
    /// between the octets.
    pub fn to_text(&self) -> (text: String)
        ensures
            text@ == mac_text(self.spec_octets()),
    {
        let octets = self.octets();
        let mut text: String = String::new();
        let mut i: usize = 0;
        while i < 6
            invariant
                i <= 6,
                octets@ == self.spec_octets(),
                text@ == mac_text(octets@.take(i as int)),
            decreases 6 - i,
        {
            if i > 0 {
                text.push(':');
            }
            text.push(hex_digit_of(octets[i] / 16));
            text.push(hex_digit_of(octets[i] % 16));
            assert(text@ =~= (if i > 0 {
                mac_text(octets@.take(i as int)) + seq![':']
            } else {
                Seq::empty()
            }) + seq![hex_digit(octets[i as int] as int / 16), hex_digit(octets[i as int] as int % 16)]);
            assert(octets@.take(i + 1).drop_last() == octets@.take(i as int));
            assert(octets@.take(i + 1).last() == octets@[i as int]);
            assert(text@ =~= mac_text(octets@.take(i + 1)));
            i = i + 1;
        }
        assert(octets@.take(6) == octets@);
        text
    }
}

/// Two addresses with the same octets are the same address, and an address is what its octets
/// make.
pub broadcast proof fn mac_round_trip(mac: MacAddr)
    ensures
        #![trigger mac.spec_octets()]
        mac.spec_octets().len() == 6,
        mac_at(mac.spec_octets(), 0) == mac,
{
}

} // verus!
