//! The addresses of an interface.

use crate::net::{Ipv4Addr, NetworkAddress};
use vstd::prelude::*;

verus! {

/// An address of an interface, with what follows from its mask.
#[derive(Debug, PartialEq, Eq, Clone, Copy, Structural)]
pub struct InterfaceIpv4Addr {
    pub address: Ipv4Addr,
    pub mask: Ipv4Addr,
    pub broadcast: Ipv4Addr,
    pub network: Ipv4Addr,
}

/// The network of an address: the address with its host part cleared.
pub open spec fn network_of(address: Ipv4Addr, mask: Ipv4Addr) -> Ipv4Addr {
    Ipv4Addr { bits: address.bits & mask.bits }
}

/// The broadcast address of a network: the address with its host part set.
pub open spec fn broadcast_of(address: Ipv4Addr, mask: Ipv4Addr) -> Ipv4Addr {
    Ipv4Addr { bits: (address.bits & mask.bits) | !mask.bits }
}

impl InterfaceIpv4Addr {
    /// The network and the broadcast address are those of the address and its mask.
    pub open spec fn wf(self) -> bool {
        self.network == network_of(self.address, self.mask) && self.broadcast == broadcast_of(
            self.address,
            self.mask,
        )
    }

    /// An address with its mask.
    pub fn new(address: Ipv4Addr, mask: Ipv4Addr) -> (result: Self)
        ensures
            result.wf(),
            result.address == address,
            result.mask == mask,
    {
        let network = Ipv4Addr { bits: address.bits & mask.bits };
        InterfaceIpv4Addr {
            address,
            mask,
            network,
            broadcast: Ipv4Addr { bits: network.bits | !mask.bits },
        }
    }
}

/// The addresses with their masks.
pub open spec fn pairs(local: Seq<InterfaceIpv4Addr>) -> Seq<(Ipv4Addr, Ipv4Addr)> {
    Seq::new(local.len(), |i: int| (local[i].address, local[i].mask))
}

/// Whether an address is one of those of an interface.
pub open spec fn has_address(addresses: Seq<(Ipv4Addr, Ipv4Addr)>, value: Ipv4Addr) -> bool {
    exists|i: int| 0 <= i < addresses.len() && (#[trigger] addresses[i]).0 == value
}

/// Whether an address is one of those of an interface, or the broadcast address of one of its
/// networks.
pub open spec fn has_address_or_broadcast(
    addresses: Seq<(Ipv4Addr, Ipv4Addr)>,
    value: Ipv4Addr,
) -> bool {
    exists|i: int|
        0 <= i < addresses.len() && ((#[trigger] addresses[i]).0 == value || broadcast_of(
            addresses[i].0,
            addresses[i].1,
        ) == value)
}

/// Whether an address lies in the network of another.
pub open spec fn in_network(value: Ipv4Addr, of: (Ipv4Addr, Ipv4Addr)) -> bool {
    network_of(value, of.1) == network_of(of.0, of.1)
}

/// The first address whose network another address lies in.
pub open spec fn first_for(addresses: Seq<(Ipv4Addr, Ipv4Addr)>, value: Ipv4Addr) -> Option<
    Ipv4Addr,
>
    decreases addresses.len(),
{
    if addresses.len() == 0 {
        None
    } else if in_network(value, addresses[0]) {
        Some(addresses[0].0)
    } else {
        first_for(addresses.skip(1), value)
    }
}

/// The addresses without the first entry of a given one.
pub open spec fn without_first(addresses: Seq<(Ipv4Addr, Ipv4Addr)>, value: Ipv4Addr) -> Seq<
    (Ipv4Addr, Ipv4Addr),
>
    decreases addresses.len(),
{
    if addresses.len() == 0 {
        addresses
    } else if addresses[0].0 == value {
        addresses.skip(1)
    } else {
        seq![addresses[0]] + without_first(addresses.skip(1), value)
    }
}

/// The addresses of an interface, and the copy of them that others may read.
#[derive(Debug)]
pub struct AddressTableIpv4 {
    pub local: Vec<InterfaceIpv4Addr>,
    pub published: Vec<(Ipv4Addr, Ipv4Addr)>,
}

impl View for AddressTableIpv4 {
    type V = Seq<(Ipv4Addr, Ipv4Addr)>;

    open spec fn view(&self) -> Seq<(Ipv4Addr, Ipv4Addr)> {
        pairs(self.local@)
    }
}

impl AddressTableIpv4 {
    /// Every entry is what follows from its address and mask, and the copy is up to date.
    pub open spec fn wf(self) -> bool {
        &&& forall|i: int| 0 <= i < self.local@.len() ==> (#[trigger] self.local@[i]).wf()
        &&& self.published@ == self@
    }

    /// A table without addresses.
    pub fn new() -> (table: Self)
        ensures
            table.wf(),
            table@ == Seq::<(Ipv4Addr, Ipv4Addr)>::empty(),
    {
        let table = AddressTableIpv4 { local: Vec::new(), published: Vec::new() };
        assert(table@ =~= Seq::<(Ipv4Addr, Ipv4Addr)>::empty());
        table
    }

    /// The copy of the addresses and their masks that others may read.
    pub fn shared(&self) -> (addresses: &Vec<(Ipv4Addr, Ipv4Addr)>)
        requires
            self.wf(),
        ensures
            addresses@ == self@,
    {
        &self.published
    }

    /// The addresses, without their masks.
    pub fn addresses(&self) -> (addresses: Vec<Ipv4Addr>)
        ensures
            addresses@ == Seq::new(self@.len(), |i: int| self@[i].0),
    {
        let mut addresses: Vec<Ipv4Addr> = Vec::new();
        let mut i: usize = 0;
        while i < self.local.len()
            invariant
                i <= self.local@.len(),
                addresses@ == Seq::new(i as nat, |j: int| self@[j].0),
            decreases self.local@.len() - i,
        {
            addresses.push(self.local[i].address);
            i = i + 1;
            assert(addresses@ =~= Seq::new(i as nat, |j: int| self@[j].0));
        }
        assert(addresses@ =~= Seq::new(self@.len(), |j: int| self@[j].0));
        addresses
    }

    /// Brings the copy up to date.
    fn update(&mut self)
        requires
            forall|i: int| 0 <= i < old(self).local@.len() ==> (#[trigger] old(self).local@[i]).wf(),
        ensures
            final(self).wf(),
            final(self)@ == old(self)@,
            final(self).local@ == old(self).local@,
    {
        let mut next: Vec<(Ipv4Addr, Ipv4Addr)> = Vec::new();
        let mut i: usize = 0;
        while i < self.local.len()
            invariant
                i <= self.local@.len(),
                next@ == self@.take(i as int),
            decreases self.local@.len() - i,
        {
            let entry = self.local[i];
            next.push((entry.address, entry.mask));
            i = i + 1;
            assert(next@ =~= self@.take(i as int));
        }
        assert(self@.take(i as int) =~= self@);
        self.published = next;
    }

    /// Adds an address with its mask.
    pub fn insert(&mut self, addr: Ipv4Addr, mask: Ipv4Addr)
        requires
            old(self).wf(),
        ensures
            final(self).wf(),
            final(self)@ == old(self)@.push((addr, mask)),
    {
        self.local.push(InterfaceIpv4Addr::new(addr, mask));
        assert(self@ =~= old(self)@.push((addr, mask)));
        self.update();
    }

    /// Removes an address. Of an address that was added twice, the first entry is removed.
    pub fn remove(&mut self, value: Ipv4Addr)
        requires
            old(self).wf(),
        ensures
            final(self).wf(),
            final(self)@ == without_first(old(self)@, value),
    {
        let mut i: usize = 0;
        let ghost before = self@;
        assert(before.skip(0) =~= before);
        assert(before.take(0) + without_first(before, value) =~= without_first(before, value));
        while i < self.local.len() && self.local[i].address != value
            invariant
                i <= self.local@.len(),
                before == self@,
                before.take(i as int) + without_first(before.skip(i as int), value)
                    == without_first(before, value),
            decreases self.local@.len() - i,
        {
            let ghost rest = before.skip(i as int);
            assert(rest[0] == before[i as int]);
            assert(rest.skip(1) =~= before.skip(i + 1));
            assert(before.take(i as int) + (seq![rest[0]] + without_first(rest.skip(1), value))
                =~= before.take(i + 1) + without_first(before.skip(i + 1), value));
            i = i + 1;
        }
        if i < self.local.len() {
            assert(before.skip(i as int)[0] == before[i as int]);
            let _removed = self.local.remove(i);
            assert(self@ =~= before.take(i as int) + before.skip(i as int).skip(1));
        } else {
            assert(before.skip(i as int) =~= Seq::<(Ipv4Addr, Ipv4Addr)>::empty());
            assert(self@ =~= before.take(i as int) + without_first(before.skip(i as int), value));
        }
        self.update();
    }

    /// Whether an address is one of those in the table.
    pub fn contains(&self, value: Ipv4Addr) -> (result: bool)
        requires
            self.wf(),
        ensures
            result == has_address(self@, value),
    {
        let mut i: usize = 0;
        while i < self.local.len()
            invariant
                i <= self.local@.len(),
                forall|j: int| 0 <= j < i ==> (#[trigger] self@[j]).0 != value,
            decreases self.local@.len() - i,
        {
            if self.local[i].address == value {
                assert(self@[i as int].0 == value);
                return true;
            }
            i = i + 1;
        }
        false
    }

    /// Whether an address is one of those in the table, or the broadcast address of one of their
    /// networks.
    pub fn contains_as_address_or_broadcast(&self, value: Ipv4Addr) -> (result: bool)
        requires
            self.wf(),
        ensures
            result == has_address_or_broadcast(self@, value),
    {
        let mut i: usize = 0;
        while i < self.local.len()
            invariant
                i <= self.local@.len(),
                self.wf(),
                forall|j: int|
                    0 <= j < i ==> (#[trigger] self@[j]).0 != value && broadcast_of(
                        self@[j].0,
                        self@[j].1,
                    ) != value,
            decreases self.local@.len() - i,
        {
            let entry = self.local[i];
            if entry.address == value || entry.broadcast == value {
                assert(self@[i as int].0 == value || broadcast_of(
                    self@[i as int].0,
                    self@[i as int].1,
                ) == value);
                return true;
            }
            i = i + 1;
        }
        false
    }

    /// Whether an address is one of a multicast group that was joined. No group can be joined yet.
    pub fn contains_ephemeral_multicast(&self, _value: Ipv4Addr) -> (result: bool)
        ensures
            !result,
    {
        false
    }

    /// The first address whose network another address lies in.
    pub fn first_with_subnet_containing(&self, value: Ipv4Addr) -> (address: Option<Ipv4Addr>)
        requires
            self.wf(),
        ensures
            address == first_for(self@, value),
    {
        let mut i: usize = 0;
        assert(self@.skip(0) =~= self@);
        while i < self.local.len()
            invariant
                i <= self.local@.len(),
                self.wf(),
                first_for(self@.skip(i as int), value) == first_for(self@, value),
            decreases self.local@.len() - i,
        {
            let entry = self.local[i];
            assert(self@.skip(i as int)[0] == self@[i as int]);
            assert(self@.skip(i as int).skip(1) =~= self@.skip(i + 1));
            if value.mask_with(entry.mask) == entry.network {
                return Some(entry.address);
            }
            i = i + 1;
        }
        None
    }
}

/// The broadcast address of a network and the network itself lie in the network.
pub proof fn broadcast_lies_in_network(address: Ipv4Addr, mask: Ipv4Addr)
    ensures
        in_network(broadcast_of(address, mask), (address, mask)),
        in_network(network_of(address, mask), (address, mask)),
        in_network(address, (address, mask)),
{
    let a = address.bits;
    let m = mask.bits;
    assert(((a & m) | !m) & m == a & m) by (bit_vector);
    assert((a & m) & m == a & m) by (bit_vector);
}

/// An address that was added is found, and so is an address for each one in its network.
pub proof fn added_address_is_found(
    addresses: Seq<(Ipv4Addr, Ipv4Addr)>,
    address: Ipv4Addr,
    mask: Ipv4Addr,
    value: Ipv4Addr,
)
    ensures
        has_address(addresses.push((address, mask)), address),
        has_address_or_broadcast(addresses.push((address, mask)), broadcast_of(address, mask)),
        in_network(value, (address, mask)) ==> first_for(addresses.push((address, mask)), value)
            is Some,
    decreases addresses.len(),
{
    let after = addresses.push((address, mask));
    assert(after[addresses.len() as int] == (address, mask));
    if addresses.len() > 0 {
        added_address_is_found(addresses.skip(1), address, mask, value);
        assert(after.skip(1) =~= addresses.skip(1).push((address, mask)));
    }
}

/// Addresses of any family, each with its mask.
#[derive(Debug)]
pub struct AddressTable<T> {
    pub local: Vec<(T, T)>,
    pub published: Vec<(T, T)>,
}

/// The mask of an address, where it is one of those listed.
pub open spec fn mask_in<T>(entries: Seq<(T, T)>, address: T) -> Option<T> {
    if exists|i: int| 0 <= i < entries.len() && (#[trigger] entries[i]).0 == address {
        let i = choose|i: int| 0 <= i < entries.len() && (#[trigger] entries[i]).0 == address;
        Some(entries[i].1)
    } else {
        None
    }
}

/// Whether no address is listed twice.
pub open spec fn unique<T>(entries: Seq<(T, T)>) -> bool {
    forall|i: int, j: int|
        0 <= i < entries.len() && 0 <= j < entries.len() && (#[trigger] entries[i]).0 == (
        #[trigger] entries[j]).0 ==> i == j
}

impl<T: NetworkAddress> AddressTable<T> {
    /// No address is there twice, and the copy that others may read is up to date.
    pub open spec fn wf(self) -> bool {
        unique(self.local@) && self.published@ == self.local@
    }

    /// The mask of an address, where it is one of those in the table.
    pub open spec fn mask_of(self, address: T) -> Option<T> {
        mask_in(self.local@, address)
    }

    /// A table without addresses.
    pub fn new() -> (table: Self)
        ensures
            table.wf(),
            forall|address: T| table.mask_of(address) is None,
    {
        AddressTable { local: Vec::new(), published: Vec::new() }
    }

    /// The copy of the addresses and their masks that others may read: each address once.
    pub fn shared(&self) -> (entries: &Vec<(T, T)>)
        requires
            self.wf(),
        ensures
            unique(entries@),
            forall|address: T| mask_in(entries@, address) == self.mask_of(address),
    {
        &self.published
    }

    fn update(&mut self)
        requires
            unique(old(self).local@),
        ensures
            final(self).wf(),
            final(self).local@ == old(self).local@,
    {
        let mut next: Vec<(T, T)> = Vec::new();
        let mut i: usize = 0;
        while i < self.local.len()
            invariant
                i <= self.local@.len(),
                next@ == self.local@.take(i as int),
            decreases self.local@.len() - i,
        {
            next.push((self.local[i].0, self.local[i].1));
            i = i + 1;
            assert(next@ =~= self.local@.take(i as int));
        }
        assert(self.local@.take(i as int) =~= self.local@);
        self.published = next;
    }

    fn position(&self, value: &T) -> (position: Option<usize>)
        ensures
            match position {
                Some(i) => i < self.local@.len() && self.local@[i as int].0 == *value,
                None => forall|i: int|
                    0 <= i < self.local@.len() ==> (#[trigger] self.local@[i]).0 != *value,
            },
    {
        let mut i: usize = 0;
        while i < self.local.len()
            invariant
                i <= self.local@.len(),
                forall|j: int| 0 <= j < i ==> (#[trigger] self.local@[j]).0 != *value,
            decreases self.local@.len() - i,
        {
            if self.local[i].0.same(*value) {
                return Some(i);
            }
            i = i + 1;
        }
        None
    }

    /// Adds an address with its mask. An address that is there already gets the new mask.
    pub fn insert(&mut self, value: T, mask: T)
        requires
            old(self).wf(),
        ensures
            final(self).wf(),
            forall|address: T| #[trigger]
                final(self).mask_of(address) == (if address == value {
                    Some(mask)
                } else {
                    old(self).mask_of(address)
                }),
    {
        let ghost before = self.local@;
        match self.position(&value) {
            Some(i) => {
                self.local.set(i, (value, mask));
                assert(before[i as int].0 == value);
                assert(self.local@ =~= before.update(i as int, (value, mask)));
            },
            None => {
                self.local.push((value, mask));
            },
        }
        let ghost after = self.local@;
        assert forall|address: T| #[trigger]
            mask_in(after, address) == (if address == value {
                Some(mask)
            } else {
                mask_in(before, address)
            }) by {
            if address == value {
                assert(exists|i: int| 0 <= i < after.len() && (#[trigger] after[i]).0 == value) by {
                    if before.len() < after.len() {
                        assert(after[before.len() as int].0 == value);
                    } else {
                        let i = choose|i: int|
                            0 <= i < before.len() && (#[trigger] before[i]).0 == value;
                        assert(after[i].0 == value);
                    }
                }
            } else {
                if exists|i: int| 0 <= i < before.len() && (#[trigger] before[i]).0 == address {
                    let i = choose|i: int|
                        0 <= i < before.len() && (#[trigger] before[i]).0 == address;
                    assert(after[i] == before[i]);
                }
                if exists|i: int| 0 <= i < after.len() && (#[trigger] after[i]).0 == address {
                    let i = choose|i: int| 0 <= i < after.len() && (#[trigger] after[i]).0 == address;
                    assert(after[i] == before[i]);
                }
            }
        }
        self.update();
    }

    /// Removes an address.
    pub fn remove(&mut self, value: &T)
        requires
            old(self).wf(),
        ensures
            final(self).wf(),
            forall|address: T| #[trigger]
                final(self).mask_of(address) == (if address == *value {
                    None
                } else {
                    old(self).mask_of(address)
                }),
    {
        let ghost before = self.local@;
        if let Some(at) = self.position(value) {
            let _removed = self.local.remove(at);
            let ghost after = self.local@;
            assert(before[at as int].0 == *value);
            assert forall|i: int| 0 <= i < after.len() implies #[trigger] after[i] == before[if i
                < at {
                i
            } else {
                i + 1
            }] by {}
            assert forall|address: T| #[trigger]
                mask_in(after, address) == (if address == *value {
                    None
                } else {
                    mask_in(before, address)
                }) by {
                if exists|i: int| 0 <= i < after.len() && (#[trigger] after[i]).0 == address {
                    let i = choose|i: int| 0 <= i < after.len() && (#[trigger] after[i]).0 == address;
                    let j = if i < at {
                        i
                    } else {
                        i + 1
                    };
                    assert(before[j] == after[i]);
                }
                if exists|i: int| 0 <= i < before.len() && (#[trigger] before[i]).0 == address {
                    let j = choose|i: int|
                        0 <= i < before.len() && (#[trigger] before[i]).0 == address;
                    if j != at {
                        let i = if j < at {
                            j
                        } else {
                            j - 1
                        };
                        assert(after[i] == before[j]);
                    }
                }
            }
        }
        self.update();
    }

    /// Whether an address is one of those in the table.
    pub fn contains(&self, value: &T) -> (result: bool)
        ensures
            result == (self.mask_of(*value) is Some),
    {
        self.position(value).is_some()
    }

    /// An address whose network another address lies in. Where there are several, any of them.
    pub fn first_with_subnet_containing(&self, value: &T) -> (address: Option<T>)
        requires
            self.wf(),
        ensures
            match address {
                Some(address) => self.mask_of(address) matches Some(mask) && value.masked(mask)
                    == address.masked(mask),
                None => forall|address: T| #[trigger]
                    self.mask_of(address) matches Some(mask) ==> value.masked(mask)
                        != address.masked(mask),
            },
    {
        let mut i: usize = 0;
        while i < self.local.len()
            invariant
                i <= self.local@.len(),
                self.wf(),
                forall|j: int|
                    0 <= j < i ==> value.masked((#[trigger] self.local@[j]).1)
                        != self.local@[j].0.masked(self.local@[j].1),
            decreases self.local@.len() - i,
        {
            let (address, mask) = self.local[i];
            if value.mask_with(mask).same(address.mask_with(mask)) {
                assert(self.local@[i as int].0 == address);
                return Some(address);
            }
            i = i + 1;
        }
        None
    }
}

} // verus!
