//! The stations of a network, and what is ready at them.

use super::wire::six;
use crate::bits::row_bit_set;
use crate::net::{Ipv4Addr, SocketAddr};
use crate::poller::{any_slot_ready, slot_ready, slot_state, ReadyBitFrozen, ReadyState};
use crate::protocols::ethernet::mac::{mac_text, MacAddr};
use crate::runtime::address_table::{broadcast_of, has_address_or_broadcast, network_of};
use crate::runtime::interface::l4_managers::udp::manager::ready_addresses;
use crate::runtime::network::{handed, same_prefix, without_mac, HandleView, WorkerState};
use crate::text::hex_digit;
use vstd::prelude::*;

verus! {

/// A frame is handed to a station that it is for, or to all where it is for all, as the last that
/// the station has to take. A station that does not run or has no room does not get it.
pub proof fn a_frame_is_handed_to_who_it_is_for(station: HandleView, frame: Seq<u8>)
    ensures
        ({
            let after = handed(station, frame);
            let for_it = frame.len() >= 14 && (six(frame, 0) == station.mac || six(frame, 0)
                == MacAddr(255, 255, 255, 255, 255, 255));
            let takes = for_it && station.worker == WorkerState::Handle && station.incoming.len()
                < station.capacity;
            &&& after.incoming == if takes {
                station.incoming.push(frame)
            } else {
                station.incoming
            }
            &&& after == HandleView { incoming: after.incoming, ..station }
        }),
{
}

/// The station that is closed is the first with its address, and the others stay in order.
pub proof fn a_closed_station_is_gone(stations: Seq<HandleView>, mac: MacAddr, index: int)
    ensures
        0 <= index < stations.len() && stations[index].mac == mac && (forall|i: int|
            0 <= i < index ==> (#[trigger] stations[i]).mac != mac) ==> without_mac(stations, mac)
            == stations.remove(index),
        (forall|i: int| 0 <= i < stations.len() ==> (#[trigger] stations[i]).mac != mac)
            ==> without_mac(stations, mac) == stations,
    decreases stations.len(),
{
    if stations.len() > 0 {
        let rest = stations.skip(1);
        a_closed_station_is_gone(rest, mac, index - 1);
        assert forall|i: int| 0 <= i < rest.len() implies #[trigger] rest[i]
            == stations[i + 1] by {}
        if 0 <= index < stations.len() && stations[index].mac == mac && (forall|i: int|
            0 <= i < index ==> (#[trigger] stations[i]).mac != mac) {
            if index == 0 {
                assert(stations.remove(0) =~= rest);
            } else {
                assert(stations[0].mac != mac);
                assert forall|i: int| 0 <= i < index - 1 implies (#[trigger] rest[i]).mac
                    != mac by {
                    assert(stations[i + 1].mac != mac);
                }
                assert(stations.remove(index) =~= seq![stations[0]] + rest.remove(index - 1));
            }
        }
        if forall|i: int| 0 <= i < stations.len() ==> (#[trigger] stations[i]).mac != mac {
            assert(stations[0].mac != mac);
            assert forall|i: int| 0 <= i < rest.len() implies (#[trigger] rest[i]).mac != mac by {
                assert(stations[i + 1].mac != mac);
            }
            assert(seq![stations[0]] + rest =~= stations);
        }
    }
}

/// The first and the last address of a network agree with each other where its mask has ones. Where
/// it has zeros the first has zeros, and the last has ones.
pub proof fn a_network_has_a_first_and_a_last_address(address: Ipv4Addr, mask: Ipv4Addr)
    ensures
        network_of(address, mask).bits & mask.bits == address.bits & mask.bits,
        network_of(address, mask).bits & !mask.bits == 0,
        broadcast_of(address, mask).bits & mask.bits == address.bits & mask.bits,
        broadcast_of(address, mask).bits & !mask.bits == !mask.bits,
{
    let a = address.bits;
    let m = mask.bits;
    assert((a & m) & m == a & m) by (bit_vector);
    assert((a & m) & !m == 0) by (bit_vector);
    assert(((a & m) | !m) & m == a & m) by (bit_vector);
    assert(((a & m) | !m) & !m == !m) by (bit_vector);
}

/// An interface takes what is for one of its addresses or for all of one of its networks.
pub proof fn an_address_or_all_of_its_network_is_meant(
    addresses: Seq<(Ipv4Addr, Ipv4Addr)>,
    value: Ipv4Addr,
)
    ensures
        has_address_or_broadcast(addresses, value) <==> exists|i: int|
            0 <= i < addresses.len() && ((#[trigger] addresses[i]).0 == value || value.bits == (
            addresses[i].0.bits & addresses[i].1.bits) | !addresses[i].1.bits),
{
    if has_address_or_broadcast(addresses, value) {
        let i = choose|i: int|
            0 <= i < addresses.len() && ((#[trigger] addresses[i]).0 == value || broadcast_of(
                addresses[i].0,
                addresses[i].1,
            ) == value);
        assert(addresses[i].0 == value || value.bits == (addresses[i].0.bits
            & addresses[i].1.bits) | !addresses[i].1.bits);
    }
    if exists|i: int|
        0 <= i < addresses.len() && ((#[trigger] addresses[i]).0 == value || value.bits == (
        addresses[i].0.bits & addresses[i].1.bits) | !addresses[i].1.bits) {
        let i = choose|i: int|
            0 <= i < addresses.len() && ((#[trigger] addresses[i]).0 == value || value.bits == (
            addresses[i].0.bits & addresses[i].1.bits) | !addresses[i].1.bits);
        assert(broadcast_of(addresses[i].0, addresses[i].1) == value || addresses[i].0 == value);
    }
}

/// Whether a bit of a row of words is one, counted from the lowest of the first word on.
pub open spec fn is_one(words: Seq<u64>, index: int) -> bool {
    &&& 0 <= index < words.len() * 64
    &&& (words[index / 64] >> ((index % 64) as u64)) & 1 == 1
}

/// The sockets that are ready are those whose bit is one, in the order of their numbers, as far as
/// there is a socket with the number.
pub proof fn ready_sockets_are_those_with_a_bit(
    slots: Seq<Option<SocketAddr>>,
    ready: Seq<u64>,
    count: nat,
)
    requires
        count <= slots.len(),
    ensures
        forall|addr: SocketAddr| #[trigger]
            ready_addresses(slots, ready, count).contains(addr) <==> exists|i: int|
                0 <= i < count && #[trigger] slots[i] == Some(addr) && is_one(ready, i),
        count > 0 && slots[count - 1] is Some && is_one(ready, count - 1) ==> ready_addresses(
            slots,
            ready,
            count,
        ).last() == slots[count - 1]->0,
        count > 0 ==> ready_addresses(slots, ready, count).len() == ready_addresses(
            slots,
            ready,
            (count - 1) as nat,
        ).len() + if slots[count - 1] is Some && is_one(ready, count - 1) {
            1int
        } else {
            0
        },
    decreases count,
{
    if count > 0 {
        let last = count - 1;
        ready_sockets_are_those_with_a_bit(slots, ready, last as nat);
        let before = ready_addresses(slots, ready, last as nat);
        let after = ready_addresses(slots, ready, count);
        assert(row_bit_set(ready, last) == is_one(ready, last));
        assert forall|addr: SocketAddr| #[trigger] after.contains(addr) <==> exists|i: int|
            0 <= i < count && #[trigger] slots[i] == Some(addr) && is_one(ready, i) by {
            if after.contains(addr) {
                let j = choose|j: int| 0 <= j < after.len() && after[j] == addr;
                if j < before.len() {
                    assert(before[j] == addr);
                    assert(before.contains(addr));
                } else {
                    assert(slots[last] == Some(addr) && is_one(ready, last));
                }
            }
            if exists|i: int|
                0 <= i < count && #[trigger] slots[i] == Some(addr) && is_one(ready, i) {
                let i = choose|i: int|
                    0 <= i < count && #[trigger] slots[i] == Some(addr) && is_one(ready, i);
                if i < last {
                    assert(before.contains(addr));
                    let j = choose|j: int| 0 <= j < before.len() && before[j] == addr;
                    assert(after[j] == addr);
                } else {
                    assert(after.last() == addr);
                    assert(after[after.len() - 1] == addr);
                }
            }
        }
    }
}

/// A slot is ready to read, to write or for both, as its bits of the two kinds say.
pub proof fn a_slot_is_ready_as_its_bits_say(chunks: Seq<ReadyBitFrozen>, slot: int)
    requires
        0 <= slot < chunks.len() * 64,
    ensures
        ({
            let read = (chunks[slot / 64].read >> ((slot % 64) as u64)) & 1 == 1;
            let write = (chunks[slot / 64].write >> ((slot % 64) as u64)) & 1 == 1;
            &&& slot_ready(chunks, slot) <==> read || write
            &&& read && write ==> slot_state(chunks, slot) == ReadyState::Both
            &&& read && !write ==> slot_state(chunks, slot) == ReadyState::Read
            &&& !read && write ==> slot_state(chunks, slot) == ReadyState::Write
        }),
{
}

/// Something is ready where a word of either kind is not zero.
pub proof fn something_is_ready_where_a_word_is_not_zero(chunks: Seq<ReadyBitFrozen>, chunk: int)
    requires
        0 <= chunk < chunks.len(),
        chunks[chunk].read > 0 || chunks[chunk].write > 0,
    ensures
        any_slot_ready(chunks),
{
    assert(chunks[chunk].read != 0 || chunks[chunk].write != 0);
}

/// Two addresses lie in the same network where they agree in as many of their highest bits as the
/// prefix says.
pub proof fn a_prefix_is_of_the_highest_bits(
    one: Ipv4Addr,
    other: Ipv4Addr,
    prefix: u8,
    bit: u32,
)
    requires
        prefix <= 32,
        same_prefix(one, other, prefix),
        32 - prefix <= bit < 32,
    ensures
        (one.bits >> bit) & 1 == (other.bits >> bit) & 1,
{
    if prefix > 0 {
        let a = one.bits;
        let b = other.bits;
        let shift = (32 - prefix) as u32;
        assert((a >> bit) & 1 == (b >> bit) & 1) by (bit_vector)
            requires
                a >> shift == b >> shift,
                shift <= bit,
                bit < 32,
        ;
    }
}

/// A digit is written with a number from zero to nine, and then with a letter.
pub proof fn digits_are_written_in_order(value: int)
    requires
        0 <= value < 16,
    ensures
        hex_digit(value) == seq![
            '0', '1', '2', '3', '4', '5', '6', '7', '8', '9', 'a', 'b', 'c', 'd', 'e', 'f',
        ][value],
{
}

/// A link layer address is written with two digits for each of its bytes and colons between them.
pub proof fn a_link_layer_address_is_written_with_colons(mac: MacAddr)
    ensures
        ({
            let text = mac_text(mac.spec_octets());
            &&& text.len() == 17
            &&& forall|i: int|
                0 <= i < 6 ==> {
                    &&& #[trigger] text[3 * i] == hex_digit(mac.spec_octets()[i] as int / 16)
                    &&& text[3 * i + 1] == hex_digit(mac.spec_octets()[i] as int % 16)
                    &&& i > 0 ==> text[3 * i - 1] == ':'
                }
        }),
{
    let octets = mac.spec_octets();
    address_text_of(octets);
}

proof fn address_text_of(octets: Seq<u8>)
    requires
        octets.len() > 0,
    ensures
        ({
            let text = mac_text(octets);
            &&& text.len() == 3 * octets.len() - 1
            &&& forall|i: int|
                0 <= i < octets.len() ==> {
                    &&& #[trigger] text[3 * i] == hex_digit(octets[i] as int / 16)
                    &&& text[3 * i + 1] == hex_digit(octets[i] as int % 16)
                    &&& i > 0 ==> text[3 * i - 1] == ':'
                }
        }),
    decreases octets.len(),
{
    if octets.len() > 1 {
        let rest = octets.drop_last();
        address_text_of(rest);
        let text = mac_text(octets);
        let before = mac_text(rest);
        assert forall|i: int| 0 <= i < octets.len() implies {
            &&& #[trigger] text[3 * i] == hex_digit(octets[i] as int / 16)
            &&& text[3 * i + 1] == hex_digit(octets[i] as int % 16)
            &&& i > 0 ==> text[3 * i - 1] == ':'
        } by {
            if i < rest.len() {
                assert(text[3 * i] == before[3 * i]);
                assert(text[3 * i + 1] == before[3 * i + 1]);
                assert(rest[i] == octets[i]);
                if i > 0 {
                    assert(text[3 * i - 1] == before[3 * i - 1]);
                }
            }
        }
    }
}

} // verus!
