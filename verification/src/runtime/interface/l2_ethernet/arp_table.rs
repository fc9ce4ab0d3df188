//! What is known of the link layer addresses of others.

use crate::net::Ipv4Addr;
use crate::protocols::ethernet::mac::MacAddr;
use crate::time::{nanos_between, Duration, Instant};
use std::collections::HashMap;
use vstd::prelude::*;
use vstd::std_specs::iter::IteratorSpec;

verus! {

/// What a request for a link layer address comes to.
#[derive(Debug, PartialEq, Eq, Clone, Copy, Structural)]
pub enum ArpState {
    /// Nobody was asked yet, or whoever was asked did not answer in time: ask (again), from the
    /// given address.
    PendingRetry { source: Ipv4Addr },
    /// What was known is too old: ask anew.
    Restart,
    /// Somebody was asked, and may still answer until the deadline.
    PendingWait { deadline: Instant },
    /// Nobody answered.
    Timeout,
    /// The address is known.
    Resolved(MacAddr),
    /// The address is known, but not confirmed of late: use it, and ask.
    ResolvedStale(MacAddr),
}

/// What is known of one address.
#[derive(Debug, PartialEq, Eq, Clone, Copy, Structural)]
pub enum ArpTableEntry {
    Pending { since: Instant, retry_count: u8, source: Ipv4Addr },
    Resolved { last_seen: Instant, address: MacAddr },
    Timeout { since: Instant },
}

/// How long an answer may take: 100 ms.
pub const ARP_REQUEST_TIMEOUT_NANOS: u64 = 100_000_000;

/// How often a question is repeated.
pub const ARP_REQUEST_MAX_RETRY: u8 = 5;

/// For how many seconds an answer counts as confirmed, and a missing answer is remembered.
pub const ARP_LIFETIME_SEC: u64 = 30;

/// After how many seconds an answer that was not confirmed is forgotten.
pub const ARP_LIFETIME_STALE_SEC: u64 = 60;

/// What a request for `target` comes to, and what is known after it.
pub open spec fn arp_request(
    table: Map<u32, ArpTableEntry>,
    target: Ipv4Addr,
    source: Ipv4Addr,
    now: Instant,
) -> (Map<u32, ArpTableEntry>, ArpState) {
    let key = target.bits;
    if !table.contains_key(key) {
        (
            table.insert(key, ArpTableEntry::Pending { since: now, retry_count: 0, source }),
            ArpState::PendingRetry { source },
        )
    } else {
        match table[key] {
            ArpTableEntry::Pending { since, retry_count, source } => if nanos_between(since, now)
                <= ARP_REQUEST_TIMEOUT_NANOS {
                (
                    table,
                    ArpState::PendingWait {
                        deadline: Instant {
                            nanos: (since.nanos + ARP_REQUEST_TIMEOUT_NANOS) as u64,
                        },
                    },
                )
            } else if retry_count >= ARP_REQUEST_MAX_RETRY {
                (table.insert(key, ArpTableEntry::Timeout { since: now }), ArpState::Timeout)
            } else {
                (table, ArpState::PendingRetry { source })
            },
            ArpTableEntry::Timeout { since } => if nanos_between(since, now) > ARP_LIFETIME_SEC
                * 1_000_000_000 {
                (table.remove(key), ArpState::Restart)
            } else {
                (table, ArpState::Timeout)
            },
            ArpTableEntry::Resolved { last_seen, address } => {
                let seconds = nanos_between(last_seen, now) as int / 1_000_000_000;
                if seconds >= ARP_LIFETIME_STALE_SEC {
                    (table.remove(key), ArpState::Restart)
                } else if seconds >= ARP_LIFETIME_SEC {
                    (table, ArpState::ResolvedStale(address))
                } else {
                    (table, ArpState::Resolved(address))
                }
            },
        }
    }
}

/// What is known after a question for `target` was decided on: a pending one is counted, a new one
/// is pending.
pub open spec fn arp_asked(
    table: Map<u32, ArpTableEntry>,
    target: Ipv4Addr,
    source: Ipv4Addr,
    now: Instant,
) -> Map<u32, ArpTableEntry> {
    let key = target.bits;
    if !table.contains_key(key) {
        table.insert(key, ArpTableEntry::Pending { since: now, retry_count: 0, source })
    } else {
        match table[key] {
            ArpTableEntry::Pending { since, retry_count, source } => table.insert(
                key,
                ArpTableEntry::Pending {
                    since: now,
                    retry_count: (retry_count + 1) as u8,
                    source,
                },
            ),
            _ => table,
        }
    }
}

/// Whether a question for `target` is pending or new, and so may be sent.
pub open spec fn arp_may_ask(table: Map<u32, ArpTableEntry>, target: Ipv4Addr) -> bool {
    !table.contains_key(target.bits) || table[target.bits] is Pending
}

/// Whether one more question for `target` can be counted.
pub open spec fn arp_can_count(table: Map<u32, ArpTableEntry>, target: Ipv4Addr) -> bool {
    table.contains_key(target.bits) ==> {
        table[target.bits] matches ArpTableEntry::Pending { retry_count, .. } ==> retry_count
            < u8::MAX
    }
}

/// Whether the clock can still show the deadline of each pending question.
pub open spec fn arp_in_range(table: Map<u32, ArpTableEntry>) -> bool {
    forall|key: u32| #[trigger]
        table.contains_key(key) ==> {
            table[key] matches ArpTableEntry::Pending { since, .. } ==> since.can_look_ahead()
        }
}

/// Whether a list names each pending question once: its address, and the address it is asked from.
pub open spec fn lists_pending(
    list: Seq<(Ipv4Addr, Ipv4Addr)>,
    table: Map<u32, ArpTableEntry>,
) -> bool {
    &&& forall|i: int, j: int|
        0 <= i < list.len() && 0 <= j < list.len() && (#[trigger] list[i]).0 == (
        #[trigger] list[j]).0 ==> i == j
    &&& forall|i: int|
        0 <= i < list.len() ==> table.contains_key((#[trigger] list[i]).0.bits) && (
        table[list[i].0.bits] matches ArpTableEntry::Pending { source, .. } && source == list[i].1)
    &&& forall|key: u32| #[trigger]
        table.contains_key(key) && table[key] is Pending ==> exists|i: int|
            0 <= i < list.len() && (#[trigger] list[i]).0.bits == key
}

/// The link layer addresses that are known or asked for.
#[derive(Debug)]
pub struct ArpTable {
    pub table: HashMap<u32, ArpTableEntry>,
}

impl View for ArpTable {
    type V = Map<u32, ArpTableEntry>;

    open spec fn view(&self) -> Map<u32, ArpTableEntry> {
        self.table@
    }
}

impl ArpTable {
    /// The clock can still show the deadline of each pending question.
    pub open spec fn wf(self) -> bool {
        arp_in_range(self@)
    }

    /// Nothing is known.
    pub fn new() -> (table: Self)
        ensures
            table.wf(),
            table@ == Map::<u32, ArpTableEntry>::empty(),
    {
        ArpTable { table: HashMap::new() }
    }

    /// Records an address. Returns whether anything was recorded of it before.
    pub fn update_or_insert(&mut self, mac: MacAddr, ipv4: Ipv4Addr, now: Instant) -> (known: bool)
        requires
            old(self).wf(),
        ensures
            final(self).wf(),
            final(self)@ == old(self)@.insert(
                ipv4.bits,
                ArpTableEntry::Resolved { last_seen: now, address: mac },
            ),
            known == old(self)@.contains_key(ipv4.bits),
    {
        broadcast use vstd::std_specs::hash::group_hash_axioms;

        self.table.insert(
            ipv4.bits,
            ArpTableEntry::Resolved { last_seen: now, address: mac },
        ).is_some()
    }

    /// Records an address if anything was recorded of it before. Returns whether it was.
    pub fn update_only(&mut self, mac: MacAddr, ipv4: Ipv4Addr, now: Instant) -> (known: bool)
        requires
            old(self).wf(),
        ensures
            final(self).wf(),
            known == old(self)@.contains_key(ipv4.bits),
            final(self)@ == (if known {
                old(self)@.insert(
                    ipv4.bits,
                    ArpTableEntry::Resolved { last_seen: now, address: mac },
                )
            } else {
                old(self)@
            }),
    {
        broadcast use vstd::std_specs::hash::group_hash_axioms;

        if self.table.contains_key(&ipv4.bits) {
            self.table.insert(
                ipv4.bits,
                ArpTableEntry::Resolved { last_seen: now, address: mac },
            );
            true
        } else {
            false
        }
    }

    /// Asks for the link layer address behind `target`.
    pub fn request(&mut self, target: Ipv4Addr, source: Ipv4Addr, now: Instant) -> (state: ArpState)
        requires
            old(self).wf(),
            now.can_look_ahead(),
        ensures
            final(self).wf(),
            (final(self)@, state) == arp_request(old(self)@, target, source, now),
    {
        broadcast use vstd::std_specs::hash::group_hash_axioms;

        let entry: Option<ArpTableEntry> = match self.table.get(&target.bits) {
            Some(entry) => Some(*entry),
            None => None,
        };
        match entry {
            Some(ArpTableEntry::Pending { retry_count, since, source }) => {
                if now.duration_since(since).nanos > ARP_REQUEST_TIMEOUT_NANOS as u128 {
                    if retry_count >= ARP_REQUEST_MAX_RETRY {
                        self.table.insert(target.bits, ArpTableEntry::Timeout { since: now });
                        ArpState::Timeout
                    } else {
                        ArpState::PendingRetry { source }
                    }
                } else {
                    ArpState::PendingWait {
                        deadline: since.after(Duration::from_nanos(ARP_REQUEST_TIMEOUT_NANOS)),
                    }
                }
            },
            Some(ArpTableEntry::Timeout { since }) => {
                if now.duration_since(since).nanos > Duration::from_secs(ARP_LIFETIME_SEC).nanos {
                    self.table.remove(&target.bits);
                    ArpState::Restart
                } else {
                    ArpState::Timeout
                }
            },
            Some(ArpTableEntry::Resolved { last_seen, address }) => {
                let seconds: u64 = now.duration_since(last_seen).as_secs();
                if seconds >= ARP_LIFETIME_STALE_SEC {
                    self.table.remove(&target.bits);
                    ArpState::Restart
                } else if seconds >= ARP_LIFETIME_SEC {
                    ArpState::ResolvedStale(address)
                } else {
                    ArpState::Resolved(address)
                }
            },
            None => {
                self.table.insert(
                    target.bits,
                    ArpTableEntry::Pending { since: now, retry_count: 0, source },
                );
                ArpState::PendingRetry { source }
            },
        }
    }

    /// Whether a link layer address is known, or was of late.
    pub fn knows(&self, target: Ipv4Addr, now: Instant) -> (result: bool)
        ensures
            forall|source: Ipv4Addr|
                {
                    let state = #[trigger] arp_request(self@, target, source, now).1;
                    result == (state is Resolved || state is ResolvedStale)
                },
    {
        broadcast use vstd::std_specs::hash::group_hash_axioms;

        match self.table.get(&target.bits) {
            Some(ArpTableEntry::Resolved { last_seen, .. }) => now.duration_since(
                *last_seen,
            ).as_secs() < ARP_LIFETIME_STALE_SEC,
            _ => false,
        }
    }

    /// Whether one more question for an address can be counted, and whether it may be sent.
    pub fn question_state(&self, target: Ipv4Addr) -> (state: (bool, bool))
        ensures
            state == (arp_can_count(self@, target), arp_may_ask(self@, target)),
    {
        broadcast use vstd::std_specs::hash::group_hash_axioms;

        match self.table.get(&target.bits) {
            Some(ArpTableEntry::Pending { retry_count, .. }) => (*retry_count < u8::MAX, true),
            Some(_) => (true, false),
            None => (true, true),
        }
    }

    /// The pending questions: the addresses, and the addresses they are asked from. They come in
    /// no particular order.
    pub fn pending(&self) -> (list: Vec<(Ipv4Addr, Ipv4Addr)>)
        ensures
            lists_pending(list@, self@),
    {
        broadcast use vstd::std_specs::hash::group_hash_axioms;

        let mut list: Vec<(Ipv4Addr, Ipv4Addr)> = Vec::new();
        let ghost mut origin: Seq<int> = Seq::empty();
        let entries = self.table.iter();
        let ghost all = entries.remaining();
        for entry in walk: entries
            invariant
                all == walk.seq(),
                all.no_duplicates(),
                forall|i: int|
                    0 <= i < all.len() ==> self@.contains_key(*(#[trigger] all[i]).0)
                        && self@[*all[i].0] == *all[i].1,
                origin.len() == list@.len(),
                forall|i: int|
                    0 <= i < list@.len() ==> 0 <= #[trigger] origin[i] < walk.index()
                        && *all[origin[i]].0 == list@[i].0.bits && (*all[origin[i]].1 matches ArpTableEntry::Pending {
                        source,
                        ..
                    } && source == list@[i].1),
                forall|i: int, j: int| 0 <= i < j < origin.len() ==> origin[i] < origin[j],
                forall|k: int|
                    0 <= k < walk.index() && *(#[trigger] all[k]).1 is Pending ==> exists|i: int|
                        0 <= i < list@.len() && origin[i] == k,
        {
            let ghost before = origin;
            if let ArpTableEntry::Pending { source, .. } = entry.1 {
                list.push((Ipv4Addr { bits: *entry.0 }, *source));
                proof {
                    origin = origin.push(walk.index());
                }
            }
            assert forall|k: int|
                0 <= k < walk.index() + 1 && *(#[trigger] all[k]).1 is Pending implies exists|i: int|
                0 <= i < list@.len() && origin[i] == k by {
                if k < walk.index() {
                    let i = choose|i: int| 0 <= i < before.len() && before[i] == k;
                    assert(origin[i] == k);
                } else {
                    assert(origin[before.len() as int] == k);
                }
            }
        }
        proof {
            assert forall|i: int, j: int|
                0 <= i < list@.len() && 0 <= j < list@.len() && (#[trigger] list@[i]).0 == (
                #[trigger] list@[j]).0 implies i == j by {
                let a = all[origin[i]];
                let b = all[origin[j]];
                assert(*a.0 == *b.0 && *a.1 == *b.1);
                assert(a == b);
                assert(origin[i] == origin[j]);
                if i < j {
                    assert(origin[i] < origin[j]);
                }
                if j < i {
                    assert(origin[j] < origin[i]);
                }
            }
            assert forall|i: int| 0 <= i < list@.len() implies self@.contains_key(
                (#[trigger] list@[i]).0.bits,
            ) && (self@[list@[i].0.bits] matches ArpTableEntry::Pending { source, .. } && source
                == list@[i].1) by {
                assert(0 <= origin[i] < all.len());
                assert(self@.contains_key(*all[origin[i]].0));
            }
            assert forall|key: u32| #[trigger]
                self@.contains_key(key) && self@[key] is Pending implies exists|i: int|
                0 <= i < list@.len() && (#[trigger] list@[i]).0.bits == key by {
                assert(all.contains((&key, &self@[key])));
                let k = choose|k: int| 0 <= k < all.len() && all[k] == (&key, &self@[key]);
                assert(*all[k].1 is Pending);
                let i = choose|i: int| 0 <= i < list@.len() && origin[i] == k;
                assert(list@[i].0.bits == key);
            }
        }
        list
    }

    /// Decides whether a question for `target` is sent, and counts it.
    pub fn can_send_request(&mut self, target: Ipv4Addr, source: Ipv4Addr, now: Instant) -> (send:
        bool)
        requires
            old(self).wf(),
            now.can_look_ahead(),
            arp_can_count(old(self)@, target),
        ensures
            final(self).wf(),
            final(self)@ == arp_asked(old(self)@, target, source, now),
            send == arp_may_ask(old(self)@, target),
    {
        broadcast use vstd::std_specs::hash::group_hash_axioms;

        let entry: Option<ArpTableEntry> = match self.table.get(&target.bits) {
            Some(entry) => Some(*entry),
            None => None,
        };
        match entry {
            Some(ArpTableEntry::Pending { retry_count, source, .. }) => {
                self.table.insert(
                    target.bits,
                    ArpTableEntry::Pending { since: now, retry_count: retry_count + 1, source },
                );
                true
            },
            Some(_) => false,
            None => {
                self.table.insert(
                    target.bits,
                    ArpTableEntry::Pending { since: now, retry_count: 0, source },
                );
                true
            },
        }
    }
}

/// An address that was recorded is known until it gets stale, then is still used, and then is
/// forgotten.
pub proof fn recorded_address_ages(
    table: Map<u32, ArpTableEntry>,
    mac: MacAddr,
    ipv4: Ipv4Addr,
    source: Ipv4Addr,
    seen: Instant,
    now: Instant,
)
    requires
        seen.nanos <= now.nanos,
    ensures
        ({
            let recorded = table.insert(
                ipv4.bits,
                ArpTableEntry::Resolved { last_seen: seen, address: mac },
            );
            let (after, state) = arp_request(recorded, ipv4, source, now);
            let age = now.nanos - seen.nanos;
            &&& age < 30_000_000_000 ==> state == ArpState::Resolved(mac) && after == recorded
            &&& 30_000_000_000 <= age < 60_000_000_000 ==> state == ArpState::ResolvedStale(mac)
                && after == recorded
            &&& 60_000_000_000 <= age ==> state == ArpState::Restart && !after.contains_key(
                ipv4.bits,
            )
        }),
{
}

/// A request touches what is known of its own target only.
pub proof fn request_keeps_other_entries(
    table: Map<u32, ArpTableEntry>,
    target: Ipv4Addr,
    source: Ipv4Addr,
    now: Instant,
    other: u32,
)
    requires
        other != target.bits,
    ensures
        arp_request(table, target, source, now).0.contains_key(other) == table.contains_key(other),
        table.contains_key(other) ==> arp_request(table, target, source, now).0[other]
            == table[other],
        arp_asked(table, target, source, now).contains_key(other) == table.contains_key(other),
        table.contains_key(other) ==> arp_asked(table, target, source, now)[other] == table[other],
{
}

/// A question that is answered by a retry, and no other, is sent again: at most as often as the
/// limit says, counted from the one that made the entry.
pub proof fn retries_are_bounded(
    table: Map<u32, ArpTableEntry>,
    target: Ipv4Addr,
    source: Ipv4Addr,
    now: Instant,
)
    requires
        table.contains_key(target.bits),
        table[target.bits] is Pending,
        arp_request(table, target, source, now).1 is PendingRetry,
    ensures
        table[target.bits]->retry_count < ARP_REQUEST_MAX_RETRY,
        arp_asked(arp_request(table, target, source, now).0, target, source, now)[target.bits]->retry_count
            == table[target.bits]->retry_count + 1,
        arp_asked(arp_request(table, target, source, now).0, target, source, now)[target.bits]->retry_count
            <= ARP_REQUEST_MAX_RETRY,
{
}

} // verus!
