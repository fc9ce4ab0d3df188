//! The routes of an interface.

use crate::net::{Ipv4Addr, Ipv6Addr, NetworkAddress};
use vstd::prelude::*;

verus! {

/// How a network is reached: the address to send from, and the router to send to where the network
/// is not on the link.
#[derive(Debug, Clone, Copy)]
pub struct RouteInformation<T> {
    pub target: T,
    pub mask: T,
    pub source: T,
    pub next_hop: Option<T>,
}

impl<T: NetworkAddress> RouteInformation<T> {
    /// Whether two routes are for the same network.
    pub open spec fn same_network(self, other: Self) -> bool {
        self.target == other.target && self.mask == other.mask
    }

    /// Whether a route comes before another: longer masks come first, and among routes with the
    /// same mask lower targets.
    pub open spec fn before(self, other: Self) -> bool {
        self.mask.value() > other.mask.value() || (self.mask.value() == other.mask.value()
            && self.target.value() < other.target.value())
    }

    /// Whether the route is one for an address.
    pub open spec fn matches(self, address: T) -> bool {
        address.masked(self.mask) == self.target
    }

    /// Whether two routes are for the same network.
    pub fn is_same_network(&self, other: &Self) -> (result: bool)
        ensures
            result == self.same_network(*other),
    {
        self.target.same(other.target) && self.mask.same(other.mask)
    }

    /// Whether a route comes before another.
    pub fn is_before(&self, other: &Self) -> (result: bool)
        ensures
            result == self.before(*other),
    {
        if other.mask.less(self.mask) {
            true
        } else if self.mask.less(other.mask) {
            false
        } else {
            self.target.less(other.target)
        }
    }
}

/// Whether routes are in order. No two are for the same network then.
pub open spec fn ordered<T: NetworkAddress>(routes: Seq<RouteInformation<T>>) -> bool {
    forall|i: int, j: int| 0 <= i < j < routes.len() ==> #[trigger] routes[i].before(routes[j])
}

/// Whether the route at an index is the first one for an address.
pub open spec fn first_match<T: NetworkAddress>(
    routes: Seq<RouteInformation<T>>,
    address: T,
    index: int,
) -> bool {
    &&& 0 <= index < routes.len()
    &&& routes[index].matches(address)
    &&& forall|i: int| 0 <= i < index ==> !(#[trigger] routes[i]).matches(address)
}

/// Whether a route was put among others, in place of the one for the same network or as a new one.
pub open spec fn put_among<T: NetworkAddress>(
    before: Seq<RouteInformation<T>>,
    after: Seq<RouteInformation<T>>,
    new: RouteInformation<T>,
) -> bool {
    ||| exists|i: int|
        0 <= i < before.len() && (#[trigger] before[i]).same_network(new) && after
            == before.update(i, new)
    ||| {
        &&& forall|i: int| 0 <= i < before.len() ==> !(#[trigger] before[i]).same_network(new)
        &&& exists|i: int| 0 <= i <= before.len() && after == #[trigger] before.insert(i, new)
    }
}

/// The items whose flag is not set.
pub open spec fn without_flagged<A>(items: Seq<A>, flags: Seq<bool>) -> Seq<A>
    decreases items.len(),
{
    if items.len() == 0 {
        Seq::empty()
    } else {
        let rest = without_flagged(items.drop_last(), flags.drop_last());
        if flags.last() {
            rest
        } else {
            rest.push(items.last())
        }
    }
}

/// Routes after one was put among them.
pub open spec fn with_route<T: NetworkAddress>(
    before: Seq<RouteInformation<T>>,
    new: RouteInformation<T>,
) -> Seq<RouteInformation<T>> {
    choose|after: Seq<RouteInformation<T>>| #[trigger]
        put_among(before, after, new) && ordered(after)
}

/// Where a route belongs among others is told by their order.
pub proof fn put_among_unique<T: NetworkAddress>(
    before: Seq<RouteInformation<T>>,
    one: Seq<RouteInformation<T>>,
    other: Seq<RouteInformation<T>>,
    new: RouteInformation<T>,
)
    requires
        ordered(before),
        put_among(before, one, new),
        ordered(one),
        put_among(before, other, new),
        ordered(other),
    ensures
        one == other,
        with_route(before, new) == one,
{
    put_among_agrees(before, one, other, new);
    put_among_agrees(before, one, with_route(before, new), new);
}

proof fn put_among_agrees<T: NetworkAddress>(
    before: Seq<RouteInformation<T>>,
    one: Seq<RouteInformation<T>>,
    other: Seq<RouteInformation<T>>,
    new: RouteInformation<T>,
)
    requires
        ordered(before),
        put_among(before, one, new),
        ordered(one),
        put_among(before, other, new),
        ordered(other),
    ensures
        one == other,
{
    if exists|i: int| 0 <= i < before.len() && (#[trigger] before[i]).same_network(new) {
        let i = choose|i: int|
            0 <= i < before.len() && (#[trigger] before[i]).same_network(new) && one
                == before.update(i, new);
        let j = choose|j: int|
            0 <= j < before.len() && (#[trigger] before[j]).same_network(new) && other
                == before.update(j, new);
        if i < j {
            assert(before[i].before(before[j]));
        }
        if j < i {
            assert(before[j].before(before[i]));
        }
    } else {
        let i = choose|i: int| 0 <= i <= before.len() && one == #[trigger] before.insert(i, new);
        let j = choose|j: int| 0 <= j <= before.len() && other == #[trigger] before.insert(j, new);
        if i < j {
            assert(one[i] == new && one[i + 1] == before[i]);
            assert(one[i].before(one[i + 1]));
            assert(other[i] == before[i] && other[j] == new);
            assert(other[i].before(other[j]));
        }
        if j < i {
            assert(other[j] == new && other[j + 1] == before[j]);
            assert(other[j].before(other[j + 1]));
            assert(one[j] == before[j] && one[i] == new);
            assert(one[j].before(one[i]));
        }
    }
}

/// The routes but for those that send from a given address.
pub open spec fn without_source<T: NetworkAddress>(
    routes: Seq<RouteInformation<T>>,
    source: T,
) -> Seq<RouteInformation<T>>
    decreases routes.len(),
{
    if routes.len() == 0 {
        Seq::empty()
    } else {
        let rest = without_source(routes.drop_last(), source);
        if routes.last().source == source {
            rest
        } else {
            rest.push(routes.last())
        }
    }
}

/// Removing the routes that are flagged for sending from an address leaves the others.
pub proof fn without_flagged_source<T: NetworkAddress>(
    routes: Seq<RouteInformation<T>>,
    flags: Seq<bool>,
    source: T,
)
    requires
        flags.len() == routes.len(),
        forall|i: int| 0 <= i < flags.len() ==> #[trigger] flags[i] == (routes[i].source == source),
    ensures
        without_flagged(routes, flags) == without_source(routes, source),
    decreases routes.len(),
{
    if routes.len() > 0 {
        assert forall|i: int| 0 <= i < flags.drop_last().len() implies #[trigger] flags.drop_last()[i]
            == (routes.drop_last()[i].source == source) by {
            assert(flags.drop_last()[i] == flags[i]);
        }
        without_flagged_source(routes.drop_last(), flags.drop_last(), source);
        assert(flags.last() == (routes.last().source == source));
    }
}

/// The routes of an interface, and the copy of them that others may read.
#[derive(Debug)]
pub struct RouteTable<T> {
    pub routes: Vec<RouteInformation<T>>,
    pub published: Vec<RouteInformation<T>>,
}

impl<T> View for RouteTable<T> {
    type V = Seq<RouteInformation<T>>;

    open spec fn view(&self) -> Seq<RouteInformation<T>> {
        self.routes@
    }
}

impl<T: NetworkAddress> RouteTable<T> {
    /// The routes are in order, and the copy is up to date.
    pub open spec fn wf(self) -> bool {
        ordered(self.routes@) && self.published@ == self.routes@
    }

    /// A table without routes.
    pub fn new() -> (table: Self)
        ensures
            table.wf(),
            table@ == Seq::<RouteInformation<T>>::empty(),
    {
        RouteTable { routes: Vec::new(), published: Vec::new() }
    }

    /// The copy of the routes that others may read.
    pub fn shared(&self) -> (routes: &Vec<RouteInformation<T>>)
        requires
            self.wf(),
        ensures
            routes@ == self@,
    {
        &self.published
    }

    /// Brings the copy up to date.
    fn update_shared(&mut self)
        requires
            ordered(old(self)@),
        ensures
            final(self).wf(),
            final(self)@ == old(self)@,
    {
        let mut next: Vec<RouteInformation<T>> = Vec::new();
        let mut i: usize = 0;
        while i < self.routes.len()
            invariant
                i <= self.routes@.len(),
                next@ == self.routes@.take(i as int),
            decreases self.routes@.len() - i,
        {
            let route = &self.routes[i];
            next.push(
                RouteInformation {
                    target: route.target,
                    mask: route.mask,
                    source: route.source,
                    next_hop: route.next_hop,
                },
            );
            i = i + 1;
            assert(next@ =~= self.routes@.take(i as int));
        }
        assert(self.routes@.take(i as int) =~= self.routes@);
        self.published = next;
    }

    /// The position of the first route that does not come before a given one.
    fn position(&self, new: &RouteInformation<T>) -> (position: usize)
        requires
            ordered(self@),
        ensures
            position <= self@.len(),
            forall|i: int| 0 <= i < position ==> (#[trigger] self@[i]).before(*new),
            forall|i: int| position <= i < self@.len() ==> !(#[trigger] self@[i]).before(*new),
    {
        let mut low: usize = 0;
        let mut high: usize = self.routes.len();
        while low < high
            invariant
                low <= high <= self@.len(),
                ordered(self@),
                forall|i: int| 0 <= i < low ==> (#[trigger] self@[i]).before(*new),
                forall|i: int| high <= i < self@.len() ==> !(#[trigger] self@[i]).before(*new),
            decreases high - low,
        {
            let middle: usize = low + (high - low) / 2;
            if self.routes[middle].is_before(new) {
                assert forall|i: int| 0 <= i <= middle implies (#[trigger] self@[i]).before(
                    *new,
                ) by {
                    if i < middle {
                        assert(self@[i].before(self@[middle as int]));
                    }
                }
                low = middle + 1;
            } else {
                assert forall|i: int| middle <= i < self@.len() implies !(
                #[trigger] self@[i]).before(*new) by {
                    if middle < i {
                        assert(self@[middle as int].before(self@[i]));
                    }
                }
                high = middle;
            }
        }
        low
    }

    /// Adds a route. One for the same network is replaced.
    pub fn insert_or_update(&mut self, target: T, mask: T, source: T, next_hop: Option<T>)
        requires
            old(self).wf(),
        ensures
            final(self).wf(),
            put_among(
                old(self)@,
                final(self)@,
                RouteInformation { target, mask, source, next_hop },
            ),
    {
        let new = RouteInformation { target, mask, source, next_hop };
        let index: usize = self.position(&new);
        let ghost before = self@;
        if index < self.routes.len() && self.routes[index].is_same_network(&new) {
            self.routes.set(index, new);
            assert(before[index as int].same_network(new));
            assert(self@ == before.update(index as int, new));
            assert forall|i: int, j: int| 0 <= i < j < self@.len() implies #[trigger] self@[i].before(
                self@[j],
            ) by {
                assert(before[i].before(before[j]));
            }
        } else {
            self.routes.insert(index, new);
            assert(self@ == before.insert(index as int, new));
            assert forall|i: int| 0 <= i < before.len() implies !(
            #[trigger] before[i]).same_network(new) by {
                if i > index {
                    assert(before[index as int].before(before[i]));
                }
            }
            assert forall|i: int, j: int| 0 <= i < j < self@.len() implies #[trigger] self@[i].before(
                self@[j],
            ) by {
                let a = if i < index {
                    i
                } else {
                    i - 1
                };
                let b = if j < index {
                    j
                } else {
                    j - 1
                };
                if i == index {
                    let other = before[b];
                    assert(!other.before(new));
                    assert(!other.same_network(new));
                    T::value_tells_apart(other.mask, mask);
                    T::value_tells_apart(other.target, target);
                } else if j == index {
                    assert(before[a].before(new));
                } else {
                    assert(before[a].before(before[b]));
                }
            }
        }
        self.update_shared();
    }

    /// Removes the routes that `predicate` picks.
    pub fn remove_matching<F: Fn(&RouteInformation<T>) -> bool>(&mut self, predicate: F)
        requires
            old(self).wf(),
            forall|route: &RouteInformation<T>| predicate.requires((route,)),
        ensures
            final(self).wf(),
            exists|flags: Seq<bool>|
                {
                    &&& flags.len() == old(self)@.len()
                    &&& forall|i: int|
                        0 <= i < flags.len() ==> predicate.ensures(
                            (&old(self)@[i],),
                            #[trigger] flags[i],
                        )
                    &&& final(self)@ == #[trigger] without_flagged(old(self)@, flags)
                },
    {
        let ghost before = self@;
        let ghost mut flags: Seq<bool> = Seq::empty();
        let ghost mut origin: Seq<int> = Seq::empty();
        let mut kept: Vec<RouteInformation<T>> = Vec::new();
        let mut i: usize = 0;
        while i < self.routes.len()
            invariant
                i <= self@.len(),
                self@ == before,
                ordered(before),
                forall|route: &RouteInformation<T>| predicate.requires((route,)),
                flags.len() == i,
                forall|j: int|
                    0 <= j < i ==> predicate.ensures((&before[j],), #[trigger] flags[j]),
                kept@ == without_flagged(before.take(i as int), flags),
                origin.len() == kept@.len(),
                forall|j: int|
                    0 <= j < origin.len() ==> 0 <= #[trigger] origin[j] < i && kept@[j]
                        == before[origin[j]],
                forall|j: int, k: int| 0 <= j < k < origin.len() ==> origin[j] < origin[k],
            decreases self@.len() - i,
        {
            let route = self.routes[i];
            let flag: bool = predicate(&self.routes[i]);
            proof {
                assert(before.take(i + 1).drop_last() =~= before.take(i as int));
                assert(flags.push(flag).drop_last() =~= flags);
                flags = flags.push(flag);
            }
            if !flag {
                kept.push(route);
                proof {
                    origin = origin.push(i as int);
                }
            }
            i = i + 1;
        }
        assert(before.take(i as int) =~= before);
        self.routes = kept;
        assert forall|j: int, k: int| 0 <= j < k < kept@.len() implies #[trigger] kept@[j].before(
            kept@[k],
        ) by {
            assert(before[origin[j]].before(before[origin[k]]));
        }
        self.update_shared();
    }

    /// The route to an address: the first one for it, and so the one with the longest mask.
    pub fn lookup(&self, target: &T) -> (route: Option<&RouteInformation<T>>)
        requires
            self.wf(),
        ensures
            match route {
                Some(route) => exists|i: int| #[trigger]
                    first_match(self@, *target, i) && *route == self@[i],
                None => forall|i: int| 0 <= i < self@.len() ==> !(#[trigger] self@[i]).matches(*target),
            },
    {
        let mut i: usize = 0;
        while i < self.routes.len()
            invariant
                i <= self@.len(),
                forall|j: int| 0 <= j < i ==> !(#[trigger] self@[j]).matches(*target),
            decreases self@.len() - i,
        {
            let route = &self.routes[i];
            if target.mask_with(route.mask).same(route.target) {
                assert(first_match(self@, *target, i as int));
                return Some(route);
            }
            i = i + 1;
        }
        None
    }
}

impl Default for RouteTable<Ipv4Addr> {
    fn default() -> (table: Self)
        ensures
            table.wf(),
            table@ == Seq::<RouteInformation<Ipv4Addr>>::empty(),
    {
        RouteTable::new()
    }
}

impl Default for RouteTable<Ipv6Addr> {
    fn default() -> (table: Self)
        ensures
            table.wf(),
            table@ == Seq::<RouteInformation<Ipv6Addr>>::empty(),
    {
        RouteTable::new()
    }
}

/// The route that a lookup gives has the longest mask of all routes for the address.
pub proof fn lookup_takes_longest_mask<T: NetworkAddress>(
    routes: Seq<RouteInformation<T>>,
    address: T,
    index: int,
    other: int,
)
    requires
        ordered(routes),
        first_match(routes, address, index),
        0 <= other < routes.len(),
        routes[other].matches(address),
    ensures
        routes[other].mask.value() <= routes[index].mask.value(),
{
    if other != index {
        assert(index < other);
        assert(routes[index].before(routes[other]));
    }
}

/// After a route was added, a lookup of any address in its network gives a route, and one whose
/// mask is at least as long.
pub proof fn added_route_is_found<T: NetworkAddress>(
    before: Seq<RouteInformation<T>>,
    after: Seq<RouteInformation<T>>,
    new: RouteInformation<T>,
    address: T,
)
    requires
        ordered(after),
        put_among(before, after, new),
        new.matches(address),
    ensures
        exists|i: int| #[trigger]
            first_match(after, address, i) && after[i].mask.value() >= new.mask.value(),
{
    let at = if exists|i: int|
        0 <= i < before.len() && (#[trigger] before[i]).same_network(new) && after
            == before.update(i, new) {
        choose|i: int|
            0 <= i < before.len() && (#[trigger] before[i]).same_network(new) && after
                == before.update(i, new)
    } else {
        choose|i: int| 0 <= i <= before.len() && after == #[trigger] before.insert(i, new)
    };
    assert(after[at] == new);
    first_match_exists(after, address, at);
    let i = choose|i: int| #[trigger] first_match(after, address, i) && i <= at;
    lookup_takes_longest_mask(after, address, i, at);
}

proof fn first_match_exists<T: NetworkAddress>(
    routes: Seq<RouteInformation<T>>,
    address: T,
    at: int,
)
    requires
        0 <= at < routes.len(),
        routes[at].matches(address),
    ensures
        exists|i: int| #[trigger] first_match(routes, address, i) && i <= at,
    decreases at,
{
    if forall|i: int| 0 <= i < at ==> !(#[trigger] routes[i]).matches(address) {
        assert(first_match(routes, address, at));
    } else {
        let i = choose|i: int| 0 <= i < at && (#[trigger] routes[i]).matches(address);
        first_match_exists(routes, address, i);
    }
}

/// Adding a route leaves the routes for other networks as they are.
pub proof fn adding_keeps_other_routes<T: NetworkAddress>(
    before: Seq<RouteInformation<T>>,
    after: Seq<RouteInformation<T>>,
    new: RouteInformation<T>,
    other: RouteInformation<T>,
)
    requires
        put_among(before, after, new),
        !other.same_network(new),
    ensures
        before.contains(other) == after.contains(other),
        after.contains(new),
{
    if exists|i: int|
        0 <= i < before.len() && (#[trigger] before[i]).same_network(new) && after
            == before.update(i, new) {
        let at = choose|i: int|
            0 <= i < before.len() && (#[trigger] before[i]).same_network(new) && after
                == before.update(i, new);
        assert(after[at] == new);
        if before.contains(other) {
            let i = choose|i: int| 0 <= i < before.len() && before[i] == other;
            assert(after[i] == other);
        }
        if after.contains(other) {
            let i = choose|i: int| 0 <= i < after.len() && after[i] == other;
            assert(before[i] == other);
        }
    } else {
        let at = choose|i: int| 0 <= i <= before.len() && after == #[trigger] before.insert(i, new);
        assert(after[at] == new);
        if before.contains(other) {
            let i = choose|i: int| 0 <= i < before.len() && before[i] == other;
            if i < at {
                assert(after[i] == other);
            } else {
                assert(after[i + 1] == other);
            }
        }
        if after.contains(other) {
            let i = choose|i: int| 0 <= i < after.len() && after[i] == other;
            if i < at {
                assert(before[i] == other);
            } else {
                assert(before[i - 1] == other);
            }
        }
    }
}

/// There is a place for a route among others.
pub proof fn route_can_be_put<T: NetworkAddress>(
    before: Seq<RouteInformation<T>>,
    new: RouteInformation<T>,
)
    requires
        ordered(before),
    ensures
        exists|after: Seq<RouteInformation<T>>| #[trigger]
            put_among(before, after, new) && ordered(after),
{
    if exists|i: int| 0 <= i < before.len() && (#[trigger] before[i]).same_network(new) {
        let i = choose|i: int| 0 <= i < before.len() && (#[trigger] before[i]).same_network(new);
        let after = before.update(i, new);
        assert(put_among(before, after, new));
        assert forall|a: int, b: int| 0 <= a < b < after.len() implies #[trigger] after[a].before(
            after[b],
        ) by {
            assert(before[a].before(before[b]));
        }
    } else {
        let at = place_of(before, new);
        place_is_right(before, new);
        let after = before.insert(at, new);
        assert(put_among(before, after, new)) by {
            assert(0 <= at <= before.len() && after == before.insert(at, new));
        }
        assert forall|i: int, j: int| 0 <= i < j < after.len() implies #[trigger] after[i].before(
            after[j],
        ) by {
            let a = if i < at {
                i
            } else {
                i - 1
            };
            let b = if j < at {
                j
            } else {
                j - 1
            };
            if i == at {
                let other = before[b];
                assert(!other.same_network(new));
                T::value_tells_apart(other.mask, new.mask);
                T::value_tells_apart(other.target, new.target);
            } else if j == at {
                assert(before[a].before(new));
            } else {
                assert(before[a].before(before[b]));
            }
        }
    }
}

/// How many routes come before a given one.
spec fn place_of<T: NetworkAddress>(
    routes: Seq<RouteInformation<T>>,
    new: RouteInformation<T>,
) -> int
    decreases routes.len(),
{
    if routes.len() == 0 || !routes[0].before(new) {
        0
    } else {
        1 + place_of(routes.skip(1), new)
    }
}

proof fn place_is_right<T: NetworkAddress>(
    routes: Seq<RouteInformation<T>>,
    new: RouteInformation<T>,
)
    requires
        ordered(routes),
    ensures
        0 <= place_of(routes, new) <= routes.len(),
        forall|i: int| 0 <= i < place_of(routes, new) ==> (#[trigger] routes[i]).before(new),
        forall|i: int|
            place_of(routes, new) <= i < routes.len() ==> !(#[trigger] routes[i]).before(new),
    decreases routes.len(),
{
    if routes.len() > 0 {
        let rest = routes.skip(1);
        assert forall|i: int, j: int| 0 <= i < j < rest.len() implies #[trigger] rest[i].before(
            rest[j],
        ) by {
            assert(routes[i + 1].before(routes[j + 1]));
        }
        if routes[0].before(new) {
            place_is_right(rest, new);
            assert forall|i: int| 0 <= i < place_of(routes, new) implies (
            #[trigger] routes[i]).before(new) by {
                if i > 0 {
                    assert(rest[i - 1].before(new));
                }
            }
            assert forall|i: int| place_of(routes, new) <= i < routes.len() implies !(
            #[trigger] routes[i]).before(new) by {
                assert(!rest[i - 1].before(new));
            }
        } else {
            assert forall|i: int| 0 <= i < routes.len() implies !(
            #[trigger] routes[i]).before(new) by {
                if i > 0 {
                    assert(routes[0].before(routes[i]));
                }
            }
        }
    }
}

} // verus!
