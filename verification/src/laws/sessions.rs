//! Sessions of echoes over time.

use super::control::{a_control_message_is_written_to_its_places, unreachable_number};
use super::datagrams::adds_up;
use super::receiving::{
    awaited_at, awaited_is_found, echo_number, is_named, named_session_is_found, reason, stands_for,
};
use super::wire::two;
use crate::protocols::ipv4::IPProtocolTypes;
use crate::protocols::ipv4::icmp::{echo_wire_length, EchoMessageDataUnix};
use crate::runtime::interface::{LossCause, LossView, SendError};
use crate::runtime::interface::context::ContextView;
use crate::runtime::interface::l3_ipv4::{outgoing_sent, Outgoing};
use crate::runtime::interface::l4_managers::{loss_forwarded, losses_forwarded};
use crate::runtime::interface::l4_managers::ping::{
    all_processed, answered_sequence_is_found, earlier, expire, first_pending, only_live,
    session_at, session_processed, session_started, timers_ok, timers_performed, without_key,
    without_stopped, EntryView, PingEntryKey, PingEvent, PingResultStatus, PingView,
};
use crate::time::{Duration, Instant};
use crate::write_to_buffer::WriteToBuffer;
use vstd::prelude::*;

verus! {

/// Whether a session has echoes left to send.
pub open spec fn has_more(entry: EntryView) -> bool {
    match entry.count {
        Some(count) => entry.sent_count < count,
        None => true,
    }
}

/// Whether a session has echoes left to send or to wait for.
pub open spec fn goes_on(entry: EntryView) -> bool {
    has_more(entry) || entry.pending.len() > 0
}

/// The sessions that are kept are those that have echoes left to send or to wait for, in the order
/// in which they were.
pub proof fn sessions_that_go_on_are_kept(sessions: Seq<EntryView>)
    ensures
        only_live(sessions) == sessions.filter(|entry: EntryView| goes_on(entry)),
    decreases sessions.len(),
{
    reveal(Seq::filter);
    if sessions.len() > 0 {
        sessions_that_go_on_are_kept(sessions.drop_last());
    }
}

proof fn stopped_session_is_removed(sessions: Seq<EntryView>, key: PingEntryKey)
    ensures
        without_key(sessions, key) == sessions.filter(|entry: EntryView| entry.key != key),
    decreases sessions.len(),
{
    reveal(Seq::filter);
    if sessions.len() > 0 {
        stopped_session_is_removed(sessions.drop_last(), key);
    }
}

proof fn filtered_again(sessions: Seq<EntryView>, stops: Seq<PingEntryKey>)
    requires
        stops.len() > 0,
    ensures
        sessions.filter(|entry: EntryView| !stops.drop_last().contains(entry.key)).filter(
            |entry: EntryView| entry.key != stops.last(),
        ) == sessions.filter(|entry: EntryView| !stops.contains(entry.key)),
    decreases sessions.len(),
{
    reveal(Seq::filter);
    let first = |entry: EntryView| !stops.drop_last().contains(entry.key);
    let second = |entry: EntryView| entry.key != stops.last();
    let both = |entry: EntryView| !stops.contains(entry.key);
    if sessions.len() > 0 {
        let last = sessions.last();
        let rest = sessions.drop_last();
        filtered_again(rest, stops);
        assert(both(last) == (first(last) && second(last))) by {
            if stops.contains(last.key) && !stops.drop_last().contains(last.key) {
                let i = choose|i: int| 0 <= i < stops.len() && stops[i] == last.key;
                if i < stops.len() - 1 {
                    assert(stops.drop_last()[i] == last.key);
                }
            }
            if stops.drop_last().contains(last.key) {
                let i = choose|i: int|
                    0 <= i < stops.drop_last().len() && stops.drop_last()[i] == last.key;
                assert(stops[i] == last.key);
            }
            assert(stops[stops.len() - 1] == stops.last());
        }
        if first(last) {
            let kept = rest.filter(first);
            assert(sessions.filter(first) == kept.push(last));
            assert(kept.push(last).drop_last() =~= kept);
            assert(kept.push(last).last() == last);
        }
    }
}

/// The sessions that are not stopped are those with none of the keys that are given.
pub proof fn sessions_that_are_stopped_are_gone(
    sessions: Seq<EntryView>,
    stops: Seq<PingEntryKey>,
)
    ensures
        without_stopped(sessions, stops) == sessions.filter(
            |entry: EntryView| !stops.contains(entry.key),
        ),
    decreases stops.len(),
{
    if stops.len() == 0 {
        let all = |entry: EntryView| !stops.contains(entry.key);
        all_are_kept(sessions, all);
    } else {
        let before = without_stopped(sessions, stops.drop_last());
        sessions_that_are_stopped_are_gone(sessions, stops.drop_last());
        stopped_session_is_removed(before, stops.last());
        filtered_again(sessions, stops);
    }
}

proof fn all_are_kept(sessions: Seq<EntryView>, test: spec_fn(EntryView) -> bool)
    requires
        forall|entry: EntryView| #[trigger] test(entry),
    ensures
        sessions.filter(test) == sessions,
    decreases sessions.len(),
{
    reveal(Seq::filter);
    if sessions.len() > 0 {
        all_are_kept(sessions.drop_last(), test);
        assert(sessions.drop_last().push(sessions.last()) =~= sessions);
    }
}

/// How many of the echoes that a session waits for, from the oldest on, it has waited for longer
/// than it should.
pub open spec fn overdue(entry: EntryView, now: Instant, count: int) -> bool {
    &&& 0 <= count <= entry.pending.len()
    &&& forall|i: int|
        0 <= i < count ==> now.nanos - (#[trigger] entry.pending[i]).1.nanos > entry.timeout.nanos
    &&& count < entry.pending.len() ==> now.nanos - entry.pending[count].1.nanos
        <= entry.timeout.nanos
}

/// Whether a number is the one with which a session sent an echo that it waits for.
pub open spec fn sent_as(entry: EntryView, i: int, number: usize) -> bool {
    number % 65536 == entry.pending[i].0 && number <= entry.sent_count <= number + 32768
}

/// Each echo that was waited for too long is told in turn, under the number with which it was sent,
/// and is no longer waited for. The session stays as it is otherwise.
pub proof fn overdue_echoes_are_told(entry: EntryView, now: Instant, count: int)
    requires
        overdue(entry, now, count),
    ensures
        ({
            let (left, told) = expire(entry, now);
            &&& told.len() == count
            &&& forall|i: int, number: usize|
                0 <= i < count && #[trigger] sent_as(entry, i, number) ==> told[i] == (PingEvent {
                    key: entry.key,
                    sequence: number,
                    status: PingResultStatus::Timeout,
                })
            &&& left.pending == entry.pending.skip(count)
            &&& left == EntryView { pending: left.pending, ..entry }
        }),
    decreases count,
{
    let (left, told) = expire(entry, now);
    if count > 0 {
        assert(now.nanos - entry.pending[0].1.nanos > entry.timeout.nanos);
        let rest = entry.without_oldest();
        assert forall|i: int| 0 <= i < count - 1 implies now.nanos - (
        #[trigger] rest.pending[i]).1.nanos > rest.timeout.nanos by {
            assert(rest.pending[i] == entry.pending[i + 1]);
        }
        overdue_echoes_are_told(rest, now, count - 1);
        let (_, later) = expire(rest, now);
        assert(told == seq![entry.timeout_event()] + later);
        assert(rest.pending.skip(count - 1) =~= entry.pending.skip(count));
        assert forall|i: int, number: usize|
            0 <= i < count && #[trigger] sent_as(entry, i, number) implies told[i] == (PingEvent {
            key: entry.key,
            sequence: number,
            status: PingResultStatus::Timeout,
        }) by {
            if i == 0 {
                answered_sequence_is_found(number, entry.sent_count);
            } else {
                assert(told[i] == later[i - 1]);
                assert(rest.pending[i - 1] == entry.pending[i]);
                assert(sent_as(rest, i - 1, number));
            }
        }
    } else {
        assert(entry.pending.skip(0) =~= entry.pending);
    }
}

/// Whether a session has waited long enough since it last sent an echo.
pub open spec fn is_due(entry: EntryView, now: Instant) -> bool {
    match entry.last_sent {
        Some(last) => now.nanos - last.nanos > entry.interval.nanos,
        None => true,
    }
}

/// A session that is due and has echoes left sends the next one: with its own number and the next
/// one of an echo, with the clock readings, and to its target. What was sent is waited for,
/// counted, and is the last that was sent. A session that could not send is due again at once, and
/// one that is not due yet comes when its interval is over. One that has no echo left sends
/// nothing.
pub proof fn a_session_sends_when_it_is_due(
    context: ContextView,
    entry: EntryView,
    clock: EchoMessageDataUnix,
    identification: u16,
    now: Instant,
    count: int,
) -> (echo: Outgoing)
    requires
        overdue(entry, now, count),
        clock.since_epoc.wf(),
        now.nanos + entry.timeout.nanos <= u64::MAX,
    ensures
        echo.destination == entry.key.0,
        echo.source.bits == 0,
        echo.protocol == IPProtocolTypes::ICMP,
        echo.identification == identification,
        echo.length == 64,
        echo.payload.len() == 64,
        echo.payload[0] == 8,
        echo.payload[1] == 0,
        two(echo.payload, 4) == entry.key.1,
        two(echo.payload, 6) == entry.sent_count % 65536,
        echo.payload.skip(8) == clock.encoding(),
        adds_up(echo.payload),
        ({
            let left = EntryView { pending: entry.pending.skip(count), ..entry };
            let (sent, result) = outgoing_sent(context, echo, now);
            let (after, done, told, deadline) = session_processed(
                context,
                entry,
                clock,
                identification,
                now,
            );
            &&& told == expire(entry, now).1
            &&& !has_more(entry) ==> after == context && done == left && deadline is None
            &&& has_more(entry) && is_due(entry, now) && result is Ok ==> {
                &&& after == sent
                &&& done.pending.len() == left.pending.len() + 1
                &&& done.pending.drop_last() == left.pending
                &&& done.pending.last().0 == entry.sent_count % 65536
                &&& done.pending.last().1 == now
                &&& done.last_sent == Some(now)
                &&& entry.sent_count < usize::MAX ==> done.sent_count == entry.sent_count + 1
                &&& done == EntryView {
                    pending: done.pending,
                    last_sent: done.last_sent,
                    sent_count: done.sent_count,
                    ..entry
                }
                &&& deadline matches Some(deadline)
                &&& deadline.nanos == now.nanos + entry.timeout.nanos
            }
            &&& has_more(entry) && is_due(entry, now) && result is Err ==> {
                &&& after == sent
                &&& done == left
                &&& deadline == Some(now)
            }
            &&& has_more(entry) && !is_due(entry, now) ==> {
                &&& after == context
                &&& done == left
                &&& deadline matches Some(deadline)
                &&& entry.last_sent->0.nanos + entry.interval.nanos <= u64::MAX ==> deadline.nanos
                    == entry.last_sent->0.nanos + entry.interval.nanos
            }
        }),
{
    let left = EntryView { pending: entry.pending.skip(count), ..entry };
    let echo = left.next_outgoing(clock, identification);
    overdue_echoes_are_told(entry, now, count);
    echo_wire_length(
        left.next_echo(clock),
        left.key.1,
        (left.sent_count % 65536) as u16,
        clock,
    );
    a_control_message_is_written_to_its_places(left.next_echo(clock));
    let done = session_processed(context, entry, clock, identification, now).1;
    if done.pending.len() > left.pending.len() {
        assert(done.pending.drop_last() =~= left.pending);
    }
    echo
}

/// A session starts with a span of ten seconds in which an echo is answered, with nothing sent and
/// nothing waited for, behind the other sessions.
pub proof fn a_session_starts_afresh(
    ping: PingView,
    key: PingEntryKey,
    count: Option<usize>,
    interval: Duration,
    now: Instant,
)
    ensures
        ({
            let after = session_started(ping, key, count, interval);
            let entry = after.sessions.last();
            &&& after.sessions.drop_last() == ping.sessions
            &&& after.events == ping.events
            &&& entry.key == key
            &&& entry.count == count
            &&& entry.interval == interval
            &&& entry.timeout.nanos == 10_000_000_000
            &&& entry.sent_count == 0
            &&& entry.pending.len() == 0
            &&& is_due(entry, now)
            &&& overdue(entry, now, 0)
        }),
{
    let after = session_started(ping, key, count, interval);
    assert(after.sessions.drop_last() =~= ping.sessions);
}

/// The sessions are looked after one after the other, each with what the ones before it left of the
/// interface. What is told is what each of them tells, in turn, and the time at which there is more
/// to do is the earliest of theirs.
pub proof fn sessions_take_turns(
    context: ContextView,
    sessions: Seq<EntryView>,
    clock: EchoMessageDataUnix,
    identifications: Seq<u16>,
    now: Instant,
) -> (states: Seq<ContextView>)
    requires
        identifications.len() == sessions.len(),
    ensures
        states.len() == sessions.len() + 1,
        states[0] == context,
        ({
            let (after, done, told, deadline) = all_processed(
                context,
                sessions,
                clock,
                identifications,
                now,
            );
            let turn = |i: int|
                session_processed(states[i], sessions[i], clock, identifications[i], now);
            &&& after == states.last()
            &&& done.len() == sessions.len()
            &&& forall|i: int|
                0 <= i < sessions.len() ==> (#[trigger] turn(i)).0 == states[i + 1] && turn(i).1
                    == done[i]
            &&& told == Seq::new(sessions.len(), |i: int| turn(i).2).flatten()
            &&& forall|i: int|
                0 <= i < sessions.len() ==> ((#[trigger] turn(i)).3 matches Some(next) ==> (
                deadline matches Some(first) && first.nanos <= next.nanos))
            &&& deadline is Some ==> exists|i: int|
                0 <= i < sessions.len() && (#[trigger] turn(i)).3 == deadline
        }),
    decreases sessions.len(),
{
    let (after, done, told, deadline) = all_processed(
        context,
        sessions,
        clock,
        identifications,
        now,
    );
    if sessions.len() == 0 {
        let states = seq![context];
        let turn = |i: int|
            session_processed(states[i], sessions[i], clock, identifications[i], now);
        assert(Seq::new(sessions.len(), |i: int| turn(i).2) =~= Seq::<Seq<PingEvent>>::empty());
        states
    } else {
        let rest = sessions.drop_last();
        let drawn = identifications.drop_last();
        let earlier_states = sessions_take_turns(context, rest, clock, drawn, now);
        let before = |i: int| session_processed(earlier_states[i], rest[i], clock, drawn[i], now);
        let (middle, done_before, told_before, deadline_before) = all_processed(
            context,
            rest,
            clock,
            drawn,
            now,
        );
        let states = earlier_states.push(after);
        let turn = |i: int|
            session_processed(states[i], sessions[i], clock, identifications[i], now);
        let last = sessions.len() - 1;
        assert(turn(last) == session_processed(
            middle,
            sessions.last(),
            clock,
            identifications.last(),
            now,
        ));
        assert forall|i: int| 0 <= i < last implies #[trigger] turn(i) == before(i) by {}
        assert forall|i: int| 0 <= i < sessions.len() implies (#[trigger] turn(i)).0 == states[i
            + 1] && turn(i).1 == done[i] by {
            if i < last {
                assert(turn(i) == before(i));
            }
        }
        let parts = Seq::new(sessions.len(), |i: int| turn(i).2);
        let parts_before = Seq::new(rest.len(), |i: int| before(i).2);
        assert(parts.drop_last() =~= parts_before);
        parts.lemma_flatten_and_flatten_alt_are_equivalent();
        parts_before.lemma_flatten_and_flatten_alt_are_equivalent();
        assert(parts.last() == turn(last).2);
        assert(told == told_before + turn(last).2);
        assert forall|i: int| 0 <= i < sessions.len() implies ((
        #[trigger] turn(i)).3 matches Some(next) ==> (deadline matches Some(first) && first.nanos
            <= next.nanos)) by {
            if i < last {
                assert(turn(i) == before(i));
            }
        }
        if deadline is Some {
            if deadline == turn(last).3 {
                assert(turn(last).3 == deadline);
            } else {
                assert(deadline == deadline_before);
                let i = choose|i: int|
                    0 <= i < rest.len() && (#[trigger] before(i)).3 == deadline_before;
                assert(turn(i) == before(i));
            }
        }
        states
    }
}

/// When the sessions are looked after, those that are stopped are gone first, and those that have
/// nothing left to do are gone then. What they tell comes behind what was told before.
pub proof fn sessions_are_looked_after(
    context: ContextView,
    ping: PingView,
    stops: Seq<PingEntryKey>,
    clock: EchoMessageDataUnix,
    identifications: Seq<u16>,
    now: Instant,
)
    ensures
        ({
            let running = ping.sessions.filter(|entry: EntryView| !stops.contains(entry.key));
            let (after, done, told, deadline) = all_processed(
                context,
                running,
                clock,
                identifications,
                now,
            );
            timers_performed(context, ping, stops, clock, identifications, now) == (
                after,
                PingView {
                    sessions: done.filter(|entry: EntryView| goes_on(entry)),
                    events: ping.events + told,
                },
                deadline,
            )
        }),
{
    sessions_that_are_stopped_are_gone(ping.sessions, stops);
    let running = without_stopped(ping.sessions, stops);
    sessions_that_go_on_are_kept(
        all_processed(context, running, clock, identifications, now).1,
    );
}

/// The earlier of two times is no later than either of them, and is one of them.
pub proof fn the_earlier_time_is_taken(one: Option<Instant>, other: Option<Instant>)
    ensures
        earlier(one, other) == one || earlier(one, other) == other,
        one matches Some(time) ==> (earlier(one, other) matches Some(first) && first.nanos
            <= time.nanos),
        other matches Some(time) ==> (earlier(one, other) matches Some(first) && first.nanos
            <= time.nanos),
{
}

/// What is told of the reason for which an echo was lost.
pub open spec fn reason_of(cause: LossCause) -> &'static str {
    match cause {
        LossCause::Local(SendError::ArpTimeout) => "ARP Timeout",
        LossCause::Local(_) => "Send Error",
        LossCause::Unreachable(code) => reason(unreachable_number(code)),
    }
}

/// The loss of an echo of a session is told once, under the number of the echo and with the reason,
/// and the session no longer waits for the echo.
pub proof fn a_lost_echo_is_told(ping: PingView, loss: LossView, session: int, number: usize)
    requires
        ping.wf(),
        loss.header.protocol == IPProtocolTypes::ICMP,
        loss.datagram.len() >= 8,
        loss.datagram[0] == 8,
        loss.datagram[1] == 0,
        is_named(ping.sessions, session, loss.header.destination_address, loss.datagram),
        stands_for(loss.datagram, number, ping.sessions[session].sent_count),
    ensures
        ({
            let after = loss_forwarded(ping, loss);
            let entry = ping.sessions[session];
            let left = after.sessions;
            &&& after.events == ping.events.push(
                PingEvent {
                    key: entry.key,
                    sequence: number,
                    status: PingResultStatus::Unreachable(reason_of(loss.cause)),
                },
            )
            &&& left.len() == ping.sessions.len()
            &&& forall|i: int|
                0 <= i < left.len() && i != session ==> #[trigger] left[i] == ping.sessions[i]
            &&& left[session] == EntryView { pending: left[session].pending, ..entry }
            &&& forall|at: int| #[trigger]
                awaited_at(entry, loss.datagram, at) ==> left[session].pending
                    == entry.pending.remove(at)
            &&& (forall|at: int| !#[trigger] awaited_at(entry, loss.datagram, at))
                ==> left[session].pending == entry.pending
        }),
{
    let echo = loss.datagram;
    let entry = ping.sessions[session];
    named_session_is_found(ping.sessions, session, loss.header.destination_address, echo);
    answered_sequence_is_found(number, entry.sent_count);
    let sequence = echo_number(echo);
    if exists|at: int| #[trigger] awaited_at(entry, echo, at) {
        let at = choose|at: int| #[trigger] awaited_at(entry, echo, at);
        assert forall|other: int| #[trigger] awaited_at(entry, echo, other) implies other == at by {
            awaited_is_found(entry, echo, at);
            awaited_is_found(entry, echo, other);
        }
        awaited_is_found(entry, echo, at);
    } else {
        if exists|i: int| #[trigger] first_pending(entry.pending, sequence, i) {
            let i = choose|i: int| #[trigger] first_pending(entry.pending, sequence, i);
            assert(awaited_at(entry, echo, i));
        }
    }
}

/// The loss of anything but an echo of a session is not told.
pub proof fn another_loss_is_not_told(ping: PingView, loss: LossView)
    requires
        loss.datagram.len() >= 8,
        loss.header.protocol != IPProtocolTypes::ICMP || loss.datagram[0] != 8 || loss.datagram[1]
            != 0 || (forall|i: int|
            0 <= i < ping.sessions.len() ==> !is_named(
                ping.sessions,
                i,
                loss.header.destination_address,
                loss.datagram,
            )),
    ensures
        loss_forwarded(ping, loss) == ping,
{
    let key = PingEntryKey(
        loss.header.destination_address,
        crate::buffer::be16_at(loss.datagram, 4),
    );
    if let Some(session) = session_at(ping.sessions, key) {
        assert(ping.sessions[session].key == key);
        assert(is_named(
            ping.sessions,
            session,
            loss.header.destination_address,
            loss.datagram,
        ));
    }
}

/// Losses are told in the order in which they came.
pub proof fn losses_are_told_in_order(ping: PingView, losses: Seq<LossView>, last: LossView)
    ensures
        losses_forwarded(ping, Seq::empty()) == ping,
        losses_forwarded(ping, losses.push(last)) == loss_forwarded(
            losses_forwarded(ping, losses),
            last,
        ),
{
    assert(losses.push(last).drop_last() =~= losses);
}

/// Sessions can be looked after on an interface on which an echo fits, as long as the clock can
/// show when they are due.
pub proof fn sessions_can_be_looked_after(
    context: ContextView,
    ping: PingView,
    stops: Seq<PingEntryKey>,
    clock: EchoMessageDataUnix,
    now: Instant,
)
    requires
        context.mtu >= 98,
        clock.since_epoc.nanos <= 18_446_744_073_709_551_615_999_999_999,
        forall|i: int|
            0 <= i < ping.sessions.len() ==> ((
            #[trigger] ping.sessions[i]).last_sent matches Some(last) ==> last.nanos
                + ping.sessions[i].interval.nanos <= u64::MAX),
    ensures
        timers_ok(context, ping, stops, clock, now),
{
}

} // verus!
