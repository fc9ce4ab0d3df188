//! Echo sessions.

use crate::net::Ipv4Addr;
use crate::protocols::ipv4::icmp::{
    echo_wire_length, parse_unix, unix_data_in_range, DestinationUnreachableCode, EchoDataView,
    EchoMessage, EchoMessageDataUnix, EchoView, ICMPMessage, MessageView,
};
use crate::protocols::ipv4::IPProtocolTypes;
use crate::random::u16_between;
use crate::runtime::interface::context::{ContextView, InterfaceContext};
use crate::runtime::interface::l3_ipv4::{
    identifications_drawn, outgoing_sent, sendable, IPv4Handler, Outgoing,
};
use crate::runtime::interface::{AsyncSendError, LossCause, LossView, SendError};
use crate::time::{nanos_between, Duration, Instant, LOOKAHEAD_NANOS, MAX_DURATION_NANOS};
use crate::write_to_buffer::WriteToBuffer;
use vstd::multiset::Multiset;
use vstd::prelude::*;

verus! {

/// What came of an echo.
#[derive(Debug, PartialEq, Eq, Clone, Copy)]
pub enum PingResultStatus {
    /// It was answered. Says how long that took, where that is known.
    Success(Option<Duration>),
    /// It was not answered in time.
    Timeout,
    /// It could not be delivered. Says why.
    Unreachable(&'static str),
}

/// What came of an echo, as it is told to whoever started the session.
#[derive(Debug, PartialEq, Eq, Clone, Copy)]
pub struct PingResult {
    pub sequence: usize,
    pub target: Ipv4Addr,
    pub status: PingResultStatus,
}

/// By what a session is told from others.
#[derive(Debug, PartialEq, Eq, Clone, Copy, Hash, Structural)]
pub struct PingEntryKey(pub Ipv4Addr, pub u16);

/// What came of an echo of a session.
#[derive(Debug, PartialEq, Eq, Clone, Copy)]
pub struct PingEvent {
    pub key: PingEntryKey,
    pub sequence: usize,
    pub status: PingResultStatus,
}

/// A session.
#[derive(Debug)]
pub struct PingManagerEntry {
    pub target: Ipv4Addr,
    pub identifier: u16,
    /// How many echoes are sent. Without a number they are sent until the session is stopped.
    pub count: Option<usize>,
    /// How long the session waits between echoes.
    pub interval: Duration,
    pub sent_count: usize,
    pub last_sent: Option<Instant>,
    /// The sequence numbers of the echoes that were not answered yet, and when they were sent.
    pub pending: Vec<(u16, Instant)>,
    /// How long an answer may take.
    pub timeout: Duration,
}

/// What is known of a session.
pub struct EntryView {
    pub key: PingEntryKey,
    pub count: Option<usize>,
    pub interval: Duration,
    pub sent_count: usize,
    pub last_sent: Option<Instant>,
    pub pending: Seq<(u16, Instant)>,
    pub timeout: Duration,
}

impl View for PingManagerEntry {
    type V = EntryView;

    open spec fn view(&self) -> EntryView {
        EntryView {
            key: PingEntryKey(self.target, self.identifier),
            count: self.count,
            interval: self.interval,
            sent_count: self.sent_count,
            last_sent: self.last_sent,
            pending: self.pending@,
            timeout: self.timeout,
        }
    }
}

/// How far a sequence number is ahead of the number of echoes sent, on the ring of sequence
/// numbers and the short way round.
pub open spec fn sequence_distance(sequence: u16, sent: usize) -> int {
    let ahead = (sequence - sent as int) % 65536;
    if ahead < 32768 {
        ahead
    } else {
        ahead - 65536
    }
}

/// The number of the echo with a sequence number: the one nearest to the number of echoes sent.
/// Numbers wrap around.
pub open spec fn unwrapped(sequence: u16, sent: usize) -> usize {
    let number = sent + sequence_distance(sequence, sent);
    if number < 0 {
        (number + usize::MAX + 1) as usize
    } else if number > usize::MAX {
        (number - usize::MAX - 1) as usize
    } else {
        number as usize
    }
}

impl EntryView {
    pub open spec fn wf(self) -> bool {
        self.timeout.nanos <= LOOKAHEAD_NANOS
    }

    /// Whether there are echoes to be sent.
    pub open spec fn unfinished(self) -> bool {
        self.count matches Some(count) ==> self.sent_count < count
    }

    /// Whether the session is still of use: there are echoes to be sent or answered.
    pub open spec fn live(self) -> bool {
        self.unfinished() || self.pending.len() > 0
    }

    /// Whether the time for the next echo has come.
    pub open spec fn due(self, now: Instant) -> bool {
        self.last_sent matches Some(last) ==> nanos_between(last, now) > self.interval.nanos
    }

    /// Whether the oldest echo was not answered in time.
    pub open spec fn expired(self, now: Instant) -> bool {
        self.pending.len() > 0 && nanos_between(self.pending[0].1, now) > self.timeout.nanos
    }

    /// Whether the clock can show when the next echo is due.
    pub open spec fn interval_fits(self) -> bool {
        self.last_sent matches Some(last) ==> last.nanos + self.interval.nanos <= u64::MAX
    }

    /// Whether the timers of the session can be looked at, where there are echoes to be sent: the
    /// next one can be carried where its time has come, or else the clock can show when it will.
    pub open spec fn timers_ok(self, mtu: int, now: Instant) -> bool {
        self.unfinished() ==> if self.due(now) {
            echo_carried(mtu)
        } else {
            self.interval_fits()
        }
    }

    /// The session without its oldest echo.
    pub open spec fn without_oldest(self) -> Self {
        EntryView { pending: self.pending.skip(1), ..self }
    }

    /// What is told of the oldest echo when it was not answered in time.
    pub open spec fn timeout_event(self) -> PingEvent {
        PingEvent {
            key: self.key,
            sequence: unwrapped(self.pending[0].0, self.sent_count),
            status: PingResultStatus::Timeout,
        }
    }

    /// The next echo.
    pub open spec fn next_echo(self, clock: EchoMessageDataUnix) -> MessageView {
        MessageView::Echo(
            EchoView {
                identifier: self.key.1,
                sequence_number: (self.sent_count % 65536) as u16,
                data: EchoDataView::UnixLike(clock),
            },
        )
    }

    /// The datagram with the next echo.
    pub open spec fn next_outgoing(self, clock: EchoMessageDataUnix, identification: u16) -> Outgoing {
        Outgoing {
            destination: self.key.0,
            source: Ipv4Addr::unspecified(),
            protocol: IPProtocolTypes::ICMP,
            length: self.next_echo(clock).reported(),
            payload: self.next_echo(clock).wire(),
            identification,
        }
    }

    /// The session after an echo was sent.
    pub open spec fn after_sending(self, now: Instant) -> Self {
        EntryView {
            pending: self.pending.push(((self.sent_count % 65536) as u16, now)),
            last_sent: Some(now),
            sent_count: if self.sent_count == usize::MAX {
                0
            } else {
                (self.sent_count + 1) as usize
            },
            ..self
        }
    }
}

/// A session without the echoes that were not answered in time, and what is told of them. An echo
/// that was sent later is not looked at while an older one can still be answered.
pub open spec fn expire(entry: EntryView, now: Instant) -> (EntryView, Seq<PingEvent>)
    decreases entry.pending.len(),
{
    if entry.expired(now) {
        let (rest, events) = expire(entry.without_oldest(), now);
        (rest, seq![entry.timeout_event()] + events)
    } else {
        (entry, Seq::empty())
    }
}

/// Whether an echo fits in a frame, or is too long for the interface in the first place.
pub open spec fn echo_carried(mtu: int) -> bool {
    mtu >= 98 || mtu < 84
}

/// Whether the timers of the sessions that are not to be stopped can be looked at.
pub open spec fn timers_ok(
    context: ContextView,
    ping: PingView,
    stops: Seq<PingEntryKey>,
    clock: EchoMessageDataUnix,
    now: Instant,
) -> bool {
    &&& clock.since_epoc.wf()
    &&& running_ok(ping.sessions, stops, context.mtu, now)
}

/// Whether the timers of each session that is not to be stopped can be looked at.
pub open spec fn running_ok(
    sessions: Seq<EntryView>,
    stops: Seq<PingEntryKey>,
    mtu: int,
    now: Instant,
) -> bool {
    forall|i: int|
        0 <= i < sessions.len() && !stops.contains((#[trigger] sessions[i]).key)
            ==> sessions[i].timers_ok(mtu, now)
}

/// What becomes of a session when its timers are looked at: the echoes that were not answered in
/// time are given up, the next echo is sent where its time has come, and there may be a deadline
/// for the next look.
pub open spec fn session_processed(
    context: ContextView,
    entry: EntryView,
    clock: EchoMessageDataUnix,
    identification: u16,
    now: Instant,
) -> (ContextView, EntryView, Seq<PingEvent>, Option<Instant>) {
    let (waiting, events) = expire(entry, now);
    if !waiting.unfinished() {
        (context, waiting, events, None)
    } else if waiting.due(now) {
        let (after, result) = outgoing_sent(
            context,
            waiting.next_outgoing(clock, identification),
            now,
        );
        match result {
            Ok(_) => (
                after,
                waiting.after_sending(now),
                events,
                Some(Instant { nanos: (now.nanos + entry.timeout.nanos) as u64 }),
            ),
            Err(_) => (after, waiting, events, Some(now)),
        }
    } else {
        (
            context,
            waiting,
            events,
            Some(
                Instant { nanos: (waiting.last_sent->0.nanos + waiting.interval.nanos) as u64 },
            ),
        )
    }
}

/// The earlier of two deadlines.
pub open spec fn earlier(one: Option<Instant>, other: Option<Instant>) -> Option<Instant> {
    match (one, other) {
        (None, _) => other,
        (_, None) => one,
        (Some(a), Some(b)) => if b.nanos < a.nanos {
            other
        } else {
            one
        },
    }
}

/// The earlier of two deadlines.
pub fn earlier_of(one: Option<Instant>, other: Option<Instant>) -> (deadline: Option<Instant>)
    ensures
        deadline == earlier(one, other),
{
    match (one, other) {
        (None, _) => other,
        (_, None) => one,
        (Some(a), Some(b)) => if b.nanos < a.nanos {
            other
        } else {
            one
        },
    }
}

/// What becomes of sessions when their timers are looked at, one after the other.
pub open spec fn all_processed(
    context: ContextView,
    sessions: Seq<EntryView>,
    clock: EchoMessageDataUnix,
    identifications: Seq<u16>,
    now: Instant,
) -> (ContextView, Seq<EntryView>, Seq<PingEvent>, Option<Instant>)
    decreases sessions.len(),
{
    if sessions.len() == 0 {
        (context, Seq::empty(), Seq::empty(), None)
    } else {
        let (before, done, told, deadline) = all_processed(
            context,
            sessions.drop_last(),
            clock,
            identifications.drop_last(),
            now,
        );
        let (after, entry, events, next) = session_processed(
            before,
            sessions.last(),
            clock,
            identifications.last(),
            now,
        );
        (after, done.push(entry), told + events, earlier(deadline, next))
    }
}

/// The sessions that are still of use.
pub open spec fn only_live(sessions: Seq<EntryView>) -> Seq<EntryView>
    decreases sessions.len(),
{
    if sessions.len() == 0 {
        Seq::empty()
    } else {
        let rest = only_live(sessions.drop_last());
        if sessions.last().live() {
            rest.push(sessions.last())
        } else {
            rest
        }
    }
}

/// The sessions but for the ones with a given key.
pub open spec fn without_key(sessions: Seq<EntryView>, key: PingEntryKey) -> Seq<EntryView>
    decreases sessions.len(),
{
    if sessions.len() == 0 {
        Seq::empty()
    } else {
        let rest = without_key(sessions.drop_last(), key);
        if sessions.last().key == key {
            rest
        } else {
            rest.push(sessions.last())
        }
    }
}

/// The sessions but for those that are to be stopped.
pub open spec fn without_stopped(sessions: Seq<EntryView>, stops: Seq<PingEntryKey>) -> Seq<
    EntryView,
>
    decreases stops.len(),
{
    if stops.len() == 0 {
        sessions
    } else {
        without_key(without_stopped(sessions, stops.drop_last()), stops.last())
    }
}

/// Whether no two sessions have the same key.
pub open spec fn keys_unique(sessions: Seq<EntryView>) -> bool {
    forall|i: int, j: int|
        0 <= i < sessions.len() && 0 <= j < sessions.len() && (#[trigger] sessions[i]).key == (
        #[trigger] sessions[j]).key ==> i == j
}

/// Whether each session is one that can have come about.
pub open spec fn entries_ok(sessions: Seq<EntryView>) -> bool {
    forall|i: int| 0 <= i < sessions.len() ==> (#[trigger] sessions[i]).wf()
}

/// The position of the session with a key.
pub open spec fn session_at(sessions: Seq<EntryView>, key: PingEntryKey) -> Option<int> {
    if exists|i: int| 0 <= i < sessions.len() && (#[trigger] sessions[i]).key == key {
        Some(choose|i: int| 0 <= i < sessions.len() && (#[trigger] sessions[i]).key == key)
    } else {
        None
    }
}

/// Whether the echo at an index is the oldest one with a sequence number.
pub open spec fn first_pending(pending: Seq<(u16, Instant)>, sequence: u16, index: int) -> bool {
    &&& 0 <= index < pending.len()
    &&& pending[index].0 == sequence
    &&& forall|i: int| 0 <= i < index ==> (#[trigger] pending[i]).0 != sequence
}

/// The position of the oldest echo with a sequence number.
pub open spec fn pending_at(pending: Seq<(u16, Instant)>, sequence: u16) -> Option<int> {
    if exists|i: int| #[trigger] first_pending(pending, sequence, i) {
        Some(choose|i: int| #[trigger] first_pending(pending, sequence, i))
    } else {
        None
    }
}

/// What is known of all sessions after a new one was started.
pub open spec fn session_started(
    ping: PingView,
    key: PingEntryKey,
    count: Option<usize>,
    interval: Duration,
) -> PingView {
    PingView {
        sessions: ping.sessions.push(
            EntryView {
                key,
                count,
                interval,
                sent_count: 0,
                last_sent: None,
                pending: Seq::empty(),
                timeout: Duration { nanos: 10_000_000_000 },
            },
        ),
        ..ping
    }
}

/// What becomes of all sessions when their timers are looked at: those that are to be stopped are
/// stopped, the others are looked at one after the other, and those that are of no more use are
/// forgotten.
pub open spec fn timers_performed(
    context: ContextView,
    ping: PingView,
    stops: Seq<PingEntryKey>,
    clock: EchoMessageDataUnix,
    identifications: Seq<u16>,
    now: Instant,
) -> (ContextView, PingView, Option<Instant>) {
    let running = without_stopped(ping.sessions, stops);
    let (after, sessions, events, deadline) = all_processed(
        context,
        running,
        clock,
        identifications,
        now,
    );
    (
        after,
        PingView { sessions: only_live(sessions), events: ping.events + events },
        deadline,
    )
}

/// How long an answer took, from the clock readings that it carries back: by the monotonic clock
/// where that makes sense, or else by the time since the epoch.
pub open spec fn round_trip_time(
    data: Option<EchoMessageDataUnix>,
    clock: EchoMessageDataUnix,
) -> Option<Duration> {
    match data {
        Some(data) => match data.monotonic_instant {
            Some(sent) => match clock.monotonic_instant {
                Some(read) if read.nanos >= sent.nanos => Some(
                    Duration { nanos: (read.nanos - sent.nanos) as u128 },
                ),
                _ => if clock.since_epoc.nanos >= data.since_epoc.nanos {
                    Some(
                        Duration {
                            nanos: (clock.since_epoc.nanos - data.since_epoc.nanos) as u128,
                        },
                    )
                } else {
                    None
                },
            },
            None => None,
        },
        None => None,
    }
}

/// The clock readings that an echo carries, if it carries any.
pub open spec fn carried(echo: EchoView) -> Option<EchoMessageDataUnix> {
    match echo.data {
        EchoDataView::UnixLike(data) => Some(data),
        EchoDataView::Bytes(bytes) => match parse_unix(bytes) {
            Ok(data) => Some(data),
            Err(_) => None,
        },
    }
}

/// Why an echo could not be delivered.
pub open spec fn loss_text(cause: LossCause) -> &'static str {
    match cause {
        LossCause::Local(SendError::ArpTimeout) => "ARP Timeout",
        LossCause::Local(_) => "Send Error",
        LossCause::Unreachable(code) => match code {
            DestinationUnreachableCode::NetUnreachable => "network unreachable",
            DestinationUnreachableCode::HostUnreachable => "host unreachable",
            DestinationUnreachableCode::ProtocolUnreachable => "protocol unreachable",
            DestinationUnreachableCode::PortUnreachable => "port unreachable",
            DestinationUnreachableCode::FragmentationNeededAndDoNotFragmentSet =>
                "fragment need and do not fragment set",
            DestinationUnreachableCode::SourceRouteFailed => "source route failed",
        },
    }
}

/// What is known of all sessions, and what is still to be told of them.
pub struct PingView {
    pub sessions: Seq<EntryView>,
    pub events: Seq<PingEvent>,
}

impl PingView {
    pub open spec fn wf(self) -> bool {
        keys_unique(self.sessions) && entries_ok(self.sessions)
    }
}

/// The session and the echo that an answer is for.
pub open spec fn answered(sessions: Seq<EntryView>, from: Ipv4Addr, echo: EchoView) -> Option<
    (int, int),
> {
    match session_at(sessions, PingEntryKey(from, echo.identifier)) {
        Some(session) => match pending_at(sessions[session].pending, echo.sequence_number) {
            Some(pending) => Some((session, pending)),
            None => None,
        },
        None => None,
    }
}

/// What becomes of the sessions when an answer comes in.
pub open spec fn reply_taken(
    ping: PingView,
    from: Ipv4Addr,
    echo: EchoView,
    clock: EchoMessageDataUnix,
) -> PingView {
    match answered(ping.sessions, from, echo) {
        Some((session, pending)) => {
            let entry = ping.sessions[session];
            PingView {
                sessions: only_live(
                    ping.sessions.update(
                        session,
                        EntryView { pending: entry.pending.remove(pending), ..entry },
                    ),
                ),
                events: ping.events.push(
                    PingEvent {
                        key: entry.key,
                        sequence: unwrapped(echo.sequence_number, entry.sent_count),
                        status: PingResultStatus::Success(round_trip_time(carried(echo), clock)),
                    },
                ),
            }
        },
        None => PingView { sessions: only_live(ping.sessions), ..ping },
    }
}

/// What becomes of the sessions when an echo was lost. The start of a datagram tells which one it
/// was.
pub open spec fn loss_taken(ping: PingView, loss: LossView) -> PingView {
    if loss.datagram[0] != 8 || loss.datagram[1] != 0 {
        ping
    } else {
        let identifier = crate::buffer::be16_at(loss.datagram, 4);
        let sequence = crate::buffer::be16_at(loss.datagram, 6);
        match session_at(
            ping.sessions,
            PingEntryKey(loss.header.destination_address, identifier),
        ) {
            Some(session) => {
                let entry = ping.sessions[session];
                PingView {
                    sessions: match pending_at(entry.pending, sequence) {
                        Some(pending) => ping.sessions.update(
                            session,
                            EntryView { pending: entry.pending.remove(pending), ..entry },
                        ),
                        None => ping.sessions,
                    },
                    events: ping.events.push(
                        PingEvent {
                            key: entry.key,
                            sequence: unwrapped(sequence, entry.sent_count),
                            status: PingResultStatus::Unreachable(loss_text(loss.cause)),
                        },
                    ),
                }
            },
            None => ping,
        }
    }
}

/// A `hdrhistogram::Histogram` of how long answers took, in nanoseconds.
#[verifier::external_body]
pub struct PingStatistics {
    histogram: hdrhistogram::Histogram<u64>,
}

/// The values that were recorded in a histogram.
pub uninterp spec fn recorded_values(statistics: PingStatistics) -> Multiset<u64>;

/// Whether a value belongs in one of some bins, each of which is given by its greatest value. The
/// greatest of all values belongs with the one before it.
pub open spec fn in_bin(bins: Seq<(u64, u64)>, i: int, value: u64) -> bool {
    let level = if value == u64::MAX {
        value - 1
    } else {
        value as int
    };
    level <= bins[i].0 && (i > 0 ==> bins[i - 1].0 < level)
}

/// Whether values are counted in bins: the bins are in order, none is empty, each value belongs in
/// one of them, where it is at most a thousandth below the greatest, and each bin counts the
/// values that belong in it. Beyond the greatest number of 64 bits nothing is said of the counts.
pub open spec fn counted_in_bins(values: Multiset<u64>, bins: Seq<(u64, u64)>) -> bool {
    &&& forall|i: int, j: int| 0 <= i < j < bins.len() ==> bins[i].0 < bins[j].0
    &&& forall|i: int| 0 <= i < bins.len() ==> (#[trigger] bins[i]).1 > 0
    &&& forall|value: u64| #[trigger]
        values.contains(value) ==> exists|i: int|
            0 <= i < bins.len() && #[trigger] in_bin(bins, i, value)
    &&& forall|value: u64, i: int|
        values.contains(value) && 0 <= i < bins.len() && #[trigger] in_bin(bins, i, value)
            ==> bins[i].0 <= value + value / 1000
    &&& values.len() <= u64::MAX ==> forall|i: int|
        0 <= i < bins.len() ==> (#[trigger] bins[i]).1 == values.filter(
            |value: u64| in_bin(bins, i, value),
        ).len()
}

/// `Histogram::new`: an empty histogram that keeps three significant digits and grows as needed.
#[verifier::external_body]
fn new_statistics() -> (statistics: PingStatistics)
    ensures
        recorded_values(statistics) == Multiset::<u64>::empty(),
{
    PingStatistics { histogram: hdrhistogram::Histogram::new(3).expect("three digits are allowed") }
}

/// `Histogram::record`: records a value. With three significant digits the histogram grows to hold
/// any value, as its bins can be counted in 32 bits.
#[verifier::external_body]
fn record_value(statistics: &mut PingStatistics, value: u64) -> (recorded: bool)
    ensures
        recorded,
        recorded_values(*final(statistics)) == recorded_values(*old(statistics)).insert(value),
{
    statistics.histogram.record(value).is_ok()
}

/// `Histogram::len`: how many values were recorded. It stops counting at the greatest number of 64
/// bits.
#[verifier::external_body]
fn recorded_count(statistics: &PingStatistics) -> (count: u64)
    ensures
        count == (if recorded_values(*statistics).len() <= u64::MAX {
            recorded_values(*statistics).len()
        } else {
            u64::MAX as nat
        }),
{
    statistics.histogram.len()
}

/// `Histogram::iter_recorded`: the bins in which there are values, from the least to the greatest,
/// each with the greatest value that belongs in it and how many were recorded. With three
/// significant digits a bin is narrower than a thousandth of the values in it.
#[verifier::external_body]
fn recorded_bins(statistics: &PingStatistics) -> (bins: Vec<(u64, u64)>)
    ensures
        counted_in_bins(recorded_values(*statistics), bins@),
{
    let bins = statistics.histogram.iter_recorded();
    bins.map(|bin| (bin.value_iterated_to(), bin.count_since_last_iteration())).collect()
}

/// A session, for whoever started it.
pub struct PingSession {
    pub target: Ipv4Addr,
    pub key: PingEntryKey,
    /// How long answers took, once there was one.
    pub stats: Option<PingStatistics>,
}

/// The values that were recorded, none where there is no histogram yet.
pub open spec fn session_values(stats: Option<PingStatistics>) -> Multiset<u64> {
    match stats {
        Some(statistics) => recorded_values(statistics),
        None => Multiset::empty(),
    }
}

/// The nanoseconds of a span, as many as can be recorded.
pub open spec fn recordable(duration: Duration) -> u64 {
    if duration.nanos <= u64::MAX {
        duration.nanos as u64
    } else {
        u64::MAX
    }
}

impl PingSession {
    /// The session with a key.
    pub fn new(key: PingEntryKey) -> (session: Self)
        ensures
            session.key == key,
            session.target == key.0,
            session_values(session.stats) == Multiset::<u64>::empty(),
    {
        PingSession { target: key.0, key, stats: None }
    }

    /// How many answers were timed.
    pub fn timed(&self) -> (count: u64)
        ensures
            session_values(self.stats).len() <= u64::MAX ==> count == session_values(
                self.stats,
            ).len(),
            session_values(self.stats).len() > u64::MAX ==> count == u64::MAX,
    {
        match &self.stats {
            Some(statistics) => recorded_count(statistics),
            None => 0,
        }
    }

    /// How long answers took, as far as three digits tell: each level, from the least to the
    /// greatest, with how many answers reached it.
    pub fn recorded(&self) -> (levels: Vec<(u64, u64)>)
        ensures
            counted_in_bins(session_values(self.stats), levels@),
    {
        match &self.stats {
            Some(statistics) => recorded_bins(statistics),
            None => Vec::new(),
        }
    }

    /// What came of an echo, as it is told. How long an answer took is recorded.
    pub fn map(&mut self, sequence: usize, status: PingResultStatus) -> (result: PingResult)
        ensures
            result == (PingResult { sequence, target: old(self).target, status }),
            final(self).target == old(self).target,
            final(self).key == old(self).key,
            ({
                let before = session_values(old(self).stats);
                let after = session_values(final(self).stats);
                match status {
                    PingResultStatus::Success(Some(duration)) => after == before.insert(
                        recordable(duration),
                    ),
                    _ => after == before,
                }
            }),
    {
        if let PingResultStatus::Success(Some(duration)) = status {
            if self.stats.is_none() {
                self.stats = Some(new_statistics());
            }
            let nanos: u64 = if duration.nanos <= u64::MAX as u128 {
                duration.nanos as u64
            } else {
                u64::MAX
            };
            if let Some(statistics) = &mut self.stats {
                let _recorded = record_value(statistics, nanos);
            }
        }
        PingResult { sequence, target: self.target, status }
    }
}

/// All sessions.
#[derive(Debug)]
pub struct PingManager {
    pub sessions: Vec<PingManagerEntry>,
    /// What is still to be told of the sessions.
    pub events: Vec<PingEvent>,
}

/// What is known of sessions.
pub open spec fn entry_views(sessions: Seq<PingManagerEntry>) -> Seq<EntryView> {
    Seq::new(sessions.len(), |i: int| sessions[i]@)
}

impl View for PingManager {
    type V = PingView;

    open spec fn view(&self) -> PingView {
        PingView { sessions: entry_views(self.sessions@), events: self.events@ }
    }
}

impl PingManager {
    /// No sessions.
    pub fn new() -> (manager: Self)
        ensures
            manager@.wf(),
            manager@.sessions == Seq::<EntryView>::empty(),
            manager@.events == Seq::<PingEvent>::empty(),
    {
        let manager = PingManager { sessions: Vec::new(), events: Vec::new() };
        assert(manager@.sessions =~= Seq::<EntryView>::empty());
        manager
    }

    fn position(&self, key: PingEntryKey) -> (position: Option<usize>)
        requires
            self@.wf(),
        ensures
            match position {
                Some(index) => {
                    &&& index < self@.sessions.len()
                    &&& self@.sessions[index as int].key == key
                    &&& session_at(self@.sessions, key) == Some(index as int)
                },
                None => session_at(self@.sessions, key) is None,
            },
    {
        let mut i: usize = 0;
        while i < self.sessions.len()
            invariant
                i <= self.sessions@.len(),
                self@.wf(),
                forall|j: int| 0 <= j < i ==> (#[trigger] self@.sessions[j]).key != key,
            decreases self.sessions@.len() - i,
        {
            let entry = &self.sessions[i];
            if entry.target == key.0 && entry.identifier == key.1 {
                assert(self@.sessions[i as int].key == key);
                return Some(i);
            }
            assert(self@.sessions[i as int].key != key);
            i = i + 1;
        }
        None
    }

    /// Starts a session with an identifier that no other session with the same target has, unless
    /// all are taken. Which one it is, is left to chance.
    pub fn ping(&mut self, target: Ipv4Addr, count: Option<usize>, interval: Duration) -> (key: Option<
        PingEntryKey,
    >)
        requires
            old(self)@.wf(),
        ensures
            final(self)@.wf(),
            match key {
                Some(key) => {
                    &&& key.0 == target
                    &&& session_at(old(self)@.sessions, key) is None
                    &&& final(self)@ == session_started(old(self)@, key, count, interval)
                },
                None => {
                    &&& forall|identifier: u16|
                        #[trigger] session_at(old(self)@.sessions, PingEntryKey(target, identifier)) is Some
                    &&& *final(self) == *old(self)
                },
            },
    {
        let start: u16 = u16_between(0, u16::MAX);
        let mut identifier: u16 = start;
        let mut tried: u32 = 0;
        while tried < 65536 && self.position(PingEntryKey(target, identifier)).is_some()
            invariant
                self@.wf(),
                *self == *old(self),
                tried <= 65536,
                identifier as int == (start + tried) % 65536,
                forall|other: u16|
                    (other - start) % 65536 < tried ==> #[trigger] session_at(
                        self@.sessions,
                        PingEntryKey(target, other),
                    ) is Some,
            decreases 65536 - tried,
        {
            assert forall|other: u16|
                (other - start) % 65536 < tried + 1 implies #[trigger] session_at(
                self@.sessions,
                PingEntryKey(target, other),
            ) is Some by {
                if (other - start) % 65536 == tried {
                    assert(other == identifier);
                }
            }
            identifier = identifier.wrapping_add(1);
            tried = tried + 1;
        }
        if tried == 65536 {
            return None;
        }
        self.start_session(PingEntryKey(target, identifier), count, interval);
        Some(PingEntryKey(target, identifier))
    }

    /// Starts a session with a key that no other has.
    pub fn start_session(&mut self, key: PingEntryKey, count: Option<usize>, interval: Duration)
        requires
            old(self)@.wf(),
            session_at(old(self)@.sessions, key) is None,
        ensures
            final(self)@.wf(),
            final(self)@ == session_started(old(self)@, key, count, interval),
    {
        let ghost before = self@.sessions;
        let entry = PingManagerEntry {
            target: key.0,
            identifier: key.1,
            count,
            interval,
            sent_count: 0,
            last_sent: None,
            pending: Vec::new(),
            timeout: Duration::from_secs(10),
        };
        self.sessions.push(entry);
        assert(self@.sessions =~= before.push(entry@));
        assert(entry@.pending =~= Seq::<(u16, Instant)>::empty());
        assert forall|i: int, j: int|
            0 <= i < self@.sessions.len() && 0 <= j < self@.sessions.len() && (
            #[trigger] self@.sessions[i]).key == (#[trigger] self@.sessions[j]).key implies i
            == j by {
            if i < before.len() {
                assert(self@.sessions[i] == before[i]);
            }
            if j < before.len() {
                assert(self@.sessions[j] == before[j]);
            }
        }
    }

    /// Whether a key is among some.
    fn is_among(keys: &Vec<PingEntryKey>, key: PingEntryKey) -> (result: bool)
        ensures
            result == keys@.contains(key),
    {
        let mut i: usize = 0;
        while i < keys.len()
            invariant
                i <= keys@.len(),
                forall|j: int| 0 <= j < i ==> keys@[j] != key,
            decreases keys@.len() - i,
        {
            if keys[i] == key {
                assert(keys@[i as int] == key);
                return true;
            }
            i = i + 1;
        }
        false
    }

    /// Whether the timers of a session can be looked at.
    fn session_timers_ok(entry: &PingManagerEntry, mtu: usize, now: Instant) -> (result: bool)
        ensures
            result == entry@.timers_ok(mtu as int, now),
    {
        if let Some(count) = entry.count {
            if entry.sent_count >= count {
                return true;
            }
        }
        let carried: bool = mtu >= 98 || mtu < 84;
        match entry.last_sent {
            None => carried,
            Some(last) => if now.duration_since(last).nanos > entry.interval.nanos {
                carried
            } else {
                entry.interval.nanos <= (u64::MAX - last.nanos) as u128
            },
        }
    }

    /// Whether the timers of the sessions that are not to be stopped can be looked at.
    pub fn can_perform_timers(
        &self,
        sender: &InterfaceContext,
        stops: &Vec<PingEntryKey>,
        clock: EchoMessageDataUnix,
        now: Instant,
    ) -> (result: bool)
        ensures
            result == timers_ok(sender@, self@, stops@, clock, now),
    {
        if clock.since_epoc.nanos > MAX_DURATION_NANOS {
            return false;
        }
        let mut i: usize = 0;
        while i < self.sessions.len()
            invariant
                i <= self.sessions@.len(),
                forall|j: int|
                    0 <= j < i && !stops@.contains((#[trigger] self@.sessions[j]).key)
                        ==> self@.sessions[j].timers_ok(sender@.mtu, now),
            decreases self.sessions@.len() - i,
        {
            let entry = &self.sessions[i];
            assert(self@.sessions[i as int] == entry@);
            if !Self::is_among(stops, PingEntryKey(entry.target, entry.identifier))
                && !Self::session_timers_ok(entry, sender.mtu, now) {
                return false;
            }
            i = i + 1;
        }
        true
    }

    /// Whether an answer is one that somebody waits for.
    pub fn is_awaited(&self, from: Ipv4Addr, message: &EchoMessage) -> (result: bool)
        requires
            self@.wf(),
        ensures
            result == (answered(self@.sessions, from, message@) is Some),
    {
        match self.position(PingEntryKey(from, message.identifier())) {
            Some(index) => Self::pending_position(
                &self.sessions[index].pending,
                message.sequence_number(),
            ).is_some(),
            None => false,
        }
    }

    /// The number of the echo with a sequence number: the one nearest to the number of echoes
    /// sent.
    pub fn unwrap_sequence(sequence: u16, sent: usize) -> (number: usize)
        ensures
            number == unwrapped(sequence, sent),
    {
        let sent_u16: u16 = (sent % 65536) as u16;
        // The distance on the ring of sequence numbers.
        let ahead: u16 = sequence.wrapping_sub(sent_u16);
        assert(ahead == (sequence - sent as int) % 65536) by {
            assert(sent as int == sent as int / 65536 * 65536 + sent as int % 65536);
        }
        if ahead < 32768 {
            sent.wrapping_add(ahead as usize)
        } else {
            sent.wrapping_sub((65536 - ahead as u32) as usize)
        }
    }

    /// Gives up the echoes that were not answered in time.
    fn process_timeouts(entry: &mut PingManagerEntry, now: Instant, events: &mut Vec<PingEvent>)
        ensures
            ({
                let (rest, told) = expire(old(entry)@, now);
                &&& final(entry)@ == rest
                &&& final(events)@ == old(events)@ + told
            }),
    {
        assert(events@ + Seq::<PingEvent>::empty() =~= events@);
        while entry.pending.len() > 0 && now.duration_since(entry.pending[0].1).nanos
            > entry.timeout.nanos
            invariant
                expire(old(entry)@, now).0 == expire(entry@, now).0,
                events@ + expire(entry@, now).1 == old(events)@ + expire(old(entry)@, now).1,
            ensures
                !entry@.expired(now),
            decreases entry.pending@.len(),
        {
            let ghost before = entry@;
            let ghost told = events@;
            let (sequence, _) = entry.pending.remove(0);
            assert(entry.pending@ =~= before.pending.skip(1));
            events.push(
                PingEvent {
                    key: PingEntryKey(entry.target, entry.identifier),
                    sequence: Self::unwrap_sequence(sequence, entry.sent_count),
                    status: PingResultStatus::Timeout,
                },
            );
            assert(events@ + expire(entry@, now).1 =~= told + expire(before, now).1);
        }
        assert(events@ + expire(entry@, now).1 =~= events@);
    }

    /// Looks at the timers of a session. `identification` tells the datagram that is sent, if any,
    /// from others.
    pub fn process_timers_session(
        entry: &mut PingManagerEntry,
        now: Instant,
        sender: &mut InterfaceContext,
        clock: EchoMessageDataUnix,
        identification: u16,
        events: &mut Vec<PingEvent>,
    ) -> (deadline: Option<Instant>)
        requires
            old(sender).wf(),
            now.can_look_ahead(),
            clock.since_epoc.wf(),
            old(entry)@.wf(),
            ({
                let waiting = expire(old(entry)@, now).0;
                waiting.unfinished() ==> if waiting.due(now) {
                    sendable(old(sender)@, waiting.next_outgoing(clock, 0), now)
                } else {
                    waiting.interval_fits()
                }
            }),
        ensures
            final(sender).wf(),
            final(sender).same_setup(*old(sender)),
            ({
                let (after, rest, told, next) = session_processed(
                    old(sender)@,
                    old(entry)@,
                    clock,
                    identification,
                    now,
                );
                &&& final(sender)@ == after
                &&& final(entry)@ == rest
                &&& final(events)@ == old(events)@ + told
                &&& deadline == next
            }),
    {
        proof {
            expire_keeps_rest(entry@, now);
        }
        Self::process_timeouts(entry, now, events);
        let unfinished: bool = match entry.count {
            Some(count) => entry.sent_count < count,
            None => true,
        };
        if !unfinished {
            return None;
        }
        let due: bool = match entry.last_sent {
            Some(last) => now.duration_since(last).nanos > entry.interval.nanos,
            None => true,
        };
        if due {
            // The sequence number is what fits of the number of the echo.
            let sequence: u16 = (entry.sent_count % 65536) as u16;
            let request = ICMPMessage::new_echo_request(entry.identifier, sequence, clock);
            proof {
                echo_wire_length(request@.message, entry.identifier, sequence, clock);
            }
            let result = IPv4Handler::send_identified(
                sender,
                entry.target,
                Ipv4Addr::unspecified(),
                IPProtocolTypes::ICMP,
                &request,
                identification,
                now,
            );
            if result.is_ok() {
                entry.pending.push((sequence, now));
                entry.last_sent = Some(now);
                entry.sent_count = entry.sent_count.wrapping_add(1);
                Some(now.after(entry.timeout))
            } else {
                // It could not be sent when it should have been.
                Some(now)
            }
        } else {
            match entry.last_sent {
                Some(last) => Some(last.after(entry.interval)),
                None => None,
            }
        }
    }

    /// Forgets the sessions that are of no more use.
    pub fn garbage_collect(&mut self)
        requires
            old(self)@.wf(),
        ensures
            final(self)@.wf(),
            final(self)@ == (PingView { sessions: only_live(old(self)@.sessions), ..old(self)@ }),
    {
        let ghost all = self@.sessions;
        let mut kept: Vec<PingManagerEntry> = Vec::new();
        let mut rest: Vec<PingManagerEntry> = Vec::new();
        rest.append(&mut self.sessions);
        let ghost mut taken: int = 0;
        assert(entry_views(kept@) =~= only_live(all.take(0)));
        while rest.len() > 0
            invariant
                0 <= taken <= all.len(),
                entry_views(rest@) == all.skip(taken),
                entry_views(kept@) == only_live(all.take(taken)),
                self.events@ == old(self).events@,
            decreases rest@.len(),
        {
            let ghost left = rest@;
            let ghost had = kept@;
            let entry = rest.remove(0);
            assert(entry_views(left).len() == all.skip(taken).len());
            assert(left.len() == all.len() - taken);
            assert forall|i: int| 0 <= i < rest@.len() implies #[trigger] entry_views(rest@)[i]
                == all.skip(taken + 1)[i] by {
                assert(entry_views(left)[i + 1] == all.skip(taken)[i + 1]);
            }
            assert(entry_views(left)[0] == all.skip(taken)[0]);
            assert(entry_views(rest@) =~= all.skip(taken + 1));
            assert(entry@ == entry_views(left)[0]);
            assert(entry@ == all[taken]);
            assert(all.take(taken + 1).drop_last() =~= all.take(taken));
            let unfinished: bool = match entry.count {
                Some(count) => entry.sent_count < count,
                None => true,
            };
            if unfinished || entry.pending.len() > 0 {
                kept.push(entry);
                assert(entry_views(kept@) =~= entry_views(had).push(entry@));
            }
            proof {
                taken = taken + 1;
            }
        }
        assert(all.take(taken) =~= all) by {
            assert(entry_views(rest@).len() == 0);
        }
        self.sessions = kept;
        proof {
            only_live_keeps(all);
        }
    }

    /// Stops a session.
    fn stop(&mut self, key: PingEntryKey)
        requires
            old(self)@.wf(),
        ensures
            final(self)@.wf(),
            final(self)@ == (PingView {
                sessions: without_key(old(self)@.sessions, key),
                ..old(self)@
            }),
    {
        let ghost all = self@.sessions;
        match self.position(key) {
            Some(index) => {
                let _removed = self.sessions.remove(index);
                assert(self@.sessions =~= all.remove(index as int));
                proof {
                    without_key_removes(all, key, index as int);
                }
            },
            None => {
                proof {
                    without_key_absent(all, key);
                }
            },
        }
        proof {
            without_key_keeps(all, key);
        }
    }

    /// Stops the sessions that are to be stopped, looks at the timers of the others, and forgets
    /// those that are of no more use.
    pub fn perform_timers(
        &mut self,
        sender: &mut InterfaceContext,
        stops: &Vec<PingEntryKey>,
        clock: EchoMessageDataUnix,
        now: Instant,
    ) -> (deadline: Option<Instant>)
        requires
            old(self)@.wf(),
            old(sender).wf(),
            now.can_look_ahead(),
            timers_ok(old(sender)@, old(self)@, stops@, clock, now),
        ensures
            final(self)@.wf(),
            final(sender).wf(),
            final(sender).same_setup(*old(sender)),
            exists|identifications: Seq<u16>|
                identifications_drawn(
                    identifications,
                    without_stopped(old(self)@.sessions, stops@).len(),
                ) && #[trigger] timers_performed(
                    old(sender)@,
                    old(self)@,
                    stops@,
                    clock,
                    identifications,
                    now,
                ) == (final(sender)@, final(self)@, deadline),
    {
        let mut i: usize = 0;
        while i < stops.len()
            invariant
                i <= stops@.len(),
                self@.wf(),
                self@.events == old(self)@.events,
                self@.sessions == without_stopped(old(self)@.sessions, stops@.take(i as int)),
                running_ok(self@.sessions, stops@, old(sender)@.mtu, now),
                forall|j: int, k: int|
                    0 <= j < self@.sessions.len() && 0 <= k < i ==> (
                    #[trigger] self@.sessions[j]).key != #[trigger] stops@[k],
            decreases stops@.len() - i,
        {
            proof {
                without_key_keeps(self@.sessions, stops@[i as int]);
                without_key_is_among(self@.sessions, stops@[i as int]);
                assert(stops@.take(i + 1).drop_last() =~= stops@.take(i as int));
            }
            self.stop(stops[i]);
            i = i + 1;
        }
        assert(stops@.take(i as int) =~= stops@);
        let ghost running = self@.sessions;
        let ghost context = sender@;
        let ghost mut identifications: Seq<u16> = Seq::empty();
        let mut deadline: Option<Instant> = None;
        let mut k: usize = 0;
        assert(running.take(0) =~= Seq::<EntryView>::empty());
        assert(self@.events =~= old(self)@.events + Seq::<PingEvent>::empty());
        while k < self.sessions.len()
            invariant
                k <= self.sessions@.len(),
                sender.wf(),
                sender.same_setup(*old(sender)),
                sender@.mtu == context.mtu,
                now.can_look_ahead(),
                clock.since_epoc.wf(),
                self@.sessions.len() == running.len(),
                keys_unique(running),
                entries_ok(running),
                forall|j: int|
                    0 <= j < running.len() ==> (#[trigger] running[j]).timers_ok(context.mtu, now),
                identifications_drawn(identifications, k as nat),
                ({
                    let (after, done, told, next) = all_processed(
                        context,
                        running.take(k as int),
                        clock,
                        identifications,
                        now,
                    );
                    &&& sender@ == after
                    &&& done.len() == k
                    &&& self@.sessions == done + running.skip(k as int)
                    &&& self@.events == old(self)@.events + told
                    &&& deadline == next
                }),
            decreases self.sessions@.len() - k,
        {
            let identification: u16 = u16_between(0, u16::MAX - 1);
            let ghost (_, done, told, next) = all_processed(
                context,
                running.take(k as int),
                clock,
                identifications,
                now,
            );
            let ghost before = self@;
            let ghost entry = running[k as int];
            assert(self@.sessions[k as int] == entry);
            proof {
                expire_keeps_rest(entry, now);
                let waiting = expire(entry, now).0;
                if echo_carried(context.mtu) {
                    echo_is_sendable(sender@, waiting, clock, now);
                }
                outgoing_keeps_setup(
                    sender@,
                    waiting.next_outgoing(clock, identification),
                    now,
                );
            }
            let reached = Self::process_timers_session(
                &mut self.sessions[k],
                now,
                sender,
                clock,
                identification,
                &mut self.events,
            );
            deadline = earlier_of(deadline, reached);
            proof {
                let more = identifications.push(identification);
                assert(more.drop_last() =~= identifications);
                assert(running.take(k + 1).drop_last() =~= running.take(k as int));
                let (after, all_done, all_told, all_next) = all_processed(
                    context,
                    running.take(k + 1),
                    clock,
                    more,
                    now,
                );
                assert forall|j: int| 0 <= j < running.len() implies #[trigger] self@.sessions[j]
                    == (all_done + running.skip(k + 1))[j] by {
                    if j != k {
                        assert(self@.sessions[j] == before.sessions[j]);
                        assert(before.sessions[j] == (done + running.skip(k as int))[j]);
                    }
                }
                assert(self@.sessions =~= all_done + running.skip(k + 1));
                assert(self@.events =~= old(self)@.events + all_told);
                identifications = more;
            }
            k = k + 1;
        }
        proof {
            assert(running.take(k as int) =~= running);
            let (after, done, told, next) = all_processed(
                context,
                running,
                clock,
                identifications,
                now,
            );
            assert(self@.sessions =~= done);
            all_processed_keeps(context, running, clock, identifications, now);
        }
        self.garbage_collect();
        assert(timers_performed(
            old(sender)@,
            old(self)@,
            stops@,
            clock,
            identifications,
            now,
        ) == (sender@, self@, deadline));
        deadline
    }

    /// Takes the answer to an echo.
    pub fn on_echo_reply(
        &mut self,
        from: Ipv4Addr,
        message: &EchoMessage,
        clock: EchoMessageDataUnix,
    )
        requires
            old(self)@.wf(),
            answered(old(self)@.sessions, from, message@) is Some ==> (
            message@.data matches EchoDataView::Bytes(bytes) ==> unix_data_in_range(bytes)),
        ensures
            final(self)@.wf(),
            final(self)@ == reply_taken(old(self)@, from, message@, clock),
    {
        let ghost before = self@;
        let sequence: u16 = message.sequence_number();
        if let Some(index) = self.position(PingEntryKey(from, message.identifier())) {
            let found = Self::pending_position(&self.sessions[index].pending, sequence);
            if let Some(pending) = found {
                let ghost entry = self@.sessions[index as int];
                let _removed = self.sessions[index].pending.remove(pending);
                assert(self@.sessions =~= before.sessions.update(
                    index as int,
                    EntryView { pending: entry.pending.remove(pending as int), ..entry },
                ));
                let data: Option<EchoMessageDataUnix> = match message.parse_unix_data() {
                    Ok(data) => Some(data),
                    Err(_) => None,
                };
                let duration = Self::elapsed(data, clock);
                let key = PingEntryKey(self.sessions[index].target, self.sessions[index].identifier);
                self.events.push(
                    PingEvent {
                        key,
                        sequence: Self::unwrap_sequence(sequence, self.sessions[index].sent_count),
                        status: PingResultStatus::Success(duration),
                    },
                );
                assert(keys_unique(self@.sessions)) by {
                    assert forall|i: int, j: int|
                        0 <= i < self@.sessions.len() && 0 <= j < self@.sessions.len() && (
                        #[trigger] self@.sessions[i]).key == (
                        #[trigger] self@.sessions[j]).key implies i == j by {
                        assert(before.sessions[i].key == before.sessions[j].key);
                    }
                }
                assert(entries_ok(self@.sessions)) by {
                    assert(before.sessions[index as int].wf());
                }
            }
        }
        self.garbage_collect();
    }

    /// How long an answer took, from the clock readings that it carries back.
    fn elapsed(data: Option<EchoMessageDataUnix>, clock: EchoMessageDataUnix) -> (duration: Option<
        Duration,
    >)
        ensures
            duration == round_trip_time(data, clock),
    {
        match data {
            Some(data) => match data.monotonic_instant {
                Some(sent) => {
                    if let Some(read) = clock.monotonic_instant {
                        if read.nanos >= sent.nanos {
                            return Some(Duration { nanos: read.nanos - sent.nanos });
                        }
                    }
                    if clock.since_epoc.nanos >= data.since_epoc.nanos {
                        Some(Duration { nanos: clock.since_epoc.nanos - data.since_epoc.nanos })
                    } else {
                        None
                    }
                },
                None => None,
            },
            None => None,
        }
    }

    /// The position of the oldest echo with a sequence number.
    fn pending_position(pending: &Vec<(u16, Instant)>, sequence: u16) -> (position: Option<usize>)
        ensures
            match position {
                Some(index) => index < pending@.len() && pending_at(pending@, sequence) == Some(
                    index as int,
                ),
                None => pending_at(pending@, sequence) is None,
            },
    {
        let mut i: usize = 0;
        while i < pending.len()
            invariant
                i <= pending@.len(),
                forall|j: int| 0 <= j < i ==> (#[trigger] pending@[j]).0 != sequence,
            decreases pending@.len() - i,
        {
            if pending[i].0 == sequence {
                assert(first_pending(pending@, sequence, i as int));
                proof {
                    let found = choose|j: int| #[trigger] first_pending(pending@, sequence, j);
                    assert(first_pending(pending@, sequence, found));
                    assert(found == i);
                }
                return Some(i);
            }
            i = i + 1;
        }
        None
    }

    /// Takes the loss of an echo.
    pub fn on_async_send_error(&mut self, message: &AsyncSendError)
        requires
            old(self)@.wf(),
        ensures
            final(self)@.wf(),
            final(self)@ == loss_taken(old(self)@, message@),
    {
        let ghost before = self@;
        let (destination, datagram, text) = match message {
            AsyncSendError::LocalSendError { error, ipv4header, datagram } => (
                ipv4header.destination_address(),
                datagram,
                match *error {
                    SendError::ArpTimeout => "ARP Timeout",
                    _ => "Send Error",
                },
            ),
            AsyncSendError::ICMPUnreachable(unreachable) => (
                unreachable.ipv4header.destination_address(),
                &unreachable.datagram,
                match unreachable.code {
                    DestinationUnreachableCode::NetUnreachable => "network unreachable",
                    DestinationUnreachableCode::HostUnreachable => "host unreachable",
                    DestinationUnreachableCode::ProtocolUnreachable => "protocol unreachable",
                    DestinationUnreachableCode::PortUnreachable => "port unreachable",
                    DestinationUnreachableCode::FragmentationNeededAndDoNotFragmentSet =>
                        "fragment need and do not fragment set",
                    DestinationUnreachableCode::SourceRouteFailed => "source route failed",
                },
            ),
        };
        if datagram[0] != 8 || datagram[1] != 0 {
            return ;
        }
        let identifier: u16 = datagram[4] as u16 * 256 + datagram[5] as u16;
        let sequence: u16 = datagram[6] as u16 * 256 + datagram[7] as u16;
        if let Some(index) = self.position(PingEntryKey(destination, identifier)) {
            let ghost entry = self@.sessions[index as int];
            let found = Self::pending_position(&self.sessions[index].pending, sequence);
            if let Some(pending) = found {
                let _removed = self.sessions[index].pending.remove(pending);
                assert(self@.sessions =~= before.sessions.update(
                    index as int,
                    EntryView { pending: entry.pending.remove(pending as int), ..entry },
                ));
            }
            let key = PingEntryKey(self.sessions[index].target, self.sessions[index].identifier);
            self.events.push(
                PingEvent {
                    key,
                    sequence: Self::unwrap_sequence(sequence, self.sessions[index].sent_count),
                    status: PingResultStatus::Unreachable(text),
                },
            );
            assert(keys_unique(self@.sessions)) by {
                assert forall|i: int, j: int|
                    0 <= i < self@.sessions.len() && 0 <= j < self@.sessions.len() && (
                    #[trigger] self@.sessions[i]).key == (#[trigger] self@.sessions[j]).key implies i
                    == j by {
                    assert(before.sessions[i].key == before.sessions[j].key);
                }
            }
            assert(entries_ok(self@.sessions)) by {
                assert(before.sessions[index as int].wf());
            }
        }
    }
}

/// Giving up echoes touches nothing else of a session.
proof fn expire_keeps_rest(entry: EntryView, now: Instant)
    ensures
        ({
            let rest = expire(entry, now).0;
            &&& rest == EntryView { pending: rest.pending, ..entry }
        }),
    decreases entry.pending.len(),
{
    if entry.expired(now) {
        expire_keeps_rest(entry.without_oldest(), now);
    }
}

/// An echo that fits in a frame, or is too long for the interface, can be sent whatever is known
/// of the next hop.
proof fn echo_is_sendable(
    context: ContextView,
    entry: EntryView,
    clock: EchoMessageDataUnix,
    now: Instant,
)
    requires
        echo_carried(context.mtu),
        clock.since_epoc.wf(),
    ensures
        sendable(context, entry.next_outgoing(clock, 0), now),
{
    echo_wire_length(
        entry.next_echo(clock),
        entry.key.1,
        (entry.sent_count % 65536) as u16,
        clock,
    );
}

/// Sending leaves the size of frames as it is.
proof fn outgoing_keeps_setup(context: ContextView, datagram: Outgoing, now: Instant)
    ensures
        outgoing_sent(context, datagram, now).0.mtu == context.mtu,
{
}

proof fn only_live_keeps(sessions: Seq<EntryView>)
    ensures
        keys_unique(sessions) ==> keys_unique(only_live(sessions)),
        entries_ok(sessions) ==> entries_ok(only_live(sessions)),
        forall|i: int|
            0 <= i < only_live(sessions).len() ==> sessions.contains(
                #[trigger] only_live(sessions)[i],
            ),
    decreases sessions.len(),
{
    if sessions.len() > 0 {
        let front = sessions.drop_last();
        only_live_keeps(front);
        let rest = only_live(front);
        let all = only_live(sessions);
        assert forall|i: int| 0 <= i < all.len() implies sessions.contains(#[trigger] all[i]) by {
            if i < rest.len() {
                assert(front.contains(rest[i]));
                let j = choose|j: int| 0 <= j < front.len() && front[j] == rest[i];
                assert(sessions[j] == all[i]);
            } else {
                assert(sessions[sessions.len() - 1] == all[i]);
            }
        }
        if keys_unique(sessions) {
            assert(keys_unique(front)) by {
                assert forall|i: int, j: int|
                    0 <= i < front.len() && 0 <= j < front.len() && (#[trigger] front[i]).key == (
                    #[trigger] front[j]).key implies i == j by {
                    assert(sessions[i].key == sessions[j].key);
                }
            }
            assert forall|i: int, j: int|
                0 <= i < all.len() && 0 <= j < all.len() && (#[trigger] all[i]).key == (
                #[trigger] all[j]).key implies i == j by {
                if i < rest.len() && j < rest.len() {
                    assert(rest[i].key == rest[j].key);
                } else if i < rest.len() {
                    assert(front.contains(rest[i]));
                    let k = choose|k: int| 0 <= k < front.len() && front[k] == rest[i];
                    assert(sessions[k].key == sessions[sessions.len() - 1].key);
                } else if j < rest.len() {
                    assert(front.contains(rest[j]));
                    let k = choose|k: int| 0 <= k < front.len() && front[k] == rest[j];
                    assert(sessions[k].key == sessions[sessions.len() - 1].key);
                }
            }
        }
        if entries_ok(sessions) {
            assert(entries_ok(front)) by {
                assert forall|i: int| 0 <= i < front.len() implies (#[trigger] front[i]).wf() by {
                    assert(sessions[i].wf());
                }
            }
            assert forall|i: int| 0 <= i < all.len() implies (#[trigger] all[i]).wf() by {
                if i < rest.len() {
                    assert(rest[i].wf());
                } else {
                    assert(sessions[sessions.len() - 1].wf());
                }
            }
        }
    }
}

proof fn without_key_absent(sessions: Seq<EntryView>, key: PingEntryKey)
    requires
        forall|i: int| 0 <= i < sessions.len() ==> (#[trigger] sessions[i]).key != key,
    ensures
        without_key(sessions, key) == sessions,
    decreases sessions.len(),
{
    if sessions.len() > 0 {
        let front = sessions.drop_last();
        assert forall|i: int| 0 <= i < front.len() implies (#[trigger] front[i]).key != key by {
            assert(sessions[i].key != key);
        }
        without_key_absent(front, key);
        assert(without_key(sessions, key) =~= sessions);
    } else {
        assert(without_key(sessions, key) =~= sessions);
    }
}

proof fn without_key_removes(sessions: Seq<EntryView>, key: PingEntryKey, index: int)
    requires
        keys_unique(sessions),
        0 <= index < sessions.len(),
        sessions[index].key == key,
    ensures
        without_key(sessions, key) == sessions.remove(index),
    decreases sessions.len(),
{
    let front = sessions.drop_last();
    let last = sessions.len() - 1;
    if index == last {
        assert forall|i: int| 0 <= i < front.len() implies (#[trigger] front[i]).key != key by {
            if sessions[i].key == key {
                assert(sessions[i].key == sessions[index].key);
            }
        }
        without_key_absent(front, key);
        assert(without_key(sessions, key) =~= sessions.remove(index));
    } else {
        assert(keys_unique(front)) by {
            assert forall|i: int, j: int|
                0 <= i < front.len() && 0 <= j < front.len() && (#[trigger] front[i]).key == (
                #[trigger] front[j]).key implies i == j by {
                assert(sessions[i].key == sessions[j].key);
            }
        }
        assert(front[index].key == key);
        without_key_removes(front, key, index);
        if sessions[last].key == key {
            assert(sessions[last].key == sessions[index].key);
        }
        assert(without_key(sessions, key) =~= sessions.remove(index));
    }
}

proof fn without_key_keeps(sessions: Seq<EntryView>, key: PingEntryKey)
    requires
        keys_unique(sessions),
    ensures
        keys_unique(without_key(sessions, key)),
        entries_ok(sessions) ==> entries_ok(without_key(sessions, key)),
{
    let rest = without_key(sessions, key);
    if exists|i: int| 0 <= i < sessions.len() && (#[trigger] sessions[i]).key == key {
        let index = choose|i: int| 0 <= i < sessions.len() && (#[trigger] sessions[i]).key == key;
        without_key_removes(sessions, key, index);
        assert forall|i: int| 0 <= i < rest.len() implies #[trigger] rest[i] == sessions[if i
            < index {
            i
        } else {
            i + 1
        }] by {}
        assert(keys_unique(rest)) by {
            assert forall|i: int, j: int|
                0 <= i < rest.len() && 0 <= j < rest.len() && (#[trigger] rest[i]).key == (
                #[trigger] rest[j]).key implies i == j by {
                let a = if i < index {
                    i
                } else {
                    i + 1
                };
                let b = if j < index {
                    j
                } else {
                    j + 1
                };
                assert(sessions[a].key == sessions[b].key);
            }
        }
    } else {
        without_key_absent(sessions, key);
    }
}

/// What is left without a key are sessions of before that have another one.
proof fn without_key_is_among(sessions: Seq<EntryView>, key: PingEntryKey)
    ensures
        forall|i: int|
            0 <= i < without_key(sessions, key).len() ==> {
                let left = #[trigger] without_key(sessions, key)[i];
                left.key != key && sessions.contains(left)
            },
    decreases sessions.len(),
{
    if sessions.len() > 0 {
        let front = sessions.drop_last();
        let rest = without_key(front, key);
        without_key_is_among(front, key);
        assert forall|i: int| 0 <= i < without_key(sessions, key).len() implies {
            let left = #[trigger] without_key(sessions, key)[i];
            left.key != key && sessions.contains(left)
        } by {
            if i < rest.len() {
                assert(front.contains(rest[i]));
                let j = choose|j: int| 0 <= j < front.len() && front[j] == rest[i];
                assert(sessions[j] == rest[i]);
            } else {
                assert(sessions[sessions.len() - 1] == sessions.last());
            }
        }
    }
}

proof fn all_processed_keeps(
    context: ContextView,
    sessions: Seq<EntryView>,
    clock: EchoMessageDataUnix,
    identifications: Seq<u16>,
    now: Instant,
)
    ensures
        ({
            let done = all_processed(context, sessions, clock, identifications, now).1;
            &&& done.len() == sessions.len()
            &&& forall|i: int|
                0 <= i < done.len() ==> (#[trigger] done[i]).key == sessions[i].key
                    && done[i].timeout == sessions[i].timeout
            &&& keys_unique(sessions) ==> keys_unique(done)
            &&& entries_ok(sessions) ==> entries_ok(done)
        }),
    decreases sessions.len(),
{
    let done = all_processed(context, sessions, clock, identifications, now).1;
    if sessions.len() > 0 {
        let front = sessions.drop_last();
        all_processed_keeps(context, front, clock, identifications.drop_last(), now);
        expire_keeps_rest(sessions.last(), now);
        assert forall|i: int| 0 <= i < done.len() implies (#[trigger] done[i]).key
            == sessions[i].key && done[i].timeout == sessions[i].timeout by {
            if i < front.len() {
                let before = all_processed(
                    context,
                    front,
                    clock,
                    identifications.drop_last(),
                    now,
                ).1;
                assert(before[i].key == front[i].key);
            }
        }
    }
    if keys_unique(sessions) {
        assert forall|i: int, j: int|
            0 <= i < done.len() && 0 <= j < done.len() && (#[trigger] done[i]).key == (
            #[trigger] done[j]).key implies i == j by {
            assert(sessions[i].key == sessions[j].key);
        }
    }
    if entries_ok(sessions) {
        assert forall|i: int| 0 <= i < done.len() implies (#[trigger] done[i]).wf() by {
            assert(sessions[i].wf());
        }
    }
}

/// The number of an echo differs from its sequence number by a multiple of the number of sequence
/// numbers, and is no farther from the number of echoes sent than half of that: as long as the
/// numbers do not run out.
pub proof fn unwrapped_is_nearest(sequence: u16, sent: usize)
    requires
        0 <= sent + sequence_distance(sequence, sent) <= usize::MAX,
    ensures
        unwrapped(sequence, sent) as int % 65536 == sequence,
        -32768 <= unwrapped(sequence, sent) - sent < 32768,
{
    let ahead = (sequence - sent as int) % 65536;
    assert((sent + ahead) % 65536 == sequence as int) by {
        let q = (sequence - sent as int) / 65536;
        assert(sequence - sent == 65536 * q + ahead);
    }
    assert((sent + ahead - 65536) % 65536 == (sent + ahead) % 65536);
}

/// The echo that a session sends next is told from the ones before it: reading its sequence number
/// gives its number back when it is answered before half of the sequence numbers are used up.
pub proof fn answered_sequence_is_found(number: usize, sent: usize)
    requires
        number <= sent <= number + 32768,
    ensures
        unwrapped((number % 65536) as u16, sent) == number,
{
    let sequence = (number % 65536) as u16;
    let behind = sent - number;
    let ahead = (sequence - sent as int) % 65536;
    assert(number as int == 65536 * (number as int / 65536) + sequence);
    assert(ahead == (-behind) % 65536) by {
        assert(sequence - sent == -behind + 65536 * (-(number as int / 65536)));
        vstd::arithmetic::div_mod::lemma_mod_multiples_vanish(
            -(number as int / 65536),
            -behind,
            65536,
        );
    }
    if behind == 0 {
        assert(ahead == 0);
    } else {
        assert((-behind) % 65536 == 65536 - behind);
    }
}

/// A session sends no more echoes than it was asked for.
pub proof fn echo_count_is_kept(
    context: ContextView,
    entry: EntryView,
    clock: EchoMessageDataUnix,
    identification: u16,
    now: Instant,
    count: usize,
)
    requires
        entry.count == Some(count),
        entry.sent_count <= count,
    ensures
        session_processed(context, entry, clock, identification, now).1.sent_count <= count,
        session_processed(context, entry, clock, identification, now).1.count == Some(count),
{
    expire_keeps_rest(entry, now);
}

/// Each echo that is given up is told of once: what is told and what can still be answered make up
/// what was pending, and the oldest that is left can still be answered.
pub proof fn expired_echoes_are_told(entry: EntryView, now: Instant)
    ensures
        ({
            let (rest, told) = expire(entry, now);
            &&& told.len() + rest.pending.len() == entry.pending.len()
            &&& rest.pending == entry.pending.skip(told.len() as int)
            &&& !rest.expired(now)
            &&& forall|i: int|
                0 <= i < told.len() ==> (#[trigger] told[i]).status is Timeout && told[i].key
                    == entry.key
        }),
    decreases entry.pending.len(),
{
    let (rest, told) = expire(entry, now);
    if entry.expired(now) {
        let shorter = entry.without_oldest();
        expired_echoes_are_told(shorter, now);
        let (_, later) = expire(shorter, now);
        assert(rest.pending =~= entry.pending.skip(told.len() as int));
        assert forall|i: int| 0 <= i < told.len() implies (#[trigger] told[i]).status is Timeout
            && told[i].key == entry.key by {
            if i > 0 {
                assert(told[i] == later[i - 1]);
            }
        }
    } else {
        assert(rest.pending =~= entry.pending.skip(0));
    }
}

/// An answer is told of once, and the echo that it answers is not pending any more.
pub proof fn answer_is_told_once(
    ping: PingView,
    from: Ipv4Addr,
    echo: EchoView,
    clock: EchoMessageDataUnix,
)
    requires
        ping.wf(),
    ensures
        ({
            let after = reply_taken(ping, from, echo, clock);
            match answered(ping.sessions, from, echo) {
                Some((session, pending)) => {
                    &&& after.events.len() == ping.events.len() + 1
                    &&& after.events.take(ping.events.len() as int) == ping.events
                    &&& after.events.last().key == PingEntryKey(from, echo.identifier)
                    &&& after.events.last().status is Success
                },
                None => after.events == ping.events,
            }
        }),
{
    let after = reply_taken(ping, from, echo, clock);
    if let Some((session, pending)) = answered(ping.sessions, from, echo) {
        assert(after.events.take(ping.events.len() as int) =~= ping.events);
    }
}

} // verus!
