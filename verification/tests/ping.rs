use narth_net::net::Ipv4Addr;
use narth_net::protocols::ipv4::icmp::{EchoMessage, EchoMessageData, EchoMessageDataUnix};
use narth_net::runtime::interface::l4_managers::ping::{
    PingEntryKey, PingManager, PingResult, PingResultStatus, PingSession,
};
use narth_net::time::{Duration, Instant};

#[test]
fn test_exact_sequence_match() {
    assert_eq!(PingManager::unwrap_sequence(0, 0), 0);
    assert_eq!(PingManager::unwrap_sequence(500, 500), 500);
    assert_eq!(PingManager::unwrap_sequence(65535, 65535), 65535);

    // Exact match but sent has wrapped exactly once (1 epoch in)
    assert_eq!(PingManager::unwrap_sequence(0, 65536), 65536);
}

#[test]
fn test_sequence_behind_no_wrap() {
    // Sequence is lagging slightly behind sent
    assert_eq!(PingManager::unwrap_sequence(10, 15), 10);
    assert_eq!(PingManager::unwrap_sequence(65520, 65530), 65520);

    // High epoch: Sent is 131080 (2 * 65536 + 8), sequence is 2
    assert_eq!(PingManager::unwrap_sequence(2, 131_080), 131_074);
}

#[test]
fn test_sequence_ahead_no_wrap() {
    // Sequence is slightly ahead of sent (e.g. tracking missed messages)
    assert_eq!(PingManager::unwrap_sequence(15, 10), 15);
    assert_eq!(PingManager::unwrap_sequence(65530, 65520), 65530);

    // High epoch: Sent is 131074, sequence is 8
    assert_eq!(PingManager::unwrap_sequence(8, 131_074), 131_080);
}

#[test]
fn test_sequence_behind_with_wrap() {
    // Sent has just rolled over the u16 boundary to 65536 (u16 == 0)
    // Sequence is lagging behind, still at the end of the previous epoch
    assert_eq!(PingManager::unwrap_sequence(65530, 65536), 65530);

    // Sent is at 65540 (u16 == 4), sequence is lagging at 65530
    // Expected logical value is 65530
    assert_eq!(PingManager::unwrap_sequence(65530, 65540), 65530);

    // High epoch: Sent wrapped 100 times (6,553,600) + 5
    let sent = (65536 * 100) + 5;
    // Sequence is lagging by 10, so it's on the previous u16 boundary
    assert_eq!(PingManager::unwrap_sequence(65531, sent), sent - 10);
}

#[test]
fn test_sequence_ahead_with_wrap() {
    // Sent is near the boundary at 65530
    // Sequence has rolled over the boundary to 5
    // Expected value is 65536 + 5 = 65541
    assert_eq!(PingManager::unwrap_sequence(5, 65530), 65541);

    // High epoch: Sent wrapped 100 times minus 5
    let sent = (65536 * 100) - 5;
    // Sequence is ahead by 10, rolling over the boundary
    assert_eq!(PingManager::unwrap_sequence(5, sent), sent + 10);
}

#[test]
fn sequence_numbers_wrap_at_the_ends_of_the_counter() {
    assert_eq!(PingManager::unwrap_sequence(65535, 0), usize::MAX);
    assert_eq!(PingManager::unwrap_sequence(0, usize::MAX), 0);
}

fn clock(monotonic: Option<u64>) -> EchoMessageDataUnix {
    EchoMessageDataUnix {
        since_epoc: Duration::from_secs(1_700_000_000),
        monotonic_instant: monotonic.map(Duration::from_nanos),
    }
}

fn echo(identifier: u16, sequence_number: u16, data: EchoMessageDataUnix) -> EchoMessage {
    EchoMessage { identifier, sequence_number, data: EchoMessageData::UnixLike(data) }
}

fn pending_manager(target: Ipv4Addr) -> (PingManager, PingEntryKey) {
    let mut manager = PingManager::new();
    let key = manager.ping(target, Some(1), Duration::from_secs(1)).expect("an identifier");
    assert_eq!(key.0, target);
    manager.sessions[0].pending.push((0, Instant { nanos: 5 }));
    manager.sessions[0].sent_count = 1;
    (manager, key)
}

#[test]
fn an_answer_is_timed_and_ends_its_session() {
    let target = Ipv4Addr::new(10, 0, 0, 9);
    let (mut manager, key) = pending_manager(target);
    let message = echo(key.1, 0, clock(Some(1_000)));
    manager.on_echo_reply(target, &message, clock(Some(4_500)));
    assert_eq!(manager.events.len(), 1);
    assert_eq!(manager.events[0].key, key);
    assert_eq!(manager.events[0].sequence, 0);
    assert_eq!(
        manager.events[0].status,
        PingResultStatus::Success(Some(Duration::from_nanos(3_500)))
    );
    // All echoes were sent and answered.
    assert!(manager.sessions.is_empty());
}

#[test]
fn an_answer_from_the_future_is_timed_by_the_epoch() {
    let target = Ipv4Addr::new(10, 0, 0, 9);
    let (mut manager, key) = pending_manager(target);
    let mut sent = clock(Some(9_000));
    sent.since_epoc = Duration::from_secs(1_699_999_998);
    manager.on_echo_reply(target, &echo(key.1, 0, sent), clock(Some(4_500)));
    assert_eq!(
        manager.events[0].status,
        PingResultStatus::Success(Some(Duration::from_secs(2)))
    );
}

#[test]
fn an_answer_to_nothing_is_passed_over() {
    let target = Ipv4Addr::new(10, 0, 0, 9);
    let (mut manager, key) = pending_manager(target);
    manager.on_echo_reply(target, &echo(key.1, 7, clock(None)), clock(None));
    manager.on_echo_reply(
        Ipv4Addr::new(10, 0, 0, 10),
        &echo(key.1, 0, clock(None)),
        clock(None),
    );
    assert!(manager.events.is_empty());
    assert_eq!(manager.sessions.len(), 1);
}

#[test]
fn sessions_with_one_target_have_different_identifiers() {
    let target = Ipv4Addr::new(10, 0, 0, 9);
    let mut manager = PingManager::new();
    let mut keys = Vec::new();
    for _ in 0..40 {
        let key = manager.ping(target, None, Duration::from_secs(1)).expect("an identifier");
        assert!(!keys.contains(&key));
        keys.push(key);
    }
    assert_eq!(manager.sessions.len(), 40);
}

#[test]
fn a_session_records_how_long_answers_took() {
    let key = PingEntryKey(Ipv4Addr::new(10, 0, 0, 9), 77);
    let mut session = PingSession::new(key);
    assert!(session.stats.is_none());
    let timeout = session.map(3, PingResultStatus::Timeout);
    assert_eq!(
        timeout,
        PingResult { sequence: 3, target: key.0, status: PingResultStatus::Timeout }
    );
    assert!(session.stats.is_none());
    session.map(4, PingResultStatus::Success(Some(Duration::from_nanos(1_000))));
    session.map(5, PingResultStatus::Success(Some(Duration::from_nanos(3_000))));
    session.map(6, PingResultStatus::Success(None));
    assert_eq!(session.timed(), 2);
}

#[test]
fn what_a_session_recorded_can_be_read() {
    let mut session = PingSession::new(PingEntryKey(Ipv4Addr::new(10, 0, 0, 9), 77));
    assert_eq!(session.recorded(), []);
    for nanos in [1_000_000, 0, 2_047, 1_000_300, 2_047, u64::MAX] {
        session.map(1, PingResultStatus::Success(Some(Duration::from_nanos(nanos))));
    }
    let levels = [(0, 1), (2_047, 2), (1_000_447, 2), (u64::MAX - 1, 1)];
    assert_eq!(session.recorded(), levels);
}
