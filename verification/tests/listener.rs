use opuza_monero_client::{
    ListenerAction, ListenerEvent, ListenerState, PollPolicy, TransactionListener,
};

#[test]
fn standard_policy_times() {
    let policy = PollPolicy::standard();
    assert_eq!(policy.interval_secs, 2);
    assert_eq!(policy.backoff_secs, 10);
    assert_eq!(policy.safety_margin, 10);
}

#[test]
fn a_round_that_succeeds() {
    let mut listener = TransactionListener::new(PollPolicy::standard());
    assert_eq!(listener.current_state(), ListenerState::Resting);
    assert_eq!(listener.pending(), ListenerAction::Sleep(2));
    assert_eq!(listener.on_event(ListenerEvent::Woke), ListenerAction::Ping);
    assert_eq!(
        listener.on_event(ListenerEvent::PingSucceeded),
        ListenerAction::Scan
    );
    assert_eq!(
        listener.on_event(ListenerEvent::ScanSucceeded),
        ListenerAction::Sleep(2)
    );
    assert_eq!(listener.current_state(), ListenerState::Resting);
}

#[test]
fn unreachable_backend_backs_off_and_retries() {
    let mut listener = TransactionListener::new(PollPolicy::standard());
    for _ in 0..3 {
        assert_eq!(listener.on_event(ListenerEvent::Woke), ListenerAction::Ping);
        assert_eq!(
            listener.on_event(ListenerEvent::PingFailed),
            ListenerAction::Sleep(10)
        );
        assert_eq!(listener.current_state(), ListenerState::BackingOff);
        assert_eq!(
            listener.on_event(ListenerEvent::Woke),
            ListenerAction::Sleep(2)
        );
        assert_eq!(listener.current_state(), ListenerState::Resting);
    }
    assert_eq!(listener.on_event(ListenerEvent::Woke), ListenerAction::Ping);
    assert_eq!(
        listener.on_event(ListenerEvent::PingSucceeded),
        ListenerAction::Scan
    );
}

#[test]
fn failed_scan_backs_off_and_goes_on() {
    let mut listener = TransactionListener::new(PollPolicy::standard());
    listener.on_event(ListenerEvent::Woke);
    listener.on_event(ListenerEvent::PingSucceeded);
    assert_eq!(
        listener.on_event(ListenerEvent::ScanFailed),
        ListenerAction::Sleep(10)
    );
    assert_eq!(
        listener.on_event(ListenerEvent::Woke),
        ListenerAction::Sleep(2)
    );
    assert_eq!(listener.on_event(ListenerEvent::Woke), ListenerAction::Ping);
}

#[test]
fn policy_times_are_used() {
    let policy = PollPolicy {
        interval_secs: 7,
        backoff_secs: 31,
        safety_margin: 3,
    };
    let mut listener = TransactionListener::new(policy);
    assert_eq!(listener.safety_margin(), 3);
    assert_eq!(listener.pending(), ListenerAction::Sleep(7));
    listener.on_event(ListenerEvent::Woke);
    assert_eq!(
        listener.on_event(ListenerEvent::PingFailed),
        ListenerAction::Sleep(31)
    );
}

#[test]
fn every_event_in_every_state_gives_an_action() {
    let events = [
        ListenerEvent::Woke,
        ListenerEvent::PingSucceeded,
        ListenerEvent::PingFailed,
        ListenerEvent::ScanSucceeded,
        ListenerEvent::ScanFailed,
    ];
    let prefixes: [&[ListenerEvent]; 4] = [
        &[],
        &[ListenerEvent::Woke],
        &[ListenerEvent::Woke, ListenerEvent::PingSucceeded],
        &[ListenerEvent::Woke, ListenerEvent::PingFailed],
    ];
    let states = [
        ListenerState::Resting,
        ListenerState::Pinging,
        ListenerState::Scanning,
        ListenerState::BackingOff,
    ];
    for (prefix, state) in prefixes.iter().zip(states.iter()) {
        for event in events {
            let mut listener = TransactionListener::new(PollPolicy::standard());
            for earlier in prefix.iter() {
                listener.on_event(*earlier);
            }
            assert_eq!(listener.current_state(), *state);
            let action = listener.on_event(event);
            assert_eq!(action, listener.pending());
            let expected = match (state, event) {
                (ListenerState::Resting, ListenerEvent::Woke) => ListenerState::Pinging,
                (ListenerState::Pinging, ListenerEvent::PingSucceeded) => ListenerState::Scanning,
                (ListenerState::Pinging, ListenerEvent::PingFailed) => ListenerState::BackingOff,
                (ListenerState::Scanning, ListenerEvent::ScanFailed) => ListenerState::BackingOff,
                _ => ListenerState::Resting,
            };
            assert_eq!(listener.current_state(), expected);
        }
    }
}
