use hr_monitor::supervisor::{
    ConnectionSupervisor, SupervisorAction, SupervisorEvent, SupervisorState,
};

#[test]
fn fresh_supervisor_wants_a_subscription() {
    let sup = ConnectionSupervisor::new(5);
    assert_eq!(sup.state, SupervisorState::Connecting);
    assert_eq!(sup.retries, 0);
    assert_eq!(sup.action(), SupervisorAction::Subscribe);
}

#[test]
fn happy_path_reaches_active() {
    let mut sup = ConnectionSupervisor::new(5);
    let action = sup.step(SupervisorEvent::SubscriptionEstablished);
    assert_eq!(sup.state, SupervisorState::Active);
    assert_eq!(action, SupervisorAction::Monitor);
}

#[test]
fn disconnect_enters_backoff_from_either_signal() {
    let mut sup = ConnectionSupervisor::new(5);
    sup.step(SupervisorEvent::SubscriptionEstablished);
    let action = sup.step(SupervisorEvent::IngestionTerminated);
    assert_eq!(sup.state, SupervisorState::Backoff);
    assert_eq!(action, SupervisorAction::AttemptReconnect);

    let mut sup = ConnectionSupervisor::new(5);
    sup.step(SupervisorEvent::SubscriptionEstablished);
    let action = sup.step(SupervisorEvent::WatchdogDisconnect);
    assert_eq!(sup.state, SupervisorState::Backoff);
    assert_eq!(action, SupervisorAction::AttemptReconnect);
}

#[test]
fn exactly_max_consecutive_failures_give_up() {
    let max = 3;
    let mut sup = ConnectionSupervisor::new(max);
    sup.step(SupervisorEvent::SubscriptionEstablished);
    sup.step(SupervisorEvent::IngestionTerminated);
    for attempt in 1..=max {
        assert_eq!(sup.state, SupervisorState::Backoff);
        let action = sup.step(SupervisorEvent::ReconnectFailed);
        assert_eq!(sup.retries, attempt);
        if attempt < max {
            assert_eq!(sup.state, SupervisorState::Backoff);
            assert_eq!(action, SupervisorAction::AttemptReconnect);
        } else {
            assert_eq!(sup.state, SupervisorState::GivenUp);
            assert_eq!(action, SupervisorAction::ReportFatal);
        }
    }
    assert!(sup.has_given_up());
    // No further event asks for another reconnect attempt.
    for event in [
        SupervisorEvent::ReconnectSucceeded,
        SupervisorEvent::ReconnectFailed,
        SupervisorEvent::SubscriptionEstablished,
        SupervisorEvent::ConnectivityConfirmed,
    ] {
        let action = sup.step(event);
        assert_eq!(sup.state, SupervisorState::GivenUp);
        assert_eq!(action, SupervisorAction::ReportFatal);
    }
}

#[test]
fn sustained_connectivity_resets_the_counter() {
    let max = 3;
    let mut sup = ConnectionSupervisor::new(max);
    sup.step(SupervisorEvent::SubscriptionEstablished);
    sup.step(SupervisorEvent::IngestionTerminated);
    // Two failures, then a reconnect that holds.
    sup.step(SupervisorEvent::ReconnectFailed);
    sup.step(SupervisorEvent::ReconnectFailed);
    assert_eq!(sup.retries, 2);
    sup.step(SupervisorEvent::ReconnectSucceeded);
    assert_eq!(sup.state, SupervisorState::Connecting);
    // A reconnect alone does not reset the counter...
    assert_eq!(sup.retries, 2);
    sup.step(SupervisorEvent::SubscriptionEstablished);
    // ...only connectivity observed while active does.
    sup.step(SupervisorEvent::ConnectivityConfirmed);
    assert_eq!(sup.state, SupervisorState::Active);
    assert_eq!(sup.retries, 0);
    // The whole budget is available again.
    sup.step(SupervisorEvent::WatchdogDisconnect);
    for _ in 0..max - 1 {
        sup.step(SupervisorEvent::ReconnectFailed);
        assert_eq!(sup.state, SupervisorState::Backoff);
    }
    sup.step(SupervisorEvent::ReconnectFailed);
    assert_eq!(sup.state, SupervisorState::GivenUp);
}

#[test]
fn subscription_failure_counts_as_a_disconnect() {
    let mut sup = ConnectionSupervisor::new(2);
    let action = sup.step(SupervisorEvent::SubscriptionFailed);
    assert_eq!(sup.state, SupervisorState::Backoff);
    assert_eq!(action, SupervisorAction::AttemptReconnect);
}
