use checkbox_sync::relay::{
    start_relay, step_relay, RelayAction, RelayEvent, RelayState, RELAY_BACKLOG,
};
use checkbox_sync::store::{CHANGE_TOPIC, GRID_KEY};

#[test]
fn names_are_those_of_the_deployment() {
    assert_eq!(GRID_KEY, "checkboxes");
    assert_eq!(CHANGE_TOPIC, "checkbox_changes");
    assert_eq!(RELAY_BACKLOG, 100);
}

#[test]
fn relay_subscribes_to_the_topic_of_changes() {
    assert_eq!(
        start_relay(),
        (RelayState::Subscribing, RelayAction::Subscribe { topic: "checkbox_changes" })
    );
    assert_eq!(
        step_relay(RelayState::Subscribing, RelayEvent::Subscribed),
        (RelayState::Listening, RelayAction::Listen)
    );
}

#[test]
fn relay_passes_payloads_on_in_order() {
    let mut state = RelayState::Listening;
    let mut sent = Vec::new();
    for payload in ["c,1", "u,1", "c,4294967295", "anything at all", ""] {
        let (next, action) = step_relay(state, RelayEvent::Payload(payload.to_string()));
        state = next;
        match action {
            RelayAction::Broadcast { payload } => sent.push(payload),
            other => panic!("{:?}", other),
        }
    }
    assert_eq!(state, RelayState::Listening);
    assert_eq!(sent, vec!["c,1", "u,1", "c,4294967295", "anything at all", ""]);
}

#[test]
fn relay_stops_when_the_subscription_ends_or_fails() {
    let stopped = (RelayState::Stopped, RelayAction::Stop);
    assert_eq!(step_relay(RelayState::Listening, RelayEvent::StreamEnded), stopped);
    assert_eq!(step_relay(RelayState::Listening, RelayEvent::Undecodable), stopped);
    assert_eq!(step_relay(RelayState::Listening, RelayEvent::StoreUnavailable), stopped);
    assert_eq!(step_relay(RelayState::Subscribing, RelayEvent::StoreUnavailable), stopped);
    let early = RelayEvent::Payload("c,1".to_string());
    assert_eq!(step_relay(RelayState::Subscribing, early), stopped);
    assert_eq!(step_relay(RelayState::Listening, RelayEvent::Subscribed), stopped);
}

#[test]
fn stopped_relay_stays_stopped_and_never_subscribes_again() {
    for state in [RelayState::Subscribing, RelayState::Listening, RelayState::Stopped] {
        for event in [
            RelayEvent::Subscribed,
            RelayEvent::Payload("c,1".to_string()),
            RelayEvent::Undecodable,
            RelayEvent::StoreUnavailable,
            RelayEvent::StreamEnded,
        ] {
            let (next, action) = step_relay(state, event);
            assert!(!matches!(action, RelayAction::Subscribe { .. }));
            if state == RelayState::Stopped {
                assert_eq!((next, action), (RelayState::Stopped, RelayAction::Stop));
            }
        }
    }
}
