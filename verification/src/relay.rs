//! The change relay: the one subscription of a server process to the bus. It
//! hands every change it receives to the process's own broadcast channel, from
//! which the sessions take it.

use crate::store::CHANGE_TOPIC;
use vstd::prelude::*;

verus! {

/// How many changes the broadcast channel keeps for a session that has not
/// taken them yet. A session that falls further behind misses the oldest.
pub const RELAY_BACKLOG: usize = 100;

/// Where the relay stands.
#[derive(Debug, Clone, Copy, PartialEq, Eq, Structural)]
pub enum RelayState {
    /// The subscription is being set up.
    Subscribing,
    /// Waiting for the next change on the bus.
    Listening,
    /// The relay is over.
    Stopped,
}

/// What happened at the relay since the last step.
#[derive(Debug, PartialEq, Eq)]
pub enum RelayEvent {
    /// The subscription stands.
    Subscribed,
    /// The bus delivered a change with this payload.
    Payload(String),
    /// The bus delivered a message whose payload is not text.
    Undecodable,
    /// The bus could not be reached.
    StoreUnavailable,
    /// The subscription came to its end.
    StreamEnded,
}

/// What the relay is to do next.
#[derive(Debug, PartialEq, Eq)]
pub enum RelayAction {
    /// Subscribe to `topic`.
    Subscribe { topic: &'static str },
    /// Wait for the next change on the bus.
    Listen,
    /// Send `payload` to the broadcast channel, whether or not a session is
    /// there to take it, and then wait for the next change.
    Broadcast { payload: String },
    /// End the relay.
    Stop,
}

/// `RelayEvent` with its payload as a sequence of characters.
pub enum RelayEventView {
    Subscribed,
    Payload(Seq<char>),
    Undecodable,
    StoreUnavailable,
    StreamEnded,
}

/// `RelayAction` with its texts as sequences of characters.
pub enum RelayActionView {
    Subscribe { topic: Seq<char> },
    Listen,
    Broadcast { payload: Seq<char> },
    Stop,
}

impl View for RelayEvent {
    type V = RelayEventView;

    open spec fn view(&self) -> RelayEventView {
        match *self {
            RelayEvent::Subscribed => RelayEventView::Subscribed,
            RelayEvent::Payload(payload) => RelayEventView::Payload(payload@),
            RelayEvent::Undecodable => RelayEventView::Undecodable,
            RelayEvent::StoreUnavailable => RelayEventView::StoreUnavailable,
            RelayEvent::StreamEnded => RelayEventView::StreamEnded,
        }
    }
}

impl View for RelayAction {
    type V = RelayActionView;

    open spec fn view(&self) -> RelayActionView {
        match *self {
            RelayAction::Subscribe { topic } => RelayActionView::Subscribe { topic: topic@ },
            RelayAction::Listen => RelayActionView::Listen,
            RelayAction::Broadcast { payload } => RelayActionView::Broadcast { payload: payload@ },
            RelayAction::Stop => RelayActionView::Stop,
        }
    }
}

/// One step of the relay. Once subscribed it passes on every payload as it
/// came and goes on listening. It stops when the subscription ends or fails,
/// when a payload is not text, and on an event that the state does not wait
/// for.
pub open spec fn relay_step(state: RelayState, event: RelayEventView) -> (
    RelayState,
    RelayActionView,
) {
    match (state, event) {
        (RelayState::Subscribing, RelayEventView::Subscribed) => (
            RelayState::Listening,
            RelayActionView::Listen,
        ),
        (RelayState::Listening, RelayEventView::Payload(payload)) => (
            RelayState::Listening,
            RelayActionView::Broadcast { payload },
        ),
        _ => (RelayState::Stopped, RelayActionView::Stop),
    }
}

/// What the relay has sent to the broadcast channel after a run of events, in
/// order, and the state it ends in.
pub open spec fn relay_run(state: RelayState, events: Seq<RelayEventView>) -> (
    RelayState,
    Seq<Seq<char>>,
)
    decreases events.len(),
{
    if events.len() == 0 {
        (state, Seq::empty())
    } else {
        let before = relay_run(state, events.drop_last());
        let last = relay_step(before.0, events.last());
        match last.1 {
            RelayActionView::Broadcast { payload } => (last.0, before.1.push(payload)),
            _ => (last.0, before.1),
        }
    }
}

/// The events of a relay to which the bus delivers `payloads`, one after the
/// other.
pub open spec fn payload_events(payloads: Seq<Seq<char>>) -> Seq<RelayEventView> {
    Seq::new(payloads.len(), |i: int| RelayEventView::Payload(payloads[i]))
}

/// A new relay: its first action is to subscribe to the topic of changes.
pub fn start_relay() -> (r: (RelayState, RelayAction))
    ensures
        r.0 == RelayState::Subscribing,
        r.1@ == (RelayActionView::Subscribe { topic: CHANGE_TOPIC@ }),
{
    (RelayState::Subscribing, RelayAction::Subscribe { topic: CHANGE_TOPIC })
}

/// Takes one step of the relay.
pub fn step_relay(state: RelayState, event: RelayEvent) -> (r: (RelayState, RelayAction))
    ensures
        (r.0, r.1@) == relay_step(state, event@),
{
    match (state, event) {
        (RelayState::Subscribing, RelayEvent::Subscribed) => (
            RelayState::Listening,
            RelayAction::Listen,
        ),
        (RelayState::Listening, RelayEvent::Payload(payload)) => (
            RelayState::Listening,
            RelayAction::Broadcast { payload },
        ),
        _ => (RelayState::Stopped, RelayAction::Stop),
    }
}

/// The relay subscribes when it starts and never again: no step asks for a
/// subscription, and a relay that has stopped stays stopped.
pub proof fn law_relay_subscribes_once(state: RelayState, event: RelayEventView)
    ensures
        !(relay_step(state, event).1 is Subscribe),
        state == RelayState::Stopped ==> relay_step(state, event) == (
            RelayState::Stopped,
            RelayActionView::Stop,
        ),
{
}

/// While the relay listens, what it broadcasts is what the bus delivered:
/// every payload, unchanged and in the order of delivery.
pub proof fn law_relay_passes_payloads_on(payloads: Seq<Seq<char>>)
    ensures
        relay_run(RelayState::Listening, payload_events(payloads)) == (
            RelayState::Listening,
            payloads,
        ),
    decreases payloads.len(),
{
    if payloads.len() > 0 {
        let front = payloads.drop_last();
        law_relay_passes_payloads_on(front);
        assert(payload_events(payloads).drop_last() =~= payload_events(front));
    }
}

} // verus!
