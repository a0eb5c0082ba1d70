//! One client connection. A session runs two loops over the same socket: the
//! inbound loop reads the client's frames and serves them against the store,
//! and the outbound loop hands the client every change that the relay
//! delivers. Each loop is a state machine here: the caller performs the action
//! a step asks for and comes back with what happened.

use crate::codec::{
    begins_with_get, change_text, chars_of, decode_mutation, decode_range_query, encode_change,
    encode_range_response, is_range_request, law_frames_are_unambiguous, mutation_of,
    range_query_of, range_response_text, ChangeAction,
};
use crate::store::{CHANGE_TOPIC, GRID_KEY};
use vstd::prelude::*;

verus! {

/// Why a session was closed.
#[derive(Debug, Clone, Copy, PartialEq, Eq, Structural)]
pub enum CloseReason {
    /// The client's stream came to its end.
    StreamEnded,
    /// A read from the socket failed, or the write of a reply did.
    SocketError,
    /// A text frame was neither a mutation nor a range query.
    ProtocolDecodeError,
    /// The store could not be reached.
    StoreUnavailable,
    /// An event arrived that the state does not wait for.
    OutOfTurn,
}

/// Where the inbound loop stands.
#[derive(Debug, PartialEq, Eq)]
pub enum SessionState {
    /// Waiting for the client's next frame.
    Reading,
    /// A range read is under way.
    Querying,
    /// The score of a mutation is being written; `echo` is the frame that
    /// asked for it.
    Persisting { index: u32, action: ChangeAction, echo: String },
    /// The change is being announced.
    Publishing { echo: String },
    /// A reply is being written to the client.
    Replying,
    /// The session is over.
    Closed,
}

/// What happened on the inbound side since the last step.
#[derive(Debug, PartialEq, Eq)]
pub enum SessionEvent {
    /// A text frame arrived.
    TextFrame(String),
    /// A frame arrived that is not text.
    OtherFrame,
    /// The client's stream came to its end.
    StreamEnded,
    /// Reading from the socket failed.
    ReadFailed,
    /// The store answered a range read with these pairs of index and score.
    RangeRead(Vec<(u32, u8)>),
    /// The store took the score.
    ScoreSet,
    /// The bus took the announcement.
    Published,
    /// The store or the bus could not be reached.
    StoreUnavailable,
    /// The reply went out.
    Written,
    /// Writing the reply failed.
    WriteFailed,
}

/// What the inbound loop is to do next.
#[derive(Debug, PartialEq, Eq)]
pub enum SessionAction {
    /// Wait for the client's next frame.
    Read,
    /// Read from the sorted set `key` the range from `start` to `end`, with
    /// scores.
    RangeWithScores { key: &'static str, start: u32, end: u32 },
    /// Set the score of member `index` of the sorted set `key`.
    SetScore { key: &'static str, index: u32, score: u8 },
    /// Publish `payload` on `topic`.
    Publish { topic: &'static str, payload: String },
    /// Write `text` to this session's own socket.
    Write { text: String },
    /// Tear the connection down.
    Close { reason: CloseReason },
}

/// `SessionState` with its texts as sequences of characters.
pub enum SessionStateView {
    Reading,
    Querying,
    Persisting { index: u32, action: ChangeAction, echo: Seq<char> },
    Publishing { echo: Seq<char> },
    Replying,
    Closed,
}

/// `SessionEvent` with its texts and pairs as sequences.
pub enum SessionEventView {
    TextFrame(Seq<char>),
    OtherFrame,
    StreamEnded,
    ReadFailed,
    RangeRead(Seq<(u32, u8)>),
    ScoreSet,
    Published,
    StoreUnavailable,
    Written,
    WriteFailed,
}

/// `SessionAction` with its texts as sequences of characters.
pub enum SessionActionView {
    Read,
    RangeWithScores { key: Seq<char>, start: u32, end: u32 },
    SetScore { key: Seq<char>, index: u32, score: u8 },
    Publish { topic: Seq<char>, payload: Seq<char> },
    Write { text: Seq<char> },
    Close { reason: CloseReason },
}

impl View for SessionState {
    type V = SessionStateView;

    open spec fn view(&self) -> SessionStateView {
        match *self {
            SessionState::Reading => SessionStateView::Reading,
            SessionState::Querying => SessionStateView::Querying,
            SessionState::Persisting { index, action, echo } => SessionStateView::Persisting {
                index,
                action,
                echo: echo@,
            },
            SessionState::Publishing { echo } => SessionStateView::Publishing { echo: echo@ },
            SessionState::Replying => SessionStateView::Replying,
            SessionState::Closed => SessionStateView::Closed,
        }
    }
}

impl View for SessionEvent {
    type V = SessionEventView;

    open spec fn view(&self) -> SessionEventView {
        match *self {
            SessionEvent::TextFrame(text) => SessionEventView::TextFrame(text@),
            SessionEvent::OtherFrame => SessionEventView::OtherFrame,
            SessionEvent::StreamEnded => SessionEventView::StreamEnded,
            SessionEvent::ReadFailed => SessionEventView::ReadFailed,
            SessionEvent::RangeRead(entries) => SessionEventView::RangeRead(entries@),
            SessionEvent::ScoreSet => SessionEventView::ScoreSet,
            SessionEvent::Published => SessionEventView::Published,
            SessionEvent::StoreUnavailable => SessionEventView::StoreUnavailable,
            SessionEvent::Written => SessionEventView::Written,
            SessionEvent::WriteFailed => SessionEventView::WriteFailed,
        }
    }
}

impl View for SessionAction {
    type V = SessionActionView;

    open spec fn view(&self) -> SessionActionView {
        match *self {
            SessionAction::Read => SessionActionView::Read,
            SessionAction::RangeWithScores { key, start, end } => {
                SessionActionView::RangeWithScores { key: key@, start, end }
            },
            SessionAction::SetScore { key, index, score } => SessionActionView::SetScore {
                key: key@,
                index,
                score,
            },
            SessionAction::Publish { topic, payload } => SessionActionView::Publish {
                topic: topic@,
                payload: payload@,
            },
            SessionAction::Write { text } => SessionActionView::Write { text: text@ },
            SessionAction::Close { reason } => SessionActionView::Close { reason },
        }
    }
}

impl SessionStateView {
    /// Whether the state is one that a session can be in: while a mutation is
    /// under way, the frame kept for the echo is the frame that asked for it.
    pub open spec fn well_formed(self) -> bool {
        match self {
            SessionStateView::Persisting { index, action, echo } => mutation_of(echo) == Some(
                (index, action),
            ),
            SessionStateView::Publishing { echo } => mutation_of(echo) is Some,
            _ => true,
        }
    }
}

/// The step that closes a session for `reason`.
pub open spec fn closing(reason: CloseReason) -> (SessionStateView, SessionActionView) {
    (SessionStateView::Closed, SessionActionView::Close { reason })
}

/// What a text frame asks of a session that is reading. A frame that begins
/// with `get` is a range query or nothing; any other frame is a mutation or
/// nothing. A frame that is nothing closes the session.
pub open spec fn frame_step(text: Seq<char>) -> (SessionStateView, SessionActionView) {
    if begins_with_get(text) {
        match range_query_of(text) {
            Some((start, end)) => (
                SessionStateView::Querying,
                SessionActionView::RangeWithScores { key: GRID_KEY@, start, end },
            ),
            None => closing(CloseReason::ProtocolDecodeError),
        }
    } else {
        match mutation_of(text) {
            Some((index, action)) => (
                SessionStateView::Persisting { index, action, echo: text },
                SessionActionView::SetScore { key: GRID_KEY@, index, score: action.score_value() },
            ),
            None => closing(CloseReason::ProtocolDecodeError),
        }
    }
}

/// One step of the inbound loop: the state it moves to and the action it asks
/// for, given where it stands and what happened.
///
/// A range query is answered from what the store returns. A mutation is
/// written to the store, then announced on the bus, then echoed to the client
/// in its own words. A failure of the store, of the socket or of the decoding
/// closes the session, and so does an event that the state does not wait for.
pub open spec fn session_step(state: SessionStateView, event: SessionEventView) -> (
    SessionStateView,
    SessionActionView,
) {
    match (state, event) {
        (SessionStateView::Reading, SessionEventView::TextFrame(text)) => frame_step(text),
        (SessionStateView::Reading, SessionEventView::OtherFrame) => (
            SessionStateView::Reading,
            SessionActionView::Read,
        ),
        (SessionStateView::Reading, SessionEventView::StreamEnded) => closing(
            CloseReason::StreamEnded,
        ),
        (SessionStateView::Reading, SessionEventView::ReadFailed) => closing(
            CloseReason::SocketError,
        ),
        (SessionStateView::Querying, SessionEventView::RangeRead(entries)) => (
            SessionStateView::Replying,
            SessionActionView::Write { text: range_response_text(entries) },
        ),
        (SessionStateView::Querying, SessionEventView::StoreUnavailable) => closing(
            CloseReason::StoreUnavailable,
        ),
        (SessionStateView::Persisting { index, action, echo }, SessionEventView::ScoreSet) => (
            SessionStateView::Publishing { echo },
            SessionActionView::Publish {
                topic: CHANGE_TOPIC@,
                payload: change_text(action, index),
            },
        ),
        (SessionStateView::Persisting { .. }, SessionEventView::StoreUnavailable) => closing(
            CloseReason::StoreUnavailable,
        ),
        (SessionStateView::Publishing { echo }, SessionEventView::Published) => (
            SessionStateView::Replying,
            SessionActionView::Write { text: echo },
        ),
        (SessionStateView::Publishing { .. }, SessionEventView::StoreUnavailable) => closing(
            CloseReason::StoreUnavailable,
        ),
        (SessionStateView::Replying, SessionEventView::Written) => (
            SessionStateView::Reading,
            SessionActionView::Read,
        ),
        (SessionStateView::Replying, SessionEventView::WriteFailed) => closing(
            CloseReason::SocketError,
        ),
        _ => closing(CloseReason::OutOfTurn),
    }
}

/// The state a session ends in after a run of events, and the actions it
/// asked for on the way, one for each event.
pub open spec fn session_run(state: SessionStateView, events: Seq<SessionEventView>) -> (
    SessionStateView,
    Seq<SessionActionView>,
)
    decreases events.len(),
{
    if events.len() == 0 {
        (state, Seq::empty())
    } else {
        let before = session_run(state, events.drop_last());
        let last = session_step(before.0, events.last());
        (last.0, before.1.push(last.1))
    }
}

/// A new session: it is reading, and its first action is to read.
pub fn open_session() -> (r: (SessionState, SessionAction))
    ensures
        r.0@ == SessionStateView::Reading,
        r.1@ == SessionActionView::Read,
{
    (SessionState::Reading, SessionAction::Read)
}

fn close(reason: CloseReason) -> (r: (SessionState, SessionAction))
    ensures
        (r.0@, r.1@) == closing(reason),
{
    (SessionState::Closed, SessionAction::Close { reason })
}

fn on_text_frame(text: String) -> (r: (SessionState, SessionAction))
    ensures
        (r.0@, r.1@) == frame_step(text@),
{
    let chars = chars_of(text.as_str());
    if is_range_request(&chars) {
        match decode_range_query(&chars) {
            Some((start, end)) => (
                SessionState::Querying,
                SessionAction::RangeWithScores { key: GRID_KEY, start, end },
            ),
            None => close(CloseReason::ProtocolDecodeError),
        }
    } else {
        match decode_mutation(&chars) {
            Some((index, action)) => (
                SessionState::Persisting { index, action, echo: text },
                SessionAction::SetScore { key: GRID_KEY, index, score: action.score() },
            ),
            None => close(CloseReason::ProtocolDecodeError),
        }
    }
}

/// Takes one step of the inbound loop.
pub fn step_session(state: SessionState, event: SessionEvent) -> (r: (SessionState, SessionAction))
    ensures
        (r.0@, r.1@) == session_step(state@, event@),
{
    match (state, event) {
        (SessionState::Reading, SessionEvent::TextFrame(text)) => on_text_frame(text),
        (SessionState::Reading, SessionEvent::OtherFrame) => (
            SessionState::Reading,
            SessionAction::Read,
        ),
        (SessionState::Reading, SessionEvent::StreamEnded) => close(CloseReason::StreamEnded),
        (SessionState::Reading, SessionEvent::ReadFailed) => close(CloseReason::SocketError),
        (SessionState::Querying, SessionEvent::RangeRead(entries)) => (
            SessionState::Replying,
            SessionAction::Write { text: encode_range_response(&entries) },
        ),
        (SessionState::Querying, SessionEvent::StoreUnavailable) => close(
            CloseReason::StoreUnavailable,
        ),
        (SessionState::Persisting { index, action, echo }, SessionEvent::ScoreSet) => (
            SessionState::Publishing { echo },
            SessionAction::Publish { topic: CHANGE_TOPIC, payload: encode_change(action, index) },
        ),
        (SessionState::Persisting { .. }, SessionEvent::StoreUnavailable) => close(
            CloseReason::StoreUnavailable,
        ),
        (SessionState::Publishing { echo }, SessionEvent::Published) => (
            SessionState::Replying,
            SessionAction::Write { text: echo },
        ),
        (SessionState::Publishing { .. }, SessionEvent::StoreUnavailable) => close(
            CloseReason::StoreUnavailable,
        ),
        (SessionState::Replying, SessionEvent::Written) => (
            SessionState::Reading,
            SessionAction::Read,
        ),
        (SessionState::Replying, SessionEvent::WriteFailed) => close(CloseReason::SocketError),
        _ => close(CloseReason::OutOfTurn),
    }
}

/// Where the outbound loop stands.
#[derive(Debug, Clone, Copy, PartialEq, Eq, Structural)]
pub enum OutboundState {
    /// Waiting for the relay's next change.
    Receiving,
    /// A change is being written to the client.
    Writing,
    /// The relay is gone; the loop is over.
    Stopped,
}

/// What happened on the outbound side since the last step.
#[derive(Debug, PartialEq, Eq)]
pub enum OutboundEvent {
    /// The relay delivered this change.
    Delivered(String),
    /// This session fell behind and the relay dropped the oldest changes it
    /// had not yet taken.
    Lagged,
    /// The relay is gone.
    RelayClosed,
    /// The change went out.
    Written,
    /// Writing the change failed.
    WriteFailed,
}

/// What the outbound loop is to do next.
#[derive(Debug, PartialEq, Eq)]
pub enum OutboundAction {
    /// Wait for the relay's next change.
    Receive,
    /// Write `text` to this session's own socket.
    Write { text: String },
    /// End the loop.
    Stop,
}

/// `OutboundEvent` with its text as a sequence of characters.
pub enum OutboundEventView {
    Delivered(Seq<char>),
    Lagged,
    RelayClosed,
    Written,
    WriteFailed,
}

/// `OutboundAction` with its text as a sequence of characters.
pub enum OutboundActionView {
    Receive,
    Write { text: Seq<char> },
    Stop,
}

impl View for OutboundEvent {
    type V = OutboundEventView;

    open spec fn view(&self) -> OutboundEventView {
        match *self {
            OutboundEvent::Delivered(text) => OutboundEventView::Delivered(text@),
            OutboundEvent::Lagged => OutboundEventView::Lagged,
            OutboundEvent::RelayClosed => OutboundEventView::RelayClosed,
            OutboundEvent::Written => OutboundEventView::Written,
            OutboundEvent::WriteFailed => OutboundEventView::WriteFailed,
        }
    }
}

impl View for OutboundAction {
    type V = OutboundActionView;

    open spec fn view(&self) -> OutboundActionView {
        match *self {
            OutboundAction::Receive => OutboundActionView::Receive,
            OutboundAction::Write { text } => OutboundActionView::Write { text: text@ },
            OutboundAction::Stop => OutboundActionView::Stop,
        }
    }
}

/// One step of the outbound loop. Every change the relay delivers is written
/// to the client as it came. A write that fails is let go and the loop goes
/// on, and so it does after changes were missed. Only the end of the relay, or
/// an event that the state does not wait for, stops the loop.
pub open spec fn outbound_step(state: OutboundState, event: OutboundEventView) -> (
    OutboundState,
    OutboundActionView,
) {
    match (state, event) {
        (OutboundState::Receiving, OutboundEventView::Delivered(text)) => (
            OutboundState::Writing,
            OutboundActionView::Write { text },
        ),
        (OutboundState::Receiving, OutboundEventView::Lagged) => (
            OutboundState::Receiving,
            OutboundActionView::Receive,
        ),
        (OutboundState::Writing, OutboundEventView::Written) => (
            OutboundState::Receiving,
            OutboundActionView::Receive,
        ),
        (OutboundState::Writing, OutboundEventView::WriteFailed) => (
            OutboundState::Receiving,
            OutboundActionView::Receive,
        ),
        _ => (OutboundState::Stopped, OutboundActionView::Stop),
    }
}

/// A new outbound loop: it is receiving, and its first action is to receive.
pub fn open_outbound() -> (r: (OutboundState, OutboundAction))
    ensures
        r.0 == OutboundState::Receiving,
        r.1@ == OutboundActionView::Receive,
{
    (OutboundState::Receiving, OutboundAction::Receive)
}

/// Takes one step of the outbound loop.
pub fn step_outbound(state: OutboundState, event: OutboundEvent) -> (r: (
    OutboundState,
    OutboundAction,
))
    ensures
        (r.0, r.1@) == outbound_step(state, event@),
{
    match (state, event) {
        (OutboundState::Receiving, OutboundEvent::Delivered(text)) => (
            OutboundState::Writing,
            OutboundAction::Write { text },
        ),
        (OutboundState::Receiving, OutboundEvent::Lagged) => (
            OutboundState::Receiving,
            OutboundAction::Receive,
        ),
        (OutboundState::Writing, OutboundEvent::Written) => (
            OutboundState::Receiving,
            OutboundAction::Receive,
        ),
        (OutboundState::Writing, OutboundEvent::WriteFailed) => (
            OutboundState::Receiving,
            OutboundAction::Receive,
        ),
        _ => (OutboundState::Stopped, OutboundAction::Stop),
    }
}

/// The writes that the outbound loop asked for after a run of events, in
/// order, and the state it ends in.
pub open spec fn outbound_run(state: OutboundState, events: Seq<OutboundEventView>) -> (
    OutboundState,
    Seq<Seq<char>>,
)
    decreases events.len(),
{
    if events.len() == 0 {
        (state, Seq::empty())
    } else {
        let before = outbound_run(state, events.drop_last());
        let last = outbound_step(before.0, events.last());
        match last.1 {
            OutboundActionView::Write { text } => (last.0, before.1.push(text)),
            _ => (last.0, before.1),
        }
    }
}

/// What the outbound loop sees when each of `payloads` is delivered and then
/// written, the write of the `i`-th succeeding where `written[i]` holds.
pub open spec fn deliveries(payloads: Seq<Seq<char>>, written: Seq<bool>) -> Seq<OutboundEventView>
    recommends
        payloads.len() == written.len(),
{
    Seq::new(
        2 * payloads.len(),
        |i: int|
            if i % 2 == 0 {
                OutboundEventView::Delivered(payloads[i / 2])
            } else if written[i / 2] {
                OutboundEventView::Written
            } else {
                OutboundEventView::WriteFailed
            },
    )
}

/// A run goes on from where the run of all but the last event ended.
pub proof fn lemma_session_run_push(
    state: SessionStateView,
    events: Seq<SessionEventView>,
    event: SessionEventView,
)
    ensures
        session_run(state, events.push(event)) == ({
            let before = session_run(state, events);
            let last = session_step(before.0, event);
            (last.0, before.1.push(last.1))
        }),
{
    assert(events.push(event).drop_last() =~= events);
}

/// No step leads out of the states that a session can be in: whatever is
/// echoed to a client is a mutation that the client sent.
pub proof fn law_step_keeps_well_formed(state: SessionStateView, event: SessionEventView)
    requires
        state.well_formed(),
    ensures
        session_step(state, event).0.well_formed(),
        session_step(state, event).1 matches SessionActionView::Write { text } ==> state
            is Querying || mutation_of(text) is Some,
{
}

/// A mutation is written to the store, then announced on the bus as the
/// change it is, then echoed to the client in the very words of the frame;
/// after that the session reads on.
pub proof fn law_mutation_is_stored_announced_echoed(
    text: Seq<char>,
    index: u32,
    action: ChangeAction,
)
    requires
        mutation_of(text) == Some((index, action)),
    ensures
        session_run(
            SessionStateView::Reading,
            seq![
                SessionEventView::TextFrame(text),
                SessionEventView::ScoreSet,
                SessionEventView::Published,
                SessionEventView::Written,
            ],
        ) == (
            SessionStateView::Reading,
            seq![
                SessionActionView::SetScore { key: GRID_KEY@, index, score: action.score_value() },
                SessionActionView::Publish {
                    topic: CHANGE_TOPIC@,
                    payload: change_text(action, index),
                },
                SessionActionView::Write { text },
                SessionActionView::Read,
            ],
        ),
{
    law_frames_are_unambiguous(text);
    let e0 = SessionEventView::TextFrame(text);
    let e1 = SessionEventView::ScoreSet;
    let e2 = SessionEventView::Published;
    let e3 = SessionEventView::Written;
    let none = Seq::<SessionEventView>::empty();
    lemma_session_run_push(SessionStateView::Reading, none, e0);
    lemma_session_run_push(SessionStateView::Reading, none.push(e0), e1);
    lemma_session_run_push(SessionStateView::Reading, none.push(e0).push(e1), e2);
    lemma_session_run_push(SessionStateView::Reading, none.push(e0).push(e1).push(e2), e3);
    assert(seq![e0, e1, e2, e3] =~= none.push(e0).push(e1).push(e2).push(e3));
    let run = session_run(SessionStateView::Reading, seq![e0, e1, e2, e3]);
    assert(run.1 =~= seq![
        SessionActionView::SetScore { key: GRID_KEY@, index, score: action.score_value() },
        SessionActionView::Publish { topic: CHANGE_TOPIC@, payload: change_text(action, index) },
        SessionActionView::Write { text },
        SessionActionView::Read,
    ]);
}

/// A range query is put to the store with the bounds as the client gave them,
/// and what the store returns is written to the client as a range response;
/// after that the session reads on.
pub proof fn law_range_query_is_answered(
    text: Seq<char>,
    start: u32,
    end: u32,
    entries: Seq<(u32, u8)>,
)
    requires
        range_query_of(text) == Some((start, end)),
    ensures
        session_run(
            SessionStateView::Reading,
            seq![
                SessionEventView::TextFrame(text),
                SessionEventView::RangeRead(entries),
                SessionEventView::Written,
            ],
        ) == (
            SessionStateView::Reading,
            seq![
                SessionActionView::RangeWithScores { key: GRID_KEY@, start, end },
                SessionActionView::Write { text: range_response_text(entries) },
                SessionActionView::Read,
            ],
        ),
{
    law_frames_are_unambiguous(text);
    let e0 = SessionEventView::TextFrame(text);
    let e1 = SessionEventView::RangeRead(entries);
    let e2 = SessionEventView::Written;
    let none = Seq::<SessionEventView>::empty();
    lemma_session_run_push(SessionStateView::Reading, none, e0);
    lemma_session_run_push(SessionStateView::Reading, none.push(e0), e1);
    lemma_session_run_push(SessionStateView::Reading, none.push(e0).push(e1), e2);
    assert(seq![e0, e1, e2] =~= none.push(e0).push(e1).push(e2));
    let run = session_run(SessionStateView::Reading, seq![e0, e1, e2]);
    assert(run.1 =~= seq![
        SessionActionView::RangeWithScores { key: GRID_KEY@, start, end },
        SessionActionView::Write { text: range_response_text(entries) },
        SessionActionView::Read,
    ]);
}

/// A text frame that is neither a mutation nor a range query closes the
/// session, and nothing is written to the client.
pub proof fn law_malformed_frame_closes(text: Seq<char>)
    requires
        mutation_of(text) is None,
        range_query_of(text) is None,
    ensures
        session_step(SessionStateView::Reading, SessionEventView::TextFrame(text)) == closing(
            CloseReason::ProtocolDecodeError,
        ),
{
}

/// Whatever a session is doing, it is closed once the store cannot be
/// reached; and where it was waiting for the store, that is the reason given.
pub proof fn law_store_failure_closes(state: SessionStateView)
    ensures
        session_step(state, SessionEventView::StoreUnavailable).0 == SessionStateView::Closed,
        (state is Querying || state is Persisting || state is Publishing) ==> session_step(
            state,
            SessionEventView::StoreUnavailable,
        ) == closing(CloseReason::StoreUnavailable),
{
}

/// A closed session stays closed, whatever happens.
pub proof fn law_closed_stays_closed(events: Seq<SessionEventView>)
    ensures
        session_run(SessionStateView::Closed, events).0 == SessionStateView::Closed,
    decreases events.len(),
{
    if events.len() > 0 {
        law_closed_stays_closed(events.drop_last());
    }
}

/// A run goes on from where the run of all but the last event ended.
pub proof fn lemma_outbound_run_push(
    state: OutboundState,
    events: Seq<OutboundEventView>,
    event: OutboundEventView,
)
    ensures
        outbound_run(state, events.push(event)) == ({
            let before = outbound_run(state, events);
            let last = outbound_step(before.0, event);
            match last.1 {
                OutboundActionView::Write { text } => (last.0, before.1.push(text)),
                _ => (last.0, before.1),
            }
        }),
{
    assert(events.push(event).drop_last() =~= events);
}

/// The outbound loop writes to the client every change that is delivered to
/// it, once, unchanged and in the order of delivery, whether or not the
/// writes before it succeeded; and it is then ready for the next.
pub proof fn law_outbound_writes_each_delivery(payloads: Seq<Seq<char>>, written: Seq<bool>)
    requires
        payloads.len() == written.len(),
    ensures
        outbound_run(OutboundState::Receiving, deliveries(payloads, written)) == (
            OutboundState::Receiving,
            payloads,
        ),
    decreases payloads.len(),
{
    let events = deliveries(payloads, written);
    if payloads.len() > 0 {
        let front = payloads.drop_last();
        law_outbound_writes_each_delivery(front, written.drop_last());
        let earlier = deliveries(front, written.drop_last());
        let delivered = OutboundEventView::Delivered(payloads.last());
        let outcome = if written.last() {
            OutboundEventView::Written
        } else {
            OutboundEventView::WriteFailed
        };
        assert(events =~= earlier.push(delivered).push(outcome));
        lemma_outbound_run_push(OutboundState::Receiving, earlier, delivered);
        lemma_outbound_run_push(OutboundState::Receiving, earlier.push(delivered), outcome);
    }
}

} // verus!
