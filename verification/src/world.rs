//! A session together with what it talks to: the store that keeps the grid,
//! the bus that carries the changes, and the client's socket. The world here
//! is one that can be reached and keeps its word; what is shown is that the
//! session then does for the client what the protocol promises.

use crate::codec::{
    change_text, holds_entry, law_frames_are_unambiguous, mutation_of, range_query_of,
    range_response_text, ChangeAction,
};
use crate::relay::{law_relay_passes_payloads_on, payload_events, relay_run, RelayState};
use crate::session::{
    deliveries, law_outbound_writes_each_delivery, outbound_run, session_step, OutboundState,
    SessionActionView, SessionEventView, SessionStateView,
};
use crate::store::{
    after_set_score, law_range_reports_last_write, law_set_score_is_idempotent,
    range_with_scores, CHANGE_TOPIC, GRID_KEY,
};
use vstd::prelude::*;

verus! {

/// What a session has around it.
pub struct World {
    /// The grid as the store holds it: the score of every index that was set.
    pub grid: Map<u32, u8>,
    /// The payloads published on the topic of changes, oldest first.
    pub published: Seq<Seq<char>>,
    /// The texts written to the client's socket by the inbound loop, oldest
    /// first.
    pub written: Seq<Seq<char>>,
}

/// What the world makes of an action, and what it reports back. Reading and
/// closing ask nothing of it. A command that names another key or topic
/// leaves the grid and the topic of changes as they are.
pub open spec fn answer(world: World, action: SessionActionView) -> Option<
    (World, SessionEventView),
> {
    match action {
        SessionActionView::RangeWithScores { key, start, end } => Some(
            (
                world,
                SessionEventView::RangeRead(
                    if key == GRID_KEY@ {
                        range_with_scores(world.grid, start, end)
                    } else {
                        Seq::empty()
                    },
                ),
            ),
        ),
        SessionActionView::SetScore { key, index, score } => Some(
            (
                World {
                    grid: if key == GRID_KEY@ {
                        after_set_score(world.grid, index, score)
                    } else {
                        world.grid
                    },
                    ..world
                },
                SessionEventView::ScoreSet,
            ),
        ),
        SessionActionView::Publish { topic, payload } => Some(
            (
                World {
                    published: if topic == CHANGE_TOPIC@ {
                        world.published.push(payload)
                    } else {
                        world.published
                    },
                    ..world
                },
                SessionEventView::Published,
            ),
        ),
        SessionActionView::Write { text } => Some(
            (World { written: world.written.push(text), ..world }, SessionEventView::Written),
        ),
        SessionActionView::Read => None,
        SessionActionView::Close { .. } => None,
    }
}

/// The world and the session after up to `steps` actions were performed, each
/// answered by the world, starting with `action`. It ends early when the
/// session asks to read or to close.
pub open spec fn drive(
    world: World,
    state: SessionStateView,
    action: SessionActionView,
    steps: nat,
) -> (World, SessionStateView)
    decreases steps,
{
    match answer(world, action) {
        Some((after, event)) => if steps == 0 {
            (world, state)
        } else {
            let next = session_step(state, event);
            drive(after, next.0, next.1, (steps - 1) as nat)
        },
        None => (world, state),
    }
}

/// The world and the session after a reading session was handed `frame` and
/// served it. No frame takes more than three actions to serve.
pub open spec fn serve(world: World, frame: Seq<char>) -> (World, SessionStateView) {
    let first = session_step(SessionStateView::Reading, SessionEventView::TextFrame(frame));
    drive(world, first.0, first.1, 3)
}

/// A mutation leaves its score in the grid, its announcement on the bus and
/// its own words on the client's socket, and the session reading.
pub proof fn law_mutation_is_served(
    world: World,
    frame: Seq<char>,
    index: u32,
    action: ChangeAction,
)
    requires
        mutation_of(frame) == Some((index, action)),
    ensures
        serve(world, frame) == (
            World {
                grid: after_set_score(world.grid, index, action.score_value()),
                published: world.published.push(change_text(action, index)),
                written: world.written.push(frame),
            },
            SessionStateView::Reading,
        ),
{
    law_frames_are_unambiguous(frame);
    reveal_with_fuel(drive, 4);
}

/// A range query changes neither the grid nor the bus; it leaves on the
/// client's socket the response written from what the grid holds in the range,
/// and the session reading.
pub proof fn law_range_query_is_served(world: World, frame: Seq<char>, start: u32, end: u32)
    requires
        range_query_of(frame) == Some((start, end)),
    ensures
        serve(world, frame) == (
            World {
                written: world.written.push(
                    range_response_text(range_with_scores(world.grid, start, end)),
                ),
                ..world
            },
            SessionStateView::Reading,
        ),
{
    law_frames_are_unambiguous(frame);
    reveal_with_fuel(drive, 3);
}

/// A frame that is neither a mutation nor a range query changes nothing, gets
/// no reply, and leaves the session closed.
pub proof fn law_malformed_frame_is_dropped(world: World, frame: Seq<char>)
    requires
        mutation_of(frame) is None,
        range_query_of(frame) is None,
    ensures
        serve(world, frame) == (world, SessionStateView::Closed),
{
}

/// A range query that follows a mutation and covers its index is answered
/// with a response that holds the index with the state it was set to.
pub proof fn law_query_after_mutation_reports_it(
    world: World,
    mutation: Seq<char>,
    query: Seq<char>,
    index: u32,
    action: ChangeAction,
    start: u32,
    end: u32,
)
    requires
        mutation_of(mutation) == Some((index, action)),
        range_query_of(query) == Some((start, end)),
        start <= index <= end,
    ensures
        holds_entry(
            serve(serve(world, mutation).0, query).0.written.last(),
            (index, action.score_value()),
        ),
{
    law_mutation_is_served(world, mutation, index, action);
    law_range_query_is_served(serve(world, mutation).0, query, start, end);
    law_range_reports_last_write(world.grid, index, action.score_value(), start, end);
}

/// Asking for the same mutation twice in a row leaves the grid as asking once
/// does.
pub proof fn law_mutation_twice_is_mutation_once(
    world: World,
    frame: Seq<char>,
    index: u32,
    action: ChangeAction,
)
    requires
        mutation_of(frame) == Some((index, action)),
    ensures
        serve(serve(world, frame).0, frame).0.grid == serve(world, frame).0.grid,
{
    law_mutation_is_served(world, frame, index, action);
    law_mutation_is_served(serve(world, frame).0, frame, index, action);
    law_set_score_is_idempotent(world.grid, index, action.score_value());
}

/// Every change that was published is written by the outbound loop of each
/// session that keeps up with the relay: once, as it was published, and in
/// the order of publication. The session that asked for a change therefore
/// sees it twice, once as the echo of its frame and once from the relay.
pub proof fn law_published_changes_reach_each_session(
    published: Seq<Seq<char>>,
    written: Seq<bool>,
)
    requires
        published.len() == written.len(),
    ensures
        outbound_run(
            OutboundState::Receiving,
            deliveries(relay_run(RelayState::Listening, payload_events(published)).1, written),
        ) == (OutboundState::Receiving, published),
{
    law_relay_passes_payloads_on(published);
    law_outbound_writes_each_delivery(published, written);
}

} // verus!
