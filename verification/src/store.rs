//! The shared store as the sessions see it: the names under which the grid
//! and its change events live, and what setting a score and reading a range
//! mean for the grid.

use crate::codec::{holds_entry, lemma_response_holds_entry, range_response_text};
use vstd::prelude::*;

verus! {

/// The key of the sorted set that holds the grid: its members are the
/// indices, its scores their states.
pub const GRID_KEY: &'static str = "checkboxes";

/// The topic on which every committed change is announced.
pub const CHANGE_TOPIC: &'static str = "checkbox_changes";

/// The grid after `index` was set to `score`: a write replaces whatever the
/// index had before.
pub open spec fn after_set_score(grid: Map<u32, u8>, index: u32, score: u8) -> Map<u32, u8> {
    grid.insert(index, score)
}

/// The pairs of the grid whose index lies between `low` and `high`, both
/// included, in ascending order of index.
pub open spec fn entries_between(grid: Map<u32, u8>, low: int, high: int) -> Seq<(u32, u8)>
    decreases high - low + 1,
{
    if high < low {
        Seq::empty()
    } else {
        let below = entries_between(grid, low, high - 1);
        if grid.contains_key(high as u32) {
            below.push((high as u32, grid[high as u32]))
        } else {
            below
        }
    }
}

/// What a range read from `start` to `end` returns. It is empty where `start`
/// lies above `end`.
pub open spec fn range_with_scores(grid: Map<u32, u8>, start: u32, end: u32) -> Seq<(u32, u8)> {
    entries_between(grid, start as int, end as int)
}

/// Whether `entry` is a pair of the grid whose index lies between `low` and
/// `high`.
pub open spec fn lies_between(grid: Map<u32, u8>, low: int, high: int, entry: (u32, u8)) -> bool {
    low <= entry.0 <= high && grid.contains_key(entry.0) && grid[entry.0] == entry.1
}

/// Whether the indices of `entries` ascend strictly, so that none comes twice.
pub open spec fn is_ascending(entries: Seq<(u32, u8)>) -> bool {
    forall|j: int, k: int|
        0 <= j < k < entries.len() ==> (#[trigger] entries[j]).0 < (#[trigger] entries[k]).0
}

/// The pairs between two indices are pairs of the grid, lie between the two,
/// and ascend.
proof fn lemma_entries_between(grid: Map<u32, u8>, low: int, high: int)
    requires
        0 <= low,
        high <= u32::MAX,
    ensures
        is_ascending(entries_between(grid, low, high)),
        forall|k: int|
            0 <= k < entries_between(grid, low, high).len() ==> lies_between(
                grid,
                low,
                high,
                #[trigger] entries_between(grid, low, high)[k],
            ),
    decreases high - low + 1,
{
    if high >= low {
        lemma_entries_between(grid, low, high - 1);
    }
}

/// Every pair of the grid between two indices is among the pairs between
/// them.
proof fn lemma_entries_between_hold_each(grid: Map<u32, u8>, low: int, high: int, index: u32)
    requires
        low <= index <= high,
        grid.contains_key(index),
    ensures
        entries_between(grid, low, high).contains((index, grid[index])),
    decreases high - low + 1,
{
    let found = entries_between(grid, low, high);
    if index == high {
        assert(found.last() == (index, grid[index]));
    } else {
        lemma_entries_between_hold_each(grid, low, high - 1, index);
        let below = entries_between(grid, low, high - 1);
        let k = choose|k: int| 0 <= k < below.len() && below[k] == (index, grid[index]);
        assert(found[k] == (index, grid[index]));
    }
}

/// A range read returns the pairs of the grid whose index lies in the range:
/// all of them, nothing else, each once, in ascending order of index.
pub proof fn law_range_is_the_grid_in_order(grid: Map<u32, u8>, start: u32, end: u32)
    ensures
        is_ascending(range_with_scores(grid, start, end)),
        forall|k: int|
            0 <= k < range_with_scores(grid, start, end).len() ==> lies_between(
                grid,
                start as int,
                end as int,
                #[trigger] range_with_scores(grid, start, end)[k],
            ),
        forall|index: u32|
            start <= index <= end && #[trigger] grid.contains_key(index) ==> range_with_scores(
                grid,
                start,
                end,
            ).contains((index, grid[index])),
{
    lemma_entries_between(grid, start as int, end as int);
    assert forall|index: u32|
        start <= index <= end && #[trigger] grid.contains_key(index) implies range_with_scores(
        grid,
        start,
        end,
    ).contains((index, grid[index])) by {
        lemma_entries_between_hold_each(grid, start as int, end as int, index);
    }
}

/// Setting an index to the same score twice in a row leaves the grid as
/// setting it once does.
pub proof fn law_set_score_is_idempotent(grid: Map<u32, u8>, index: u32, score: u8)
    ensures
        after_set_score(after_set_score(grid, index, score), index, score) == after_set_score(
            grid,
            index,
            score,
        ),
{
    assert(after_set_score(after_set_score(grid, index, score), index, score) =~= after_set_score(
        grid,
        index,
        score,
    ));
}

/// A range read that follows a write and covers its index returns the pair
/// that was written, and the response written from it holds that pair's
/// entry.
pub proof fn law_range_reports_last_write(
    grid: Map<u32, u8>,
    index: u32,
    score: u8,
    start: u32,
    end: u32,
)
    requires
        start <= index <= end,
    ensures
        range_with_scores(after_set_score(grid, index, score), start, end).contains((index, score)),
        holds_entry(
            range_response_text(
                range_with_scores(after_set_score(grid, index, score), start, end),
            ),
            (index, score),
        ),
{
    let written = after_set_score(grid, index, score);
    let found = range_with_scores(written, start, end);
    lemma_entries_between_hold_each(written, start as int, end as int, index);
    let k = choose|k: int| 0 <= k < found.len() && found[k] == (index, score);
    lemma_response_holds_entry(found, k);
}

} // verus!
