//! Ordering rows by position: a stable ascending order, defined by placing
//! one row after another.

use crate::model::TrackView;
use vstd::prelude::*;

verus! {

/// Where a row with position `position` goes among rows whose positions are
/// `positions`: right after the last one whose position is not larger.
pub open spec fn slot_for(positions: Seq<u32>, position: u32) -> int
    decreases positions.len(),
{
    if positions.len() == 0 {
        0
    } else if positions.last() <= position {
        positions.len() as int
    } else {
        slot_for(positions.drop_last(), position)
    }
}

/// Whether `slot` is where `slot_for` puts a row.
pub open spec fn is_slot(positions: Seq<u32>, position: u32, slot: int) -> bool {
    &&& 0 <= slot <= positions.len()
    &&& forall|k: int| slot <= k < positions.len() ==> #[trigger] positions[k] > position
    &&& slot == 0 || positions[slot - 1] <= position
}

/// `slot_for` is the one index with nothing larger before it that is not
/// also at it or after it.
pub proof fn lemma_slot_for(positions: Seq<u32>, position: u32)
    ensures
        is_slot(positions, position, slot_for(positions, position)),
    decreases positions.len(),
{
    if positions.len() > 0 && positions.last() > position {
        let rest = positions.drop_last();
        lemma_slot_for(rest, position);
        let slot = slot_for(rest, position);
        assert forall|k: int| slot <= k < positions.len() implies #[trigger] positions[k]
            > position by {
            if k < rest.len() {
                assert(rest[k] == positions[k]);
            }
        }
        if slot > 0 {
            assert(rest[slot - 1] == positions[slot - 1]);
        }
    }
}

/// Only one index is a slot.
pub proof fn lemma_slot_unique(positions: Seq<u32>, position: u32, slot: int)
    requires
        is_slot(positions, position, slot),
    ensures
        slot_for(positions, position) == slot,
{
    lemma_slot_for(positions, position);
    let other = slot_for(positions, position);
    if other < slot {
        assert(positions[slot - 1] > position);
    } else if slot < other {
        assert(positions[other - 1] > position);
    }
}

/// A track of a playlist with the position of its entry.
pub type Row = (u32, TrackView);

/// The positions of a sequence of rows, in order.
pub open spec fn positions_of(rows: Seq<Row>) -> Seq<u32> {
    Seq::new(rows.len(), |i: int| rows[i].0)
}

/// The tracks of a sequence of rows, in order.
pub open spec fn tracks_of(rows: Seq<Row>) -> Seq<TrackView> {
    Seq::new(rows.len(), |i: int| rows[i].1)
}

/// The rows in ascending order of position; rows with one position keep the
/// order they came in.
pub open spec fn by_position(rows: Seq<Row>) -> Seq<Row>
    decreases rows.len(),
{
    if rows.len() == 0 {
        rows
    } else {
        let sorted = by_position(rows.drop_last());
        sorted.insert(slot_for(positions_of(sorted), rows.last().0), rows.last())
    }
}

/// Whether positions never decrease along `rows`.
pub open spec fn ascending(rows: Seq<Row>) -> bool {
    forall|i: int, j: int| 0 <= i < j < rows.len() ==> (#[trigger] rows[i]).0 <= (#[trigger] rows[j]).0
}

/// Whether positions increase along `rows`.
pub open spec fn strictly_ascending(rows: Seq<Row>) -> bool {
    forall|i: int, j: int| 0 <= i < j < rows.len() ==> (#[trigger] rows[i]).0 < (#[trigger] rows[j]).0
}

/// Whether no two rows share a position.
pub open spec fn distinct_positions(rows: Seq<Row>) -> bool {
    forall|i: int, j: int| 0 <= i < j < rows.len() ==> (#[trigger] rows[i]).0 != (#[trigger] rows[j]).0
}

/// `by_position` keeps every row, as often as it occurs, and adds none.
pub proof fn lemma_by_position_permutes(rows: Seq<Row>)
    ensures
        by_position(rows).len() == rows.len(),
        by_position(rows).to_multiset() == rows.to_multiset(),
    decreases rows.len(),
{
    broadcast use vstd::seq_lib::group_to_multiset_ensures;

    if rows.len() > 0 {
        let rest = rows.drop_last();
        lemma_by_position_permutes(rest);
        let sorted = by_position(rest);
        lemma_slot_for(positions_of(sorted), rows.last().0);
        assert(rows =~= rest.push(rows.last()));
    }
}

/// `by_position` yields ascending positions.
pub proof fn lemma_by_position_ascends(rows: Seq<Row>)
    ensures
        ascending(by_position(rows)),
    decreases rows.len(),
{
    if rows.len() > 0 {
        let sorted = by_position(rows.drop_last());
        let row = rows.last();
        lemma_by_position_ascends(rows.drop_last());
        lemma_slot_for(positions_of(sorted), row.0);
        let slot = slot_for(positions_of(sorted), row.0);
        let placed = sorted.insert(slot, row);
        assert forall|i: int, j: int| 0 <= i < j < placed.len() implies (#[trigger] placed[i]).0
            <= (#[trigger] placed[j]).0 by {
            lemma_placed_order(sorted, row, slot, i, j);
        }
    }
}

/// Two rows of an ascending sequence with one row placed at its slot stand
/// in ascending order, and the placed row stands before larger positions
/// only.
proof fn lemma_placed_order(sorted: Seq<Row>, row: Row, slot: int, i: int, j: int)
    requires
        ascending(sorted),
        is_slot(positions_of(sorted), row.0, slot),
        0 <= i < j < sorted.len() + 1,
    ensures
        sorted.insert(slot, row)[i].0 <= sorted.insert(slot, row)[j].0,
        i == slot ==> sorted.insert(slot, row)[i].0 < sorted.insert(slot, row)[j].0,
{
    let positions = positions_of(sorted);
    let placed = sorted.insert(slot, row);
    if i < slot {
        assert(placed[i] == sorted[i]);
        assert(positions[slot - 1] == sorted[slot - 1].0);
        if i < slot - 1 {
            assert(sorted[i].0 <= sorted[slot - 1].0);
        }
    } else if i > slot {
        assert(placed[i] == sorted[i - 1]);
    }
    if j < slot {
        assert(placed[j] == sorted[j]);
    } else if j > slot {
        assert(placed[j] == sorted[j - 1]);
        assert(positions[j - 1] == sorted[j - 1].0);
    }
}

/// Every row of `by_position(rows)` is a row of `rows`.
pub proof fn lemma_by_position_members(rows: Seq<Row>, i: int)
    requires
        0 <= i < by_position(rows).len(),
    ensures
        rows.contains(by_position(rows)[i]),
{
    broadcast use vstd::seq_lib::group_to_multiset_ensures;

    lemma_by_position_permutes(rows);
    let sorted = by_position(rows);
    assert(sorted.contains(sorted[i]));
    assert(sorted.to_multiset().count(sorted[i]) > 0);
}

/// Where no two rows share a position, `by_position` yields increasing
/// positions.
pub proof fn lemma_by_position_strictly_ascends(rows: Seq<Row>)
    requires
        distinct_positions(rows),
    ensures
        strictly_ascending(by_position(rows)),
    decreases rows.len(),
{
    if rows.len() > 0 {
        let rest = rows.drop_last();
        let sorted = by_position(rest);
        let row = rows.last();
        assert(distinct_positions(rest)) by {
            assert forall|i: int, j: int| 0 <= i < j < rest.len() implies (#[trigger] rest[i]).0
                != (#[trigger] rest[j]).0 by {
                assert(rest[i] == rows[i] && rest[j] == rows[j]);
            }
        }
        lemma_by_position_strictly_ascends(rest);
        lemma_by_position_ascends(rows);
        lemma_slot_for(positions_of(sorted), row.0);
        let slot = slot_for(positions_of(sorted), row.0);
        let placed = sorted.insert(slot, row);
        assert forall|i: int, j: int| 0 <= i < j < placed.len() implies (#[trigger] placed[i]).0
            < (#[trigger] placed[j]).0 by {
            lemma_placed_order(sorted, row, slot, i, j);
            if i != slot && j != slot {
                let a = if i < slot { i } else { i - 1 };
                let b = if j < slot { j } else { j - 1 };
                assert(placed[i] == sorted[a] && placed[j] == sorted[b]);
                assert(sorted[a].0 < sorted[b].0);
            } else if j == slot {
                assert(placed[i] == sorted[i]);
                lemma_by_position_members(rest, i);
                let m = choose|m: int| 0 <= m < rest.len() && rest[m] == sorted[i];
                assert(rows[m] == rest[m]);
                assert(rows[rows.len() - 1] == row);
                assert(rows[m].0 != rows[rows.len() - 1].0);
            }
        }
    }
}

/// A row whose position is larger than every position among `rows` comes
/// last.
pub proof fn lemma_largest_comes_last(rows: Seq<Row>, row: Row)
    requires
        forall|i: int| 0 <= i < rows.len() ==> (#[trigger] rows[i]).0 <= row.0,
    ensures
        by_position(rows.push(row)) == by_position(rows).push(row),
{
    let sorted = by_position(rows);
    let positions = positions_of(sorted);
    assert(rows.push(row).drop_last() =~= rows);
    lemma_by_position_permutes(rows);
    if sorted.len() > 0 {
        lemma_by_position_members(rows, sorted.len() - 1);
        let m = choose|m: int| 0 <= m < rows.len() && rows[m] == sorted[sorted.len() - 1];
        assert(rows[m].0 <= row.0);
        assert(positions.last() == sorted[sorted.len() - 1].0);
    }
    assert(slot_for(positions, row.0) == sorted.len());
    assert(sorted.insert(sorted.len() as int, row) =~= sorted.push(row));
}

} // verus!
