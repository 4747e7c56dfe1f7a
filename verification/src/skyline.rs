//! The skyline: which rows of a column a sequence of samples paints.
//!
//! A column is painted from the bottom row upwards. The horizon is the lowest
//! row not painted yet; it starts at the bottom row. A sample whose projected
//! row lies on the screen and above the horizon paints the rows from the
//! horizon up to, but not including, its own row, and its row becomes the
//! horizon. Any other sample paints nothing. Row zero is the top of the
//! screen, so "above" means a smaller row index.

use vstd::prelude::*;
use vstd::set_lib::{lemma_int_range, set_int_range};

verus! {

/// Whether a sample projected to row `y` is seen over horizon `horizon`.
pub open spec fn visible(horizon: int, y: int) -> bool {
    0 <= y < horizon
}

/// The horizon after a sample projected to row `y`.
pub open spec fn raised(horizon: int, y: int) -> int {
    if visible(horizon, y) {
        y
    } else {
        horizon
    }
}

/// The horizon after the samples projected to `rows`, in order, on a screen
/// of `screen_height` rows.
pub open spec fn skyline(rows: Seq<int>, screen_height: int) -> int
    decreases rows.len(),
{
    if rows.len() == 0 {
        screen_height - 1
    } else {
        raised(skyline(rows.drop_last(), screen_height), rows.last())
    }
}

/// Whether sample `k` paints row `row`: it is seen over the horizon that the
/// samples before it left, and the row lies between its own row (excluded)
/// and that horizon (included).
pub open spec fn paints(rows: Seq<int>, screen_height: int, k: int, row: int) -> bool {
    &&& 0 <= k < rows.len()
    &&& 0 <= rows[k] < row <= skyline(rows.take(k), screen_height)
}

/// The first sample projected to a screen row above `row`, if there is one.
pub open spec fn first_hit(rows: Seq<int>, row: int) -> Option<int>
    decreases rows.len(),
{
    if rows.len() == 0 {
        None
    } else {
        match first_hit(rows.drop_last(), row) {
            Some(k) => Some(k),
            None => if 0 <= rows.last() < row {
                Some(rows.len() - 1)
            } else {
                None
            },
        }
    }
}

/// The skyline after one more sample.
pub proof fn lemma_skyline_push(rows: Seq<int>, screen_height: int, y: int)
    ensures
        skyline(rows.push(y), screen_height) == raised(skyline(rows, screen_height), y),
{
    assert(rows.push(y).drop_last() =~= rows);
}

/// The first hit of a row after one more sample.
pub proof fn lemma_first_hit_push(rows: Seq<int>, row: int, y: int)
    ensures
        first_hit(rows.push(y), row) == match first_hit(rows, row) {
            Some(k) => Some(k),
            None => if 0 <= y < row {
                Some(rows.len() as int)
            } else {
                None
            },
        },
{
    assert(rows.push(y).drop_last() =~= rows);
}

/// The skyline stays on the screen.
pub proof fn lemma_skyline_on_screen(rows: Seq<int>, screen_height: int)
    requires
        screen_height >= 1,
    ensures
        0 <= skyline(rows, screen_height) < screen_height,
    decreases rows.len(),
{
    if rows.len() > 0 {
        lemma_skyline_on_screen(rows.drop_last(), screen_height);
    }
}

/// Horizon monotonicity: the horizon never moves back down. After more
/// samples it is at most what it was after fewer.
pub proof fn lemma_skyline_never_falls(rows: Seq<int>, screen_height: int, fewer: int, more: int)
    requires
        0 <= fewer <= more <= rows.len(),
    ensures
        skyline(rows.take(more), screen_height) <= skyline(rows.take(fewer), screen_height),
    decreases more - fewer,
{
    if fewer < more {
        lemma_skyline_never_falls(rows, screen_height, fewer, more - 1);
        assert(rows.take(more).drop_last() =~= rows.take(more - 1));
    }
}

/// What `first_hit` finds is the least index of a sample projected to a
/// screen row above `row`; it finds nothing only if there is no such sample.
pub proof fn lemma_first_hit_least(rows: Seq<int>, row: int)
    ensures
        match first_hit(rows, row) {
            Some(k) => {
                &&& 0 <= k < rows.len()
                &&& 0 <= rows[k] < row
                &&& forall|j: int| 0 <= j < k ==> !(0 <= #[trigger] rows[j] < row)
            },
            None => forall|j: int| 0 <= j < rows.len() ==> !(0 <= #[trigger] rows[j] < row),
        },
    decreases rows.len(),
{
    if rows.len() > 0 {
        lemma_first_hit_least(rows.drop_last(), row);
        assert(forall|j: int| 0 <= j < rows.len() - 1 ==> rows.drop_last()[j] == rows[j]);
    }
}

/// A row of the screen has a hit exactly when it lies below the skyline.
pub proof fn lemma_hit_iff_below_skyline(rows: Seq<int>, screen_height: int, row: int)
    requires
        0 <= row < screen_height,
    ensures
        first_hit(rows, row).is_some() <==> skyline(rows, screen_height) < row,
    decreases rows.len(),
{
    if rows.len() > 0 {
        lemma_hit_iff_below_skyline(rows.drop_last(), screen_height, row);
    }
}

/// The first hit of a row is the sample that paints it.
pub proof fn lemma_first_hit_paints(rows: Seq<int>, screen_height: int, row: int, k: int)
    requires
        0 <= row < screen_height,
    ensures
        first_hit(rows, row) == Some(k) <==> paints(rows, screen_height, k, row),
    decreases rows.len(),
{
    if rows.len() > 0 {
        let front = rows.drop_last();
        lemma_first_hit_paints(front, screen_height, row, k);
        lemma_hit_iff_below_skyline(front, screen_height, row);
        lemma_first_hit_least(front, row);
        if 0 <= k < rows.len() {
            assert(rows.take(k) =~= front.take(k));
            assert(rows.take(rows.len() - 1) =~= front);
            if k < rows.len() - 1 {
                assert(front[k] == rows[k]);
            }
        }
    }
}

/// No row is painted twice: at most one sample paints any given row.
pub proof fn lemma_painted_once(rows: Seq<int>, screen_height: int, row: int, j: int, k: int)
    requires
        0 <= row < screen_height,
        paints(rows, screen_height, j, row),
        paints(rows, screen_height, k, row),
    ensures
        j == k,
{
    lemma_first_hit_paints(rows, screen_height, row, j);
    lemma_first_hit_paints(rows, screen_height, row, k);
}

/// The rows of the screen that the samples paint.
pub open spec fn painted_rows(rows: Seq<int>, screen_height: int) -> Set<int> {
    Set::new(|row: int| 0 <= row < screen_height && first_hit(rows, row).is_some())
}

/// Bounded writes: the painted rows are exactly the rows below the skyline.
/// However many samples there are, fewer rows than the screen has are
/// painted, and by `lemma_painted_once` each of them once.
pub proof fn lemma_painted_rows_bounded(rows: Seq<int>, screen_height: int)
    requires
        screen_height >= 1,
    ensures
        painted_rows(rows, screen_height) == set_int_range(
            skyline(rows, screen_height) + 1,
            screen_height,
        ),
        painted_rows(rows, screen_height).finite(),
        painted_rows(rows, screen_height).len() == screen_height - 1 - skyline(rows, screen_height),
        painted_rows(rows, screen_height).len() < screen_height,
{
    let top = skyline(rows, screen_height);
    lemma_skyline_on_screen(rows, screen_height);
    assert forall|row: int|
        painted_rows(rows, screen_height).contains(row) == set_int_range(
            top + 1,
            screen_height,
        ).contains(row) by {
        if 0 <= row < screen_height {
            lemma_hit_iff_below_skyline(rows, screen_height, row);
        }
    }
    assert(painted_rows(rows, screen_height) =~= set_int_range(top + 1, screen_height));
    lemma_int_range(top + 1, screen_height);
}

/// Hits are final: a row that has a hit among the first samples keeps that
/// hit whatever samples follow.
pub proof fn lemma_first_hit_stable(rows: Seq<int>, shorter: int, row: int)
    requires
        0 <= shorter <= rows.len(),
        first_hit(rows.take(shorter), row).is_some(),
    ensures
        first_hit(rows, row) == first_hit(rows.take(shorter), row),
    decreases rows.len() - shorter,
{
    if shorter < rows.len() {
        assert(rows.take(shorter + 1).drop_last() =~= rows.take(shorter));
        lemma_first_hit_stable(rows, shorter + 1, row);
    } else {
        assert(rows.take(shorter) =~= rows);
    }
}

} // verus!
