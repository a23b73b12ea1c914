use crate::grid::{scored_count, selected_sum, Cell, Grid, Position, Status};
use vstd::prelude::*;

verus! {

/// The sum that a selection must reach to be scored.
pub const TARGET_SUM: usize = 10;

/// The life of one drag: none under way, one started at `start`, or one that has just ended.
#[derive(Clone, Copy, Debug, PartialEq, Eq, Structural)]
pub enum DragGesture {
    NotDragging,
    Dragging { start: Position },
    Ended,
}

impl DragGesture {
    /// The cell where the drag under way started, if one is under way.
    pub fn start(&self) -> (r: Option<Position>)
        ensures
            r == (match *self {
                DragGesture::Dragging { start } => Some(start),
                _ => None,
            }),
    {
        match self {
            DragGesture::Dragging { start } => Some(*start),
            _ => None,
        }
    }
}

pub open spec fn between(x: usize, a: usize, b: usize) -> bool {
    if a <= b {
        a <= x <= b
    } else {
        b <= x <= a
    }
}

/// Whether the cell lies in the rectangle spanned by the corners `a` and `b`, both included.
pub open spec fn in_rect(c: Cell, a: Position, b: Position) -> bool {
    between(c.col, a.col, b.col) && between(c.row, a.row, b.row)
}

/// Status of a cell while the pointer spans the rectangle `a`..`b`: scored cells stay scored,
/// the others are selected exactly when they lie inside.
pub open spec fn hover_status(c: Cell, a: Position, b: Position) -> Status {
    if c.status == Status::Scored {
        Status::Scored
    } else if in_rect(c, a, b) {
        Status::Selected
    } else {
        Status::Default
    }
}

/// The board once the pointer spans the rectangle `a`..`b`.
pub open spec fn hovered(cells: Seq<Cell>, a: Position, b: Position) -> Seq<Cell> {
    Seq::new(cells.len(), |i: int| cells[i].with_status(hover_status(cells[i], a, b)))
}

/// Status of a cell once a selection is resolved: selected cells are scored when the selection
/// `matched` the target sum and fall back to `Default` otherwise; other cells keep their status.
pub open spec fn resolved_status(c: Cell, matched: bool) -> Status {
    if c.status == Status::Selected {
        if matched {
            Status::Scored
        } else {
            Status::Default
        }
    } else {
        c.status
    }
}

/// The board once the current selection is resolved against the target sum.
pub open spec fn resolved(cells: Seq<Cell>) -> Seq<Cell> {
    let matched = selected_sum(cells) == TARGET_SUM;
    Seq::new(cells.len(), |i: int| cells[i].with_status(resolved_status(cells[i], matched)))
}

impl Grid {
    /// Selects every cell that is not scored and lies in the rectangle spanned by `a` and `b`;
    /// every other cell that is not scored goes back to `Default`.
    pub fn select_rect(&mut self, a: Position, b: Position)
        requires
            old(self).wf(),
        ensures
            final(self).wf(),
            final(self).cols == old(self).cols,
            final(self).rows == old(self).rows,
            final(self).cells@ == hovered(old(self).cells@, a, b),
    {
        let (col_lo, col_hi) = if a.col <= b.col {
            (a.col, b.col)
        } else {
            (b.col, a.col)
        };
        let (row_lo, row_hi) = if a.row <= b.row {
            (a.row, b.row)
        } else {
            (b.row, a.row)
        };
        let ghost before = self.cells@;
        let mut i: usize = 0;
        while i < self.cells.len()
            invariant
                self.cols == old(self).cols,
                self.rows == old(self).rows,
                before == old(self).cells@,
                self.cells@.len() == before.len(),
                i <= before.len(),
                forall|j: int| 0 <= j < i ==> #[trigger] self.cells@[j] == hovered(before, a, b)[j],
                forall|j: int| i <= j < before.len() ==> #[trigger] self.cells@[j] == before[j],
                col_lo == if a.col <= b.col { a.col } else { b.col },
                col_hi == if a.col <= b.col { b.col } else { a.col },
                row_lo == if a.row <= b.row { a.row } else { b.row },
                row_hi == if a.row <= b.row { b.row } else { a.row },
            decreases before.len() - i,
        {
            let c = self.cells[i];
            if c.status != Status::Scored {
                let inside = col_lo <= c.col && c.col <= col_hi && row_lo <= c.row && c.row
                    <= row_hi;
                let status = if inside {
                    Status::Selected
                } else {
                    Status::Default
                };
                self.cells.set(i, Cell { col: c.col, row: c.row, value: c.value, status });
            }
            i += 1;
        }
        assert(self.cells@ =~= hovered(before, a, b));
        assert forall|j: int| 0 <= j < self.cells@.len() implies #[trigger] self.cells@[j].placed_at(
            j,
            self.rows as int,
        ) by {
            assert(before[j].placed_at(j, self.rows as int));
        }
    }

    /// Resolves the current selection: when the selected values sum to `TARGET_SUM` the selected
    /// cells become `Scored`, otherwise they go back to `Default`. Returns whether they matched.
    pub fn resolve_selection(&mut self) -> (matched: bool)
        requires
            old(self).wf(),
        ensures
            final(self).wf(),
            final(self).cols == old(self).cols,
            final(self).rows == old(self).rows,
            matched == (selected_sum(old(self).cells@) == TARGET_SUM),
            final(self).cells@ == resolved(old(self).cells@),
    {
        let total = self.selected_total();
        let matched = total == TARGET_SUM;
        let ghost before = self.cells@;
        let mut i: usize = 0;
        while i < self.cells.len()
            invariant
                self.cols == old(self).cols,
                self.rows == old(self).rows,
                before == old(self).cells@,
                matched == (selected_sum(before) == TARGET_SUM),
                self.cells@.len() == before.len(),
                i <= before.len(),
                forall|j: int| 0 <= j < i ==> #[trigger] self.cells@[j] == resolved(before)[j],
                forall|j: int| i <= j < before.len() ==> #[trigger] self.cells@[j] == before[j],
            decreases before.len() - i,
        {
            let c = self.cells[i];
            if c.status == Status::Selected {
                let status = if matched {
                    Status::Scored
                } else {
                    Status::Default
                };
                self.cells.set(i, Cell { col: c.col, row: c.row, value: c.value, status });
            }
            i += 1;
        }
        assert(self.cells@ =~= resolved(before));
        assert forall|j: int| 0 <= j < self.cells@.len() implies #[trigger] self.cells@[j].placed_at(
            j,
            self.rows as int,
        ) by {
            assert(before[j].placed_at(j, self.rows as int));
        }
        matched
    }
}

proof fn lemma_nothing_selected_sums_to_zero(cells: Seq<Cell>)
    requires
        forall|i: int| 0 <= i < cells.len() ==> (#[trigger] cells[i]).status != Status::Selected,
    ensures
        selected_sum(cells) == 0,
    decreases cells.len(),
{
    if cells.len() > 0 {
        lemma_nothing_selected_sums_to_zero(cells.drop_last());
    }
}

/// A drag whose rectangle holds selected values summing to `TARGET_SUM` scores, once resolved,
/// every cell of the rectangle and no cell outside it; making the same drag again afterwards
/// leaves the board as it is.
pub proof fn lemma_matching_drag_scores_rectangle(cells: Seq<Cell>, a: Position, b: Position)
    requires
        selected_sum(hovered(cells, a, b)) == TARGET_SUM,
    ensures
        ({
            let after = resolved(hovered(cells, a, b));
            &&& after.len() == cells.len()
            &&& forall|i: int|
                0 <= i < cells.len() && in_rect(cells[i], a, b) ==> (#[trigger] after[i]).status
                    == Status::Scored
            &&& forall|i: int|
                0 <= i < cells.len() && !in_rect(cells[i], a, b) ==> ((#[trigger] after[i]).status
                    == Status::Scored <==> cells[i].status == Status::Scored)
            &&& resolved(hovered(after, a, b)) == after
        }),
{
    let h = hovered(cells, a, b);
    let after = resolved(h);
    let h2 = hovered(after, a, b);
    assert forall|i: int| 0 <= i < h2.len() implies (#[trigger] h2[i]).status
        != Status::Selected by {
        assert(after[i].status != Status::Selected);
        assert(in_rect(after[i], a, b) == in_rect(cells[i], a, b));
    }
    lemma_nothing_selected_sums_to_zero(h2);
    assert(resolved(h2) =~= h2);
    assert forall|i: int| 0 <= i < h2.len() implies #[trigger] h2[i] == after[i] by {
        assert(in_rect(after[i], a, b) == in_rect(cells[i], a, b));
    }
    assert(h2 =~= after);
}

/// A drag whose rectangle holds selected values not summing to `TARGET_SUM` changes, once
/// resolved, no scored cell and leaves every other cell `Default`.
pub proof fn lemma_unmatched_drag_reverts(cells: Seq<Cell>, a: Position, b: Position)
    requires
        selected_sum(hovered(cells, a, b)) != TARGET_SUM,
    ensures
        ({
            let after = resolved(hovered(cells, a, b));
            &&& after.len() == cells.len()
            &&& forall|i: int|
                0 <= i < cells.len() ==> #[trigger] after[i] == cells[i].with_status(
                    if cells[i].status == Status::Scored {
                        Status::Scored
                    } else {
                        Status::Default
                    },
                )
        }),
{
}

/// Number of `Selected` cells.
pub open spec fn selected_count(cells: Seq<Cell>) -> int
    decreases cells.len(),
{
    if cells.len() == 0 {
        0
    } else {
        selected_count(cells.drop_last()) + if cells.last().status == Status::Selected {
            1int
        } else {
            0
        }
    }
}

proof fn lemma_scoring_adds_selected(h: Seq<Cell>, after: Seq<Cell>)
    requires
        after.len() == h.len(),
        forall|i: int|
            0 <= i < h.len() ==> (#[trigger] after[i]).status == if h[i].status
                == Status::Selected {
                Status::Scored
            } else {
                h[i].status
            },
    ensures
        scored_count(after) == scored_count(h) + selected_count(h),
    decreases h.len(),
{
    if h.len() > 0 {
        let (h0, a0) = (h.drop_last(), after.drop_last());
        assert forall|i: int| 0 <= i < h0.len() implies (#[trigger] a0[i]).status == if h0[i].status
            == Status::Selected {
            Status::Scored
        } else {
            h0[i].status
        } by {
            assert(a0[i] == after[i] && h0[i] == h[i]);
        }
        lemma_scoring_adds_selected(h0, a0);
        assert(after[h.len() - 1].status == after.last().status);
    }
}

proof fn lemma_same_scored_cells(cells: Seq<Cell>, other: Seq<Cell>)
    requires
        other.len() == cells.len(),
        forall|i: int|
            0 <= i < cells.len() ==> ((#[trigger] other[i]).status == Status::Scored) == (
            cells[i].status == Status::Scored),
    ensures
        scored_count(other) == scored_count(cells),
    decreases cells.len(),
{
    if cells.len() > 0 {
        let (c0, o0) = (cells.drop_last(), other.drop_last());
        assert forall|i: int| 0 <= i < c0.len() implies ((#[trigger] o0[i]).status
            == Status::Scored) == (c0[i].status == Status::Scored) by {
            assert(o0[i] == other[i] && c0[i] == cells[i]);
        }
        lemma_same_scored_cells(c0, o0);
        assert(other[cells.len() - 1].status == other.last().status);
    }
}

/// A drag whose rectangle holds selected values summing to `TARGET_SUM` raises the number of
/// scored cells, once resolved, by exactly the number of cells it selected: the cells of the
/// rectangle that were not yet scored.
pub proof fn lemma_matching_drag_raises_score(cells: Seq<Cell>, a: Position, b: Position)
    requires
        selected_sum(hovered(cells, a, b)) == TARGET_SUM,
    ensures
        scored_count(resolved(hovered(cells, a, b))) == scored_count(cells) + selected_count(
            hovered(cells, a, b),
        ),
        forall|i: int|
            0 <= i < cells.len() ==> ((#[trigger] hovered(cells, a, b)[i]).status
                == Status::Selected) == (in_rect(cells[i], a, b) && cells[i].status
                != Status::Scored),
{
    let h = hovered(cells, a, b);
    lemma_same_scored_cells(cells, h);
    lemma_scoring_adds_selected(h, resolved(h));
}

} // verus!
