use crate::grid::{scored_count, Cell, Grid, Position, Status};
use crate::leaderboard::{Leaderboard, Score};
use crate::selection::{hovered, resolved, DragGesture};
use crate::timer::{after_tick, RoundTimer, ROUND_NANOS};
use vstd::prelude::*;

verus! {

/// The start of the rectangle that a drag-over of `pos` spans: the start of the drag under way,
/// or `pos` itself when none is under way.
pub open spec fn drag_origin(gesture: DragGesture, pos: Position) -> Position {
    match gesture {
        DragGesture::Dragging { start } => start,
        _ => pos,
    }
}

/// Whether `pos` names a cell of the board that is already scored.
pub open spec fn over_scored(g: Grid, pos: Position) -> bool {
    &&& pos.col < g.cols
    &&& pos.row < g.rows
    &&& g.cells@[pos.col * g.rows + pos.row].status == Status::Scored
}

/// The board after the once-per-frame update: resolved when the drag has just ended.
pub open spec fn updated_cells(cells: Seq<Cell>, gesture: DragGesture) -> Seq<Cell> {
    if gesture == DragGesture::Ended {
        resolved(cells)
    } else {
        cells
    }
}

/// The gesture after the once-per-frame update: an ended drag is cleared.
pub open spec fn updated_gesture(gesture: DragGesture) -> DragGesture {
    if gesture == DragGesture::Ended {
        DragGesture::NotDragging
    } else {
        gesture
    }
}

/// Everything that lives only while a round is played: the board, the drag, the countdown.
pub struct RoundContext {
    pub grid: Grid,
    pub gesture: DragGesture,
    pub timer: RoundTimer,
}

impl RoundContext {
    pub open spec fn wf(&self) -> bool {
        self.grid.wf()
    }

    /// A round on `grid`, with no drag under way and a full countdown.
    pub fn new(grid: Grid) -> (rc: RoundContext)
        requires
            grid.wf(),
        ensures
            rc.wf(),
            rc.grid == grid,
            rc.gesture == DragGesture::NotDragging,
            rc.timer.remaining == ROUND_NANOS,
    {
        RoundContext { grid, gesture: DragGesture::NotDragging, timer: RoundTimer::new() }
    }

    /// The pointer started a drag on the cell at `pos`; any earlier gesture is dropped.
    pub fn drag_start(&mut self, pos: Position)
        ensures
            final(self).gesture == (DragGesture::Dragging { start: pos }),
            final(self).grid == old(self).grid,
            final(self).timer == old(self).timer,
    {
        self.gesture = DragGesture::Dragging { start: pos };
    }

    /// The pointer dragged over the cell at `pos`. The drag keeps its start; without a drag
    /// under way, `pos` becomes the start. When the cell at `pos` is scored it cannot serve as a
    /// corner and the selection stays as it is; otherwise the cells that are not scored are
    /// selected exactly when they lie in the rectangle from the drag's start to `pos`.
    pub fn drag_over(&mut self, pos: Position)
        requires
            old(self).wf(),
        ensures
            final(self).wf(),
            final(self).gesture == (DragGesture::Dragging {
                start: drag_origin(old(self).gesture, pos),
            }),
            final(self).grid.cols == old(self).grid.cols,
            final(self).grid.rows == old(self).grid.rows,
            final(self).grid.cells@ == if over_scored(old(self).grid, pos) {
                old(self).grid.cells@
            } else {
                hovered(old(self).grid.cells@, drag_origin(old(self).gesture, pos), pos)
            },
            final(self).timer == old(self).timer,
    {
        let start = match self.gesture.start() {
            Some(start) => start,
            None => pos,
        };
        self.gesture = DragGesture::Dragging { start };
        let on_scored = match self.grid.cell(pos.col, pos.row) {
            Some(c) => c.status == Status::Scored,
            None => false,
        };
        if !on_scored {
            self.grid.select_rect(start, pos);
        }
    }

    /// The pointer released the drag. The selection is resolved by the next `update_cells`.
    pub fn drag_end(&mut self)
        ensures
            final(self).gesture == DragGesture::Ended,
            final(self).grid == old(self).grid,
            final(self).timer == old(self).timer,
    {
        self.gesture = DragGesture::Ended;
    }

    /// The once-per-frame update, after the frame's pointer events: when the drag has ended,
    /// the selection is resolved exactly once and the gesture is cleared.
    pub fn update_cells(&mut self)
        requires
            old(self).wf(),
        ensures
            final(self).wf(),
            final(self).grid.cols == old(self).grid.cols,
            final(self).grid.rows == old(self).grid.rows,
            final(self).grid.cells@ == updated_cells(old(self).grid.cells@, old(self).gesture),
            final(self).gesture == updated_gesture(old(self).gesture),
            final(self).timer == old(self).timer,
    {
        if self.gesture == DragGesture::Ended {
            self.grid.resolve_selection();
            self.gesture = DragGesture::NotDragging;
        }
    }

    /// The score so far: the number of scored cells.
    pub fn score_so_far(&self) -> (n: usize)
        requires
            self.wf(),
        ensures
            n == scored_count(self.grid.cells@),
            n <= self.grid.cols * self.grid.rows,
    {
        self.grid.scored_count()
    }

    /// Advances the countdown by a frame of `delta` nanoseconds. When it runs out, the number of
    /// scored cells at that instant is appended to `leaderboard` as the round's result, which is
    /// returned; otherwise the leaderboard is left as it is.
    pub fn update_timer(&mut self, delta: u64, leaderboard: &mut Leaderboard) -> (result: Option<
        Score,
    >)
        requires
            old(self).wf(),
            old(leaderboard).wf(),
            old(leaderboard).scores@.len() < usize::MAX,
        ensures
            final(self).wf(),
            final(leaderboard).wf(),
            final(self).timer.remaining == after_tick(old(self).timer.remaining as nat, delta as nat),
            final(self).grid == old(self).grid,
            final(self).gesture == old(self).gesture,
            result is Some <==> final(self).timer.remaining == 0,
            result matches Some(s) ==> {
                &&& s == (Score {
                    id: (old(leaderboard).scores@.len() + 1) as usize,
                    score: scored_count(old(self).grid.cells@) as usize,
                })
                &&& 0 <= scored_count(old(self).grid.cells@) <= old(self).grid.cols * old(
                    self,
                ).grid.rows
                &&& final(leaderboard).scores@ == old(leaderboard).scores@.push(s)
            },
            result is None ==> final(leaderboard).scores@ == old(leaderboard).scores@,
    {
        if self.timer.tick(delta) {
            let score = self.score_so_far();
            Some(leaderboard.record(score))
        } else {
            None
        }
    }
}

} // verus!
