use crate::grid::{build_cells, scored_count, Grid, Status, COLS, ROWS};
use crate::leaderboard::{Leaderboard, Score};
use crate::round::{updated_cells, updated_gesture, RoundContext};
use crate::selection::DragGesture;
use crate::timer::{after_tick, ROUND_NANOS};
use vstd::prelude::*;

verus! {

#[derive(Clone, Copy, Debug, PartialEq, Eq, Structural)]
pub enum GameState {
    MainMenu,
    Playing,
    Leaderboard,
}

impl Default for GameState {
    fn default() -> (s: GameState)
        ensures
            s == GameState::MainMenu,
    {
        GameState::MainMenu
    }
}

/// The whole game: the current screen, the round under way while playing, and the results of
/// the session's rounds.
pub struct Game {
    pub state: GameState,
    pub round: Option<RoundContext>,
    pub leaderboard: Leaderboard,
}

impl Game {
    /// A round exists exactly while playing; it is played on a `COLS` x `ROWS` board, and its
    /// countdown has not yet run out.
    pub open spec fn wf(&self) -> bool {
        &&& self.leaderboard.wf()
        &&& (self.state == GameState::Playing) == (self.round is Some)
        &&& self.round matches Some(rc) ==> {
            &&& rc.wf()
            &&& rc.grid.cols == COLS
            &&& rc.grid.rows == ROWS
            &&& rc.timer.remaining > 0
        }
    }

    /// A game on the main menu, with no results yet.
    pub fn new() -> (g: Game)
        ensures
            g.wf(),
            g.state == GameState::MainMenu,
            g.leaderboard.scores@.len() == 0,
    {
        Game { state: GameState::MainMenu, round: None, leaderboard: Leaderboard::new() }
    }

    /// Starts a round on `grid`, unless one is under way: the game moves to `Playing` with no
    /// drag under way and a full countdown. The results are kept.
    pub fn start_round(&mut self, grid: Grid)
        requires
            old(self).wf(),
            grid.wf(),
            grid.cols == COLS,
            grid.rows == ROWS,
        ensures
            final(self).wf(),
            final(self).leaderboard == old(self).leaderboard,
            final(self).state == GameState::Playing,
            old(self).state == GameState::Playing ==> final(self).round == old(self).round,
            old(self).state != GameState::Playing ==> (final(self).round matches Some(rc) && rc.grid
                == grid && rc.gesture == DragGesture::NotDragging && rc.timer.remaining
                == ROUND_NANOS),
    {
        if self.state != GameState::Playing {
            self.round = Some(RoundContext::new(grid));
            self.state = GameState::Playing;
        }
    }

    /// The countdown step of a frame of `delta` nanoseconds. While playing, the countdown
    /// advances; when it runs out, the number of scored cells at that instant is recorded as the
    /// round's result, the round is discarded and the game moves to `Leaderboard`. Returns
    /// whether the round ended. On other screens the countdown is frozen and nothing changes.
    pub fn update_timer(&mut self, delta: u64) -> (ended: bool)
        requires
            old(self).wf(),
            old(self).leaderboard.scores@.len() < usize::MAX,
        ensures
            final(self).wf(),
            old(self).state != GameState::Playing ==> !ended && final(self).state == old(
                self,
            ).state && final(self).round == old(self).round && final(self).leaderboard == old(
                self,
            ).leaderboard,
            old(self).round matches Some(rc) ==> {
                let remaining = after_tick(rc.timer.remaining as nat, delta as nat);
                &&& ended == (rc.timer.remaining > 0 && remaining == 0)
                &&& ended ==> {
                    &&& final(self).state == GameState::Leaderboard
                    &&& final(self).round is None
                    &&& final(self).leaderboard.scores@ == old(self).leaderboard.scores@.push(
                        Score {
                            id: (old(self).leaderboard.scores@.len() + 1) as usize,
                            score: scored_count(rc.grid.cells@) as usize,
                        },
                    )
                    &&& 0 <= scored_count(rc.grid.cells@) <= COLS * ROWS
                }
                &&& !ended ==> {
                    &&& final(self).state == GameState::Playing
                    &&& final(self).leaderboard.scores@ == old(self).leaderboard.scores@
                    &&& (final(self).round matches Some(next) && next.grid == rc.grid
                        && next.gesture == rc.gesture && next.timer.remaining == remaining)
                }
            },
    {
        if self.state != GameState::Playing {
            return false;
        }
        let mut rc = match self.round.take() {
            Some(rc) => rc,
            None => {
                return false;
            },
        };
        match rc.update_timer(delta, &mut self.leaderboard) {
            Some(_) => {
                self.state = GameState::Leaderboard;
                true
            },
            None => {
                self.round = Some(rc);
                false
            },
        }
    }

    /// One frame of `delta` nanoseconds, after the frame's pointer events: while playing, the
    /// selection is updated, then the countdown advances as `update_timer` describes. On other
    /// screens nothing changes.
    pub fn frame(&mut self, delta: u64) -> (ended: bool)
        requires
            old(self).wf(),
            old(self).leaderboard.scores@.len() < usize::MAX,
        ensures
            final(self).wf(),
            old(self).state != GameState::Playing ==> !ended && final(self).state == old(
                self,
            ).state && final(self).round == old(self).round && final(self).leaderboard == old(
                self,
            ).leaderboard,
            old(self).round matches Some(rc) ==> {
                let cells = updated_cells(rc.grid.cells@, rc.gesture);
                let remaining = after_tick(rc.timer.remaining as nat, delta as nat);
                &&& ended == (remaining == 0)
                &&& ended ==> {
                    &&& final(self).state == GameState::Leaderboard
                    &&& final(self).round is None
                    &&& final(self).leaderboard.scores@ == old(self).leaderboard.scores@.push(
                        Score {
                            id: (old(self).leaderboard.scores@.len() + 1) as usize,
                            score: scored_count(cells) as usize,
                        },
                    )
                    &&& 0 <= scored_count(cells) <= COLS * ROWS
                }
                &&& !ended ==> {
                    &&& final(self).state == GameState::Playing
                    &&& final(self).leaderboard.scores@ == old(self).leaderboard.scores@
                    &&& (final(self).round matches Some(next) && next.grid.cells@ == cells
                        && next.gesture == updated_gesture(rc.gesture) && next.timer.remaining
                        == remaining)
                }
            },
    {
        if self.state != GameState::Playing {
            return false;
        }
        let mut rc = match self.round.take() {
            Some(rc) => rc,
            None => {
                return false;
            },
        };
        rc.update_cells();
        self.round = Some(rc);
        self.update_timer(delta)
    }
}

/// The player asked to play: from the main menu or the leaderboard a round starts on a fresh
/// board of random values, every cell `Default`. While playing nothing changes.
pub fn play(game: &mut Game)
    requires
        old(game).wf(),
    ensures
        final(game).wf(),
        final(game).state == GameState::Playing,
        final(game).leaderboard == old(game).leaderboard,
        old(game).state == GameState::Playing ==> final(game).round == old(game).round,
        old(game).state != GameState::Playing ==> (final(game).round matches Some(rc)
            && rc.gesture == DragGesture::NotDragging && rc.timer.remaining == ROUND_NANOS
            && forall|i: int|
            0 <= i < rc.grid.cells@.len() ==> (#[trigger] rc.grid.cells@[i]).status
                == Status::Default),
{
    if game.state != GameState::Playing {
        let grid = build_cells();
        game.start_round(grid);
    }
}

} // verus!
