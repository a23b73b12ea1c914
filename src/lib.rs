pub mod grid;
pub mod leaderboard;
pub mod round;
pub mod selection;
pub mod state;
pub mod timer;
