//! Match-wide state that is part of every rollback snapshot.
use vstd::prelude::*;

verus! {

/// Kills credited to player 0 and to player 1.
#[derive(Clone, Copy, Debug, PartialEq, Eq, Structural)]
pub struct Scores(pub u32, pub u32);

/// The coarse game phase; it turns to `Respawn` on any kill.
#[derive(Clone, Copy, Debug, PartialEq, Eq, Structural)]
pub enum RollbackState {
    Playing,
    Respawn,
}

/// The handle of the player on this machine.
#[derive(Clone, Copy, Debug, PartialEq, Eq, Structural)]
pub struct LocalPlayerHandle(pub usize);

impl Default for Scores {
    fn default() -> (r: Scores)
        ensures
            r == Scores(0, 0),
    {
        Scores(0, 0)
    }
}

impl Default for RollbackState {
    fn default() -> (r: RollbackState)
        ensures
            r == RollbackState::Playing,
    {
        RollbackState::Playing
    }
}

} // verus!
