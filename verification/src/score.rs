//! The score: one point for every enemy that dies.

use vstd::prelude::*;

verus! {

#[derive(Clone, Copy, Debug, PartialEq, Eq, Structural)]
pub struct Score {
    pub value: u32,
}

impl Score {
    /// The score at the start of a game.
    pub fn new() -> (score: Score)
        ensures
            score.value == 0,
    {
        Score { value: 0 }
    }

    /// Counts the death of one enemy.
    pub fn enemy_died(&mut self)
        requires
            old(self).value < u32::MAX,
        ensures
            final(self).value == old(self).value + 1,
    {
        self.value += 1;
    }
}

} // verus!
