use vstd::prelude::*;

use crate::consts::THRESHOLD;

verus! {

/// Points earned by a hit `distance` milli-units away from the target:
/// the closeness to the target as a percentage, truncated, at least 10.
pub open spec fn points_for(distance: int) -> int {
    let a = if distance < 0 { -distance } else { distance };
    if a >= THRESHOLD {
        10
    } else {
        let p = (THRESHOLD - a) * 100 / (THRESHOLD as int);
        if p < 10 { 10 } else { p }
    }
}

/// The counters of a game, as numbers.
pub struct ScoreView {
    pub corrects: nat,
    pub fails: nat,
    pub score: nat,
}

/// Counts of hits and misses, and the points earned.
pub struct ScoreResource {
    corrects: usize,
    fails: usize,
    score: usize,
}

impl View for ScoreResource {
    type V = ScoreView;

    closed spec fn view(&self) -> ScoreView {
        ScoreView {
            corrects: self.corrects as nat,
            fails: self.fails as nat,
            score: self.score as nat,
        }
    }
}

impl ScoreResource {
    /// A score with no hits and no misses.
    pub fn new() -> (r: Self)
        ensures
            r@ == (ScoreView { corrects: 0, fails: 0, score: 0 }),
    {
        ScoreResource { corrects: 0, fails: 0, score: 0 }
    }

    /// Counts a hit `distance` milli-units away from the target (signed),
    /// adds its points to the score and returns them.
    pub fn increase_correct(&mut self, distance: i64) -> (r: usize)
        requires
            old(self)@.corrects < usize::MAX,
            old(self)@.score + 100 <= usize::MAX,
        ensures
            r == points_for(distance as int),
            10 <= r <= 100,
            final(self)@ == (ScoreView {
                corrects: old(self)@.corrects + 1,
                fails: old(self)@.fails,
                score: old(self)@.score + r as nat,
            }),
    {
        self.corrects = self.corrects + 1;
        let points: usize = if distance <= -THRESHOLD || distance >= THRESHOLD {
            10
        } else {
            let a: i64 = if distance < 0 { -distance } else { distance };
            let p: i64 = (THRESHOLD - a) * 100 / THRESHOLD;
            if p < 10 { 10 } else { p as usize }
        };
        self.score = self.score + points;
        points
    }

    /// Counts a miss.
    pub fn increase_fails(&mut self)
        requires
            old(self)@.fails < usize::MAX,
        ensures
            final(self)@ == (ScoreView {
                corrects: old(self)@.corrects,
                fails: old(self)@.fails + 1,
                score: old(self)@.score,
            }),
    {
        self.fails = self.fails + 1;
    }

    pub fn score(&self) -> (r: usize)
        ensures
            r == self@.score,
    {
        self.score
    }

    pub fn corrects(&self) -> (r: usize)
        ensures
            r == self@.corrects,
    {
        self.corrects
    }

    pub fn fails(&self) -> (r: usize)
        ensures
            r == self@.fails,
    {
        self.fails
    }
}

impl Default for ScoreResource {
    fn default() -> (r: Self)
        ensures
            r@ == (ScoreView { corrects: 0, fails: 0, score: 0 }),
    {
        ScoreResource::new()
    }
}

/// A hit on the target earns full points, a hit at either edge of the
/// hit window earns the floor of 10, and every hit earns from 10 to 100.
pub proof fn lemma_points_range(distance: int)
    ensures
        points_for(0) == 100,
        points_for(THRESHOLD as int) == 10,
        points_for(-THRESHOLD) == 10,
        10 <= points_for(distance) <= 100,
{
    let a = if distance < 0 { -distance } else { distance };
    if a < THRESHOLD {
        assert((THRESHOLD - a) * 100 / (THRESHOLD as int) <= 100) by (nonlinear_arith)
            requires 0 <= a < THRESHOLD, THRESHOLD == 20_000;
    }
}

} // verus!
