use vstd::prelude::*;

use crate::consts::{BASE_SPEED, DISTANCE};

verus! {

/// Lane of a note; each lane is played with one of two keys.
#[derive(Clone, Copy, Debug, PartialEq, Eq, Structural)]
pub enum Directions {
    Up,
    Down,
    Left,
    Right,
}

/// Logical keys handed to the engine by the host, each tick.
#[derive(Clone, Copy, Debug, PartialEq, Eq, Structural)]
pub enum KeyCode {
    Up,
    Down,
    Left,
    Right,
    D,
    F,
    J,
    K,
}

/// The two keys that play a lane.
pub open spec fn accepts(d: Directions, k: KeyCode) -> bool {
    match d {
        Directions::Up => k == KeyCode::Up || k == KeyCode::D,
        Directions::Down => k == KeyCode::Down || k == KeyCode::F,
        Directions::Left => k == KeyCode::Left || k == KeyCode::J,
        Directions::Right => k == KeyCode::Right || k == KeyCode::K,
    }
}

/// Some key of `pressed` plays lane `d`.
pub open spec fn pressed_for(d: Directions, pressed: Seq<KeyCode>) -> bool {
    exists|i: int| 0 <= i < pressed.len() && accepts(d, #[trigger] pressed[i])
}

/// Vertical coordinate of a lane, in milli-units.
pub open spec fn lane_y(d: Directions) -> int {
    match d {
        Directions::Up => 150_000,
        Directions::Down => 50_000,
        Directions::Left => -50_000,
        Directions::Right => -150_000,
    }
}

impl Directions {
    fn accepts_key(&self, k: KeyCode) -> (r: bool)
        ensures
            r == accepts(*self, k),
    {
        match self {
            Directions::Up => k == KeyCode::Up || k == KeyCode::D,
            Directions::Down => k == KeyCode::Down || k == KeyCode::F,
            Directions::Left => k == KeyCode::Left || k == KeyCode::J,
            Directions::Right => k == KeyCode::Right || k == KeyCode::K,
        }
    }

    /// Checks if a key that corresponds to this direction has been pressed.
    pub fn key_just_pressed(&self, pressed: &[KeyCode]) -> (r: bool)
        ensures
            r == pressed_for(*self, pressed@),
    {
        let mut i: usize = 0;
        while i < pressed.len()
            invariant
                0 <= i <= pressed@.len(),
                forall|j: int| 0 <= j < i ==> !accepts(*self, #[trigger] pressed@[j]),
            decreases pressed@.len() - i,
        {
            if self.accepts_key(pressed[i]) {
                return true;
            }
            i = i + 1;
        }
        false
    }

    /// Vertical coordinate of this lane, in milli-units.
    pub fn y(&self) -> (r: i64)
        ensures
            r == lane_y(*self),
    {
        match self {
            Directions::Up => 150_000,
            Directions::Down => 50_000,
            Directions::Left => -50_000,
            Directions::Right => -150_000,
        }
    }
}

/// Travel rate of a note.
#[derive(Clone, Copy, Debug, PartialEq, Eq, Structural)]
pub enum Speed {
    Slow,
    Medium,
    Fast,
}

/// Speed multiplier, in percent.
pub open spec fn speed_multiplier(s: Speed) -> int {
    match s {
        Speed::Slow => 100,
        Speed::Medium => 120,
        Speed::Fast => 150,
    }
}

/// Speed of a note, in milli-units per millisecond.
pub open spec fn speed_value(s: Speed) -> int {
    (BASE_SPEED as int) * speed_multiplier(s) / 100
}

impl Speed {
    /// Return the actual speed at which the arrow should move.
    pub fn value(&self) -> (r: i64)
        ensures
            r == speed_value(*self),
            r > 0,
    {
        BASE_SPEED * self.multiplier() / 100
    }

    /// Speed multiplier, in percent.
    pub fn multiplier(&self) -> (r: i64)
        ensures
            r == speed_multiplier(*self),
    {
        match self {
            Speed::Slow => 100,
            Speed::Medium => 120,
            Speed::Fast => 150,
        }
    }
}

/// Time a note takes from the spawn point to the target, in milliseconds.
pub proof fn lemma_travel_time(s: Speed)
    ensures
        (DISTANCE as int) / speed_value(s) == match s {
            Speed::Slow => 3000int,
            Speed::Medium => 2500int,
            Speed::Fast => 2000int,
        },
        DISTANCE as int % speed_value(s) == 0,
{
    match s {
        Speed::Slow => assert(speed_value(s) == 200),
        Speed::Medium => assert(speed_value(s) == 240),
        Speed::Fast => assert(speed_value(s) == 300),
    }
}

/// Earliest click time whose spawn time is still an `i64`: the slowest
/// note travels `DISTANCE / BASE_SPEED` milliseconds.
pub const MIN_CLICK_TIME: i64 = i64::MIN + 3000;

/// When a note must appear so that it reaches the target at `click_time`.
pub open spec fn spawn_time_of(click_time: int, speed: Speed) -> int {
    click_time - (DISTANCE as int) / speed_value(speed)
}

/// A note as authored: the time it should be played, in milliseconds.
#[derive(Clone, Copy, Debug, PartialEq, Eq, Structural)]
pub struct ArrowTimeToml {
    pub click_time: i64,
    pub speed: Speed,
    pub direction: Directions,
}

/// A note of a chart: the time it enters play, in milliseconds.
#[derive(Clone, Copy, Debug, PartialEq, Eq, Structural)]
pub struct ArrowTime {
    pub spawn_time: i64,
    pub speed: Speed,
    pub direction: Directions,
}

/// The chart note made from an authored entry.
pub open spec fn arrow_of(e: ArrowTimeToml) -> ArrowTime {
    ArrowTime {
        spawn_time: spawn_time_of(e.click_time as int, e.speed) as i64,
        speed: e.speed,
        direction: e.direction,
    }
}

impl ArrowTime {
    pub fn new(arrow_toml: &ArrowTimeToml) -> (r: Self)
        requires
            MIN_CLICK_TIME <= arrow_toml.click_time,
        ensures
            r == arrow_of(*arrow_toml),
            r.spawn_time == spawn_time_of(arrow_toml.click_time as int, arrow_toml.speed),
    {
        proof {
            lemma_travel_time(arrow_toml.speed);
        }
        let speed_value = arrow_toml.speed.value();
        ArrowTime {
            spawn_time: arrow_toml.click_time - DISTANCE / speed_value,
            speed: arrow_toml.speed,
            direction: arrow_toml.direction,
        }
    }
}

} // verus!
