use vstd::prelude::*;

verus! {

/// Speed of a note moving at the `Slow` rate, in units per second.
/// Positions are kept in thousandths of a unit and times in milliseconds,
/// so this is also the speed in milli-units per millisecond.
pub const BASE_SPEED: i64 = 200;

/// Horizontal coordinate where notes appear, in milli-units.
pub const SPAWN_POSITION: i64 = -400_000;

/// Horizontal coordinate of the target, in milli-units.
pub const TARGET_POSITION: i64 = 200_000;

/// Distance travelled from spawn to target, in milli-units.
pub const DISTANCE: i64 = 600_000;

/// Half-width of the hit window around the target, in milli-units.
pub const THRESHOLD: i64 = 20_000;

/// Pre-roll before the song's time zero, in milliseconds.
pub const START_OFFSET: i64 = 3000;

} // verus!
