use vstd::prelude::*;

use crate::consts::{SPAWN_POSITION, TARGET_POSITION, THRESHOLD};
use crate::types::{speed_value, ArrowTime};

verus! {

/// Horizontal coordinate of a note at song time `t`, in milli-units:
/// it leaves the spawn point at its spawn time and moves at its speed.
pub open spec fn arrow_position(a: ArrowTime, t: int) -> int {
    SPAWN_POSITION + speed_value(a.speed) * (t - a.spawn_time)
}

/// The hit window: within `THRESHOLD` of the target, both ends included.
pub open spec fn in_window(p: int) -> bool {
    TARGET_POSITION - THRESHOLD <= p <= TARGET_POSITION + THRESHOLD
}

/// Where a note is at song time `song_time` (milliseconds).
pub fn position(arrow: &ArrowTime, song_time: i64) -> (r: i128)
    ensures
        r == arrow_position(*arrow, song_time as int),
{
    let v = arrow.speed.value();
    let dt: i128 = song_time as i128 - arrow.spawn_time as i128;
    assert(-300 * 0x1_0000_0000_0000_0000 <= v * dt <= 300 * 0x1_0000_0000_0000_0000)
        by (nonlinear_arith)
        requires
            0 < v <= 300,
            -0x1_0000_0000_0000_0000 <= dt <= 0x1_0000_0000_0000_0000,
    ;
    SPAWN_POSITION as i128 + (v as i128) * dt
}

/// Whether position `p` lies in the hit window.
pub fn in_hit_window(p: i128) -> (r: bool)
    ensures
        r == in_window(p as int),
{
    TARGET_POSITION as i128 - THRESHOLD as i128 <= p && p <= TARGET_POSITION as i128
        + THRESHOLD as i128
}

/// The position of a note depends on the note and the time alone.
pub proof fn lemma_position_deterministic(a: ArrowTime, b: ArrowTime, t: int, u: int)
    requires
        a == b,
        t == u,
    ensures
        arrow_position(a, t) == arrow_position(b, u),
{
}

/// A note moves forward: its position strictly increases with time.
pub proof fn lemma_position_increasing(a: ArrowTime, t1: int, t2: int)
    requires
        t1 < t2,
    ensures
        arrow_position(a, t1) < arrow_position(a, t2),
{
    let v = speed_value(a.speed);
    assert(v > 0);
    assert(v * (t1 - a.spawn_time) < v * (t2 - a.spawn_time)) by (nonlinear_arith)
        requires
            v > 0,
            t1 < t2,
    ;
}

/// Both edges of the hit window belong to it.
pub proof fn lemma_window_edges()
    ensures
        in_window(TARGET_POSITION - THRESHOLD),
        in_window(TARGET_POSITION + THRESHOLD),
        !in_window(TARGET_POSITION - THRESHOLD - 1),
        !in_window(TARGET_POSITION + THRESHOLD + 1),
{
}

} // verus!
