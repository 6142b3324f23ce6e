use vstd::prelude::*;

use crate::types::{lemma_travel_time, arrow_of, spawn_time_of, ArrowTime, ArrowTimeToml, MIN_CLICK_TIME};

verus! {

broadcast use vstd::seq_lib::group_to_multiset_ensures;

/// Most notes that a chart may hold, so that a score of 100 points per note
/// fits in a `usize`.
pub open spec fn max_arrows() -> int {
    usize::MAX as int / 100
}

/// Why a chart could not be built.
#[derive(Clone, Copy, Debug, PartialEq, Eq, Structural)]
pub enum ChartError {
    /// The chart or its audio asset could not be read.
    IO,
    /// The chart does not have the expected shape.
    Malformed,
}

/// Notes in non-decreasing order of spawn time.
pub open spec fn sorted_by_spawn(s: Seq<ArrowTime>) -> bool {
    forall|i: int, j: int| 0 <= i <= j < s.len() ==> s[i].spawn_time <= s[j].spawn_time
}

/// An authored entry whose spawn time can be represented.
pub open spec fn valid_entry(e: ArrowTimeToml) -> bool {
    MIN_CLICK_TIME <= e.click_time
}

/// The notes made from authored entries, in authored order.
pub open spec fn arrows_of(entries: Seq<ArrowTimeToml>) -> Seq<ArrowTime> {
    entries.map_values(|e: ArrowTimeToml| arrow_of(e))
}

/// The notes of `s` that spawn at time `v`, in the order of `s`.
pub open spec fn with_spawn(s: Seq<ArrowTime>, v: int) -> Seq<ArrowTime>
    decreases s.len(),
{
    if s.len() == 0 {
        s
    } else if s.last().spawn_time == v {
        with_spawn(s.drop_last(), v).push(s.last())
    } else {
        with_spawn(s.drop_last(), v)
    }
}

proof fn lemma_with_spawn_push(s: Seq<ArrowTime>, a: ArrowTime, v: int)
    ensures
        with_spawn(s.push(a), v) == if a.spawn_time == v {
            with_spawn(s, v).push(a)
        } else {
            with_spawn(s, v)
        },
{
    assert(s.push(a).drop_last() =~= s);
}

/// Inserting `a` before the notes that spawn after it puts it last among
/// the notes of its spawn time.
proof fn lemma_with_spawn_insert(s: Seq<ArrowTime>, k: int, a: ArrowTime, v: int)
    requires
        0 <= k <= s.len(),
        forall|j: int| k <= j < s.len() ==> (#[trigger] s[j]).spawn_time > a.spawn_time,
    ensures
        with_spawn(s.insert(k, a), v) == if a.spawn_time == v {
            with_spawn(s, v).push(a)
        } else {
            with_spawn(s, v)
        },
    decreases s.len(),
{
    if k == s.len() {
        assert(s.insert(k, a) =~= s.push(a));
        lemma_with_spawn_push(s, a, v);
    } else {
        let d = s.drop_last();
        assert(s.insert(k, a) =~= d.insert(k, a).push(s.last()));
        assert(s =~= d.push(s.last()));
        lemma_with_spawn_insert(d, k, a, v);
        lemma_with_spawn_push(d.insert(k, a), s.last(), v);
        lemma_with_spawn_push(d, s.last(), v);
    }
}

/// A song: its name, its audio asset and its notes in order of spawn time.
pub struct SongConfig {
    pub name: String,
    pub filename: String,
    pub arrows: Vec<ArrowTime>,
}

impl SongConfig {
    /// The chart invariant: notes sorted by spawn time, and few enough.
    pub open spec fn wf(&self) -> bool {
        &&& sorted_by_spawn(self.arrows@)
        &&& self.arrows@.len() <= max_arrows()
    }

    /// Builds a chart from authored entries: each gets its spawn time, and the
    /// notes are sorted by it, entries with equal spawn times keeping their order.
    /// Fails with `Malformed` only where the chart cannot be represented: more
    /// than `max_arrows()` entries, or a click time before `MIN_CLICK_TIME`.
    pub fn from_entries(name: String, filename: String, entries: &Vec<ArrowTimeToml>) -> (r:
        Result<SongConfig, ChartError>)
        ensures
            r.is_ok() <==> entries@.len() <= max_arrows() && forall|i: int|
                0 <= i < entries@.len() ==> valid_entry(#[trigger] entries@[i]),
            r is Err ==> r == Err::<SongConfig, ChartError>(ChartError::Malformed),
            r matches Ok(c) ==> {
                &&& c.wf()
                &&& c.name == name
                &&& c.filename == filename
                &&& c.arrows@.to_multiset() == arrows_of(entries@).to_multiset()
                &&& forall|v: int| #[trigger]
                    with_spawn(c.arrows@, v) == with_spawn(arrows_of(entries@), v)
            },
    {
        if entries.len() > usize::MAX / 100 {
            return Err(ChartError::Malformed);
        }
        let mut arrows: Vec<ArrowTime> = Vec::new();
        let mut i: usize = 0;
        while i < entries.len()
            invariant
                0 <= i <= entries@.len() <= max_arrows(),
                arrows@.len() == i,
                sorted_by_spawn(arrows@),
                arrows@.to_multiset() == arrows_of(entries@.take(i as int)).to_multiset(),
                forall|v: int| #[trigger]
                    with_spawn(arrows@, v) == with_spawn(arrows_of(entries@.take(i as int)), v),
                forall|j: int| 0 <= j < i ==> valid_entry(#[trigger] entries@[j]),
            decreases entries@.len() - i,
        {
            let e = &entries[i];
            if e.click_time < MIN_CLICK_TIME {
                return Err(ChartError::Malformed);
            }
            let a = ArrowTime::new(e);
            // insert after every note that spawns no later
            let mut k: usize = 0;
            while k < arrows.len() && arrows[k].spawn_time <= a.spawn_time
                invariant
                    0 <= k <= arrows@.len(),
                    forall|j: int| 0 <= j < k ==> (#[trigger] arrows@[j]).spawn_time
                        <= a.spawn_time,
                decreases arrows@.len() - k,
            {
                k = k + 1;
            }
            proof {
                assert(sorted_by_spawn(arrows@));
                vstd::seq_lib::to_multiset_insert(arrows@, k as int, a);
                assert(entries@.take(i + 1) == entries@.take(i as int).push(entries@[i as int]));
                assert(arrows_of(entries@.take(i + 1)) == arrows_of(entries@.take(i as int)).push(a));
                vstd::seq_lib::to_multiset_build(arrows_of(entries@.take(i as int)), a);
            }
            let ghost before = arrows@;
            arrows.insert(k, a);
            proof {
                assert forall|v: int| #[trigger]
                    with_spawn(arrows@, v) == with_spawn(arrows_of(entries@.take(i + 1)), v) by {
                    assert forall|j: int| k <= j < before.len() implies (
                    #[trigger] before[j]).spawn_time > a.spawn_time by {
                        assert(before[k as int].spawn_time <= before[j].spawn_time);
                    }
                    lemma_with_spawn_insert(before, k as int, a, v);
                    lemma_with_spawn_push(arrows_of(entries@.take(i as int)), a, v);
                }
                assert forall|x: int, y: int| 0 <= x <= y < arrows@.len() implies arrows@[x].spawn_time
                    <= arrows@[y].spawn_time by {
                    if x < k && y > k {
                        assert(before[x].spawn_time <= before[y - 1].spawn_time);
                    }
                    if x == k && y > k {
                        assert(k < before.len());
                        assert(before[k as int].spawn_time <= before[y - 1].spawn_time);
                    }
                    if x > k {
                        assert(before[x - 1].spawn_time <= before[y - 1].spawn_time);
                    }
                }
            }
            i = i + 1;
        }
        assert(entries@.take(entries@.len() as int) == entries@);
        Ok(SongConfig { name, filename, arrows })
    }
}

/// Every note of a built chart spawns early enough to reach the target at
/// its click time, and the notes come in non-decreasing spawn time.
pub proof fn lemma_chart_spawn_times(c: SongConfig, entries: Seq<ArrowTimeToml>, k: int)
    requires
        c.wf(),
        c.arrows@.to_multiset() == arrows_of(entries).to_multiset(),
        forall|i: int| 0 <= i < entries.len() ==> valid_entry(#[trigger] entries[i]),
        0 <= k < c.arrows@.len(),
    ensures
        exists|i: int|
            0 <= i < entries.len() && c.arrows@[k].spawn_time == spawn_time_of(
                (#[trigger] entries[i]).click_time as int,
                entries[i].speed,
            ) && c.arrows@[k].speed == entries[i].speed && c.arrows@[k].direction
                == entries[i].direction,
        k + 1 < c.arrows@.len() ==> c.arrows@[k].spawn_time <= c.arrows@[k + 1].spawn_time,
{
    let a = c.arrows@[k];
    assert(c.arrows@.to_multiset().count(a) > 0);
    assert(arrows_of(entries).contains(a));
    let i = choose|i: int| 0 <= i < arrows_of(entries).len() && arrows_of(entries)[i] == a;
    assert(arrows_of(entries)[i] == arrow_of(entries[i]));
    assert(valid_entry(entries[i]));
    lemma_travel_time(entries[i].speed);
}

} // verus!
