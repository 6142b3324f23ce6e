use vstd::prelude::*;

use crate::chart::{max_arrows, SongConfig};
use crate::consts::{START_OFFSET, TARGET_POSITION};
use crate::motion::{arrow_position, in_hit_window, in_window, position};
use crate::score::{lemma_points_range, points_for, ScoreResource, ScoreView};
use crate::types::{pressed_for, ArrowTime, Directions, KeyCode};

verus! {

/// Where a game stands.
#[derive(Clone, Copy, Debug, PartialEq, Eq, Structural)]
pub enum DriverState {
    /// The song's time zero has not come yet.
    NotStarted,
    /// Notes are pending or in play.
    Running,
    /// Every note has been judged; nothing changes any more.
    Finished,
}

/// A note in play: its index in the chart, the note, and where it was at the
/// last tick (milli-units).
#[derive(Clone, Copy, Debug, PartialEq, Eq, Structural)]
pub struct ActiveArrow {
    pub id: usize,
    pub arrow: ArrowTime,
    pub position: i128,
}

/// A note played inside the hit window: its index, lane, signed distance from
/// the target (milli-units) and the points it earned.
#[derive(Clone, Copy, Debug, PartialEq, Eq, Structural)]
pub struct Hit {
    pub id: usize,
    pub direction: Directions,
    pub distance: i64,
    pub points: usize,
}

/// What one tick did.
pub struct TickReport {
    /// The song's audio should start now.
    pub start_audio: bool,
    /// Chart indices of the notes that entered play, in chart order.
    pub activated: Vec<usize>,
    /// Notes played this tick.
    pub hits: Vec<Hit>,
    /// Chart indices of the notes that left the playfield unplayed.
    pub misses: Vec<usize>,
}

/// The state of a game: the chart, a cursor over the notes not yet in play,
/// the notes in play, the score and the song clock (milliseconds).
pub struct Engine {
    pub config: SongConfig,
    pub cursor: usize,
    pub active: Vec<ActiveArrow>,
    pub score: ScoreResource,
    pub song_time: i64,
    /// Start of the next tick's spawn interval.
    pub spawn_floor: i64,
    pub state: DriverState,
}

/// The song time after a tick at `elapsed` milliseconds of wall time: the
/// clock never runs backwards.
pub open spec fn next_time(song_time: int, elapsed: int) -> int {
    if elapsed - START_OFFSET > song_time {
        elapsed - START_OFFSET
    } else {
        song_time
    }
}

/// A note in play is hit when it is in the hit window and one of its keys is pressed.
pub open spec fn is_hit(a: ActiveArrow, t: int, pressed: Seq<KeyCode>) -> bool {
    in_window(arrow_position(a.arrow, t)) && pressed_for(a.arrow.direction, pressed)
}

/// A note that is not hit is missed once it has travelled past twice the target.
pub open spec fn is_miss(a: ActiveArrow, t: int, pressed: Seq<KeyCode>) -> bool {
    !is_hit(a, t, pressed) && arrow_position(a.arrow, t) >= 2 * TARGET_POSITION
}

/// The record of a hit on `a` at time `t`.
pub open spec fn hit_of(a: ActiveArrow, t: int) -> Hit {
    let d = arrow_position(a.arrow, t) - TARGET_POSITION;
    Hit { id: a.id, direction: a.arrow.direction, distance: d as i64, points: points_for(d) as usize }
}

/// `a` with its position at time `t`.
pub open spec fn moved(a: ActiveArrow, t: int) -> ActiveArrow {
    ActiveArrow { id: a.id, arrow: a.arrow, position: arrow_position(a.arrow, t) as i128 }
}

/// Judges the notes `s` at time `t`: the notes that stay in play (moved to
/// their new positions), the hits and the chart indices of the misses, each in
/// the order of `s`.
pub open spec fn judge(s: Seq<ActiveArrow>, t: int, pressed: Seq<KeyCode>) -> (Seq<ActiveArrow>, Seq<Hit>, Seq<usize>)
    decreases s.len(),
{
    if s.len() == 0 {
        (Seq::empty(), Seq::empty(), Seq::empty())
    } else {
        let r = judge(s.drop_last(), t, pressed);
        let a = s.last();
        if is_hit(a, t, pressed) {
            (r.0, r.1.push(hit_of(a, t)), r.2)
        } else if is_miss(a, t, pressed) {
            (r.0, r.1, r.2.push(a.id))
        } else {
            (r.0.push(moved(a, t)), r.1, r.2)
        }
    }
}

/// The sum of the points of `hits`.
pub open spec fn total_points(hits: Seq<Hit>) -> int
    decreases hits.len(),
{
    if hits.len() == 0 {
        0
    } else {
        total_points(hits.drop_last()) + hits.last().points
    }
}

/// Note `k` of the chart as it enters play.
pub open spec fn fresh(arrows: Seq<ArrowTime>, k: int) -> ActiveArrow {
    ActiveArrow { id: k as usize, arrow: arrows[k], position: 0 }
}

/// Notes `from` up to `to` of the chart as they enter play.
pub open spec fn arrivals(arrows: Seq<ArrowTime>, from: int, to: int) -> Seq<ActiveArrow> {
    Seq::new((to - from) as nat, |j: int| fresh(arrows, from + j))
}

/// Every note of `s` satisfies `p` on its index and note.
pub open spec fn all_notes(s: Seq<ActiveArrow>, p: spec_fn(usize, ArrowTime) -> bool) -> bool {
    forall|i: int| 0 <= i < s.len() ==> p((#[trigger] s[i]).id, s[i].arrow)
}

/// The notes of `s` come in strictly increasing chart order.
pub open spec fn ids_increasing(s: Seq<ActiveArrow>) -> bool {
    forall|i: int, j: int| 0 <= i < j < s.len() ==> s[i].id < s[j].id
}

/// Each note is judged once: it stays, or is hit, or is missed.
pub proof fn lemma_judge_len(s: Seq<ActiveArrow>, t: int, pressed: Seq<KeyCode>)
    ensures
        judge(s, t, pressed).0.len() + judge(s, t, pressed).1.len() + judge(s, t, pressed).2.len()
            == s.len(),
    decreases s.len(),
{
    if s.len() > 0 {
        lemma_judge_len(s.drop_last(), t, pressed);
    }
}

/// What holds of every note judged holds of every note that stays.
pub proof fn lemma_judge_keeps(
    s: Seq<ActiveArrow>,
    t: int,
    pressed: Seq<KeyCode>,
    p: spec_fn(usize, ArrowTime) -> bool,
)
    requires
        all_notes(s, p),
    ensures
        all_notes(judge(s, t, pressed).0, p),
    decreases s.len(),
{
    if s.len() > 0 {
        assert(all_notes(s.drop_last(), p)) by {
            assert forall|i: int| 0 <= i < s.drop_last().len() implies p(
                (#[trigger] s.drop_last()[i]).id,
                s.drop_last()[i].arrow,
            ) by {
                assert(s.drop_last()[i] == s[i]);
            }
        }
        lemma_judge_keeps(s.drop_last(), t, pressed, p);
        assert(p(s[s.len() - 1].id, s[s.len() - 1].arrow));
    }
}

/// The notes that stay keep their order.
pub proof fn lemma_judge_order(s: Seq<ActiveArrow>, t: int, pressed: Seq<KeyCode>)
    requires
        ids_increasing(s),
    ensures
        ids_increasing(judge(s, t, pressed).0),
    decreases s.len(),
{
    if s.len() > 0 {
        let d = s.drop_last();
        let last = s.last();
        lemma_judge_order(d, t, pressed);
        let p = |id: usize, a: ArrowTime| id < last.id;
        assert(all_notes(d, p));
        lemma_judge_keeps(d, t, pressed, p);
    }
}

/// Two successive ticks, the cursor moving from `c0` to `c1` and then to
/// `c2`, bring disjoint sets of notes into play: no note is activated twice.
pub proof fn lemma_activated_once(a: Seq<usize>, b: Seq<usize>, c0: int, c1: int, c2: int)
    requires
        0 <= c0 <= c1 <= c2 <= usize::MAX,
        a == Seq::new((c1 - c0) as nat, |j: int| (c0 + j) as usize),
        b == Seq::new((c2 - c1) as nat, |j: int| (c1 + j) as usize),
    ensures
        forall|i: int, j: int| 0 <= i < a.len() && 0 <= j < b.len() ==> a[i] != b[j],
        forall|i: int, j: int| 0 <= i < j < a.len() ==> a[i] != a[j],
{
}

/// A finished game has brought every note of its chart into play and judged
/// each of them once, as a hit or as a miss.
pub proof fn lemma_finished_exhausted(e: Engine)
    requires
        e.wf(),
        e.state == DriverState::Finished,
    ensures
        e.cursor == e.config.arrows@.len(),
        e.active@.len() == 0,
        e.score@.corrects + e.score@.fails == e.config.arrows@.len(),
{
}

/// A note in play that is not hit and has not passed twice the target stays
/// in play, moved, with no hit or miss for it: on the target without one of
/// its keys, it waits for a later tick.
pub proof fn lemma_unplayed_note_stays(a: ActiveArrow, t: int, pressed: Seq<KeyCode>)
    requires
        !pressed_for(a.arrow.direction, pressed),
        arrow_position(a.arrow, t) < 2 * TARGET_POSITION,
    ensures
        judge(seq![a], t, pressed) == (seq![moved(a, t)], Seq::<Hit>::empty(), Seq::<usize>::empty()),
{
    assert(seq![a].drop_last() =~= Seq::<ActiveArrow>::empty());
    assert(seq![a].last() == a);
    assert(judge(Seq::<ActiveArrow>::empty(), t, pressed) == (
        Seq::<ActiveArrow>::empty(),
        Seq::<Hit>::empty(),
        Seq::<usize>::empty(),
    ));
    assert(Seq::<ActiveArrow>::empty().push(moved(a, t)) =~= seq![moved(a, t)]);
}

/// A note on the target played with one of its keys is hit at distance 0 and
/// earns 100 points.
pub proof fn lemma_hit_on_target(a: ActiveArrow, t: int, pressed: Seq<KeyCode>)
    requires
        pressed_for(a.arrow.direction, pressed),
        arrow_position(a.arrow, t) == TARGET_POSITION,
    ensures
        judge(seq![a], t, pressed) == (Seq::<ActiveArrow>::empty(), seq![hit_of(a, t)], Seq::<usize>::empty()),
        hit_of(a, t).distance == 0,
        hit_of(a, t).points == 100,
        total_points(seq![hit_of(a, t)]) == 100,
{
    assert(seq![a].drop_last() =~= Seq::<ActiveArrow>::empty());
    assert(seq![a].last() == a);
    assert(judge(Seq::<ActiveArrow>::empty(), t, pressed) == (
        Seq::<ActiveArrow>::empty(),
        Seq::<Hit>::empty(),
        Seq::<usize>::empty(),
    ));
    assert(Seq::<Hit>::empty().push(hit_of(a, t)) =~= seq![hit_of(a, t)]);
    assert(seq![hit_of(a, t)].drop_last() =~= Seq::<Hit>::empty());
    assert(total_points(Seq::<Hit>::empty()) == 0);
    lemma_points_range(0);
}

/// A note at or past twice the target that is not hit is missed, whatever
/// the keys: no points, and its index is reported.
pub proof fn lemma_passed_note_missed(a: ActiveArrow, t: int, pressed: Seq<KeyCode>)
    requires
        !is_hit(a, t, pressed),
        arrow_position(a.arrow, t) >= 2 * TARGET_POSITION,
    ensures
        judge(seq![a], t, pressed) == (Seq::<ActiveArrow>::empty(), Seq::<Hit>::empty(), seq![a.id]),
{
    assert(seq![a].drop_last() =~= Seq::<ActiveArrow>::empty());
    assert(seq![a].last() == a);
    assert(judge(Seq::<ActiveArrow>::empty(), t, pressed) == (
        Seq::<ActiveArrow>::empty(),
        Seq::<Hit>::empty(),
        Seq::<usize>::empty(),
    ));
    assert(Seq::<usize>::empty().push(a.id) =~= seq![a.id]);
}

impl Engine {
    /// The engine invariant.
    pub open spec fn wf(&self) -> bool {
        &&& self.core_wf()
        &&& self.state != DriverState::NotStarted ==> self.spawn_floor == self.song_time
    }

    /// The engine invariant but for where the next spawn interval starts.
    pub open spec fn core_wf(&self) -> bool {
        let arrows = self.config.arrows@;
        let active = self.active@;
        &&& self.config.wf()
        &&& self.cursor <= arrows.len()
        &&& forall|i: int|
            0 <= i < active.len() ==> (#[trigger] active[i]).id < self.cursor && active[i].arrow
                == arrows[active[i].id as int]
        &&& ids_increasing(active)
        &&& forall|k: int| self.cursor <= k < arrows.len() ==> self.spawn_floor <= (
        #[trigger] arrows[k]).spawn_time
        &&& self.spawn_floor <= self.song_time
        &&& self.score@.corrects + self.score@.fails + active.len() == self.cursor
        &&& self.score@.score <= 100 * self.score@.corrects
        &&& self.state == DriverState::NotStarted ==> self.cursor == 0 && self.song_time < 0
        &&& self.state != DriverState::NotStarted ==> self.song_time >= 0
        &&& self.state == DriverState::Finished ==> self.cursor == arrows.len() && active.len() == 0
    }

    /// A game on `config`, before the pre-roll: the song clock starts at
    /// `-START_OFFSET`. No note enters play during the pre-roll, so the first
    /// spawn interval is open below: the first tick at or after time zero
    /// brings in every note whose spawn time has passed, negative ones included.
    pub fn new(config: SongConfig) -> (r: Engine)
        requires
            config.wf(),
        ensures
            r.wf(),
            r.config == config,
            r.cursor == 0,
            r.active@.len() == 0,
            r.score@ == (ScoreView { corrects: 0, fails: 0, score: 0 }),
            r.song_time == -START_OFFSET,
            r.state == DriverState::NotStarted,
    {
        Engine {
            config,
            cursor: 0,
            active: Vec::new(),
            score: ScoreResource::new(),
            song_time: -START_OFFSET,
            spawn_floor: i64::MIN,
            state: DriverState::NotStarted,
        }
    }

    /// Brings into play every pending note whose spawn time comes before `t`,
    /// in chart order; the next tick's interval starts at `t`.
    fn spawn_due(&mut self, t: i64) -> (activated: Vec<usize>)
        requires
            old(self).core_wf(),
            old(self).state == DriverState::Running,
            old(self).song_time == t,
        ensures
            final(self).wf(),
            final(self).config == old(self).config,
            final(self).score@ == old(self).score@,
            final(self).song_time == t,
            final(self).spawn_floor == t,
            final(self).state == old(self).state,
            old(self).cursor <= final(self).cursor <= old(self).config.arrows@.len(),
            forall|k: int|
                old(self).cursor <= k < final(self).cursor ==> (#[trigger] old(
                    self,
                ).config.arrows@[k]).spawn_time < t,
            final(self).cursor == old(self).config.arrows@.len() || t <= old(
                self,
            ).config.arrows@[final(self).cursor as int].spawn_time,
            final(self).active@ == old(self).active@ + arrivals(
                old(self).config.arrows@,
                old(self).cursor as int,
                final(self).cursor as int,
            ),
            activated@ == Seq::new(
                (final(self).cursor - old(self).cursor) as nat,
                |j: int| (old(self).cursor + j) as usize,
            ),
    {
        let ghost c0 = self.cursor as int;
        let ghost a0 = self.active@;
        let ghost arrows = self.config.arrows@;
        let mut activated: Vec<usize> = Vec::new();
        while self.cursor < self.config.arrows.len() && self.config.arrows[self.cursor].spawn_time
            < t
            invariant
                self.config.arrows@ == arrows,
                self.config == old(self).config,
                self.config.wf(),
                self.score@ == old(self).score@,
                self.song_time == t,
                self.spawn_floor == old(self).spawn_floor,
                self.state == old(self).state,
                c0 <= self.cursor <= arrows.len(),
                forall|k: int| c0 <= k < self.cursor ==> (#[trigger] arrows[k]).spawn_time < t,
                self.active@ == a0 + arrivals(arrows, c0, self.cursor as int),
                activated@ == Seq::new((self.cursor - c0) as nat, |j: int| (c0 + j) as usize),
                self.score@.corrects + self.score@.fails + self.active@.len() == self.cursor,
            decreases arrows.len() - self.cursor,
        {
            let a = self.config.arrows[self.cursor];
            self.active.push(ActiveArrow { id: self.cursor, arrow: a, position: 0 });
            activated.push(self.cursor);
            self.cursor = self.cursor + 1;
            proof {
                assert(arrivals(arrows, c0, self.cursor as int) =~= arrivals(
                    arrows,
                    c0,
                    self.cursor - 1,
                ).push(fresh(arrows, self.cursor - 1)));
                assert(activated@ =~= Seq::new(
                    (self.cursor - c0) as nat,
                    |j: int| (c0 + j) as usize,
                ));
            }
        }
        self.spawn_floor = t;
        proof {
            let act = self.active@;
            assert forall|i: int| 0 <= i < act.len() implies (#[trigger] act[i]).id < self.cursor
                && act[i].arrow == arrows[act[i].id as int] by {
                if i >= a0.len() {
                    assert(act[i] == fresh(arrows, c0 + i - a0.len()));
                } else {
                    assert(act[i] == a0[i]);
                }
            }
            assert forall|i: int, j: int| 0 <= i < j < act.len() implies act[i].id < act[j].id by {
                if i >= a0.len() {
                    assert(act[i] == fresh(arrows, c0 + i - a0.len()));
                    assert(act[j] == fresh(arrows, c0 + j - a0.len()));
                } else if j >= a0.len() {
                    assert(act[i] == a0[i]);
                    assert(act[j] == fresh(arrows, c0 + j - a0.len()));
                } else {
                    assert(act[i] == a0[i]);
                    assert(act[j] == a0[j]);
                }
            }
            assert forall|k: int| self.cursor <= k < arrows.len() implies t <= (
            #[trigger] arrows[k]).spawn_time by {
                assert(arrows[self.cursor as int].spawn_time <= arrows[k].spawn_time);
            }
        }
        activated
    }

    /// Judges the notes in play at the current song time: hits are scored,
    /// misses counted, and the others move on.
    fn judge_active(&mut self, pressed: &[KeyCode]) -> (r: (Vec<Hit>, Vec<usize>))
        requires
            old(self).wf(),
            old(self).state == DriverState::Running,
        ensures
            final(self).wf(),
            final(self).config == old(self).config,
            final(self).cursor == old(self).cursor,
            final(self).song_time == old(self).song_time,
            final(self).spawn_floor == old(self).spawn_floor,
            final(self).state == old(self).state,
            (final(self).active@, r.0@, r.1@) == judge(
                old(self).active@,
                old(self).song_time as int,
                pressed@,
            ),
            final(self).score@ == (ScoreView {
                corrects: old(self).score@.corrects + r.0@.len(),
                fails: old(self).score@.fails + r.1@.len(),
                score: (old(self).score@.score + total_points(r.0@)) as nat,
            }),
    {
        let t = self.song_time;
        let ghost s = self.active@;
        let ghost arrows = self.config.arrows@;
        let ghost sc0 = self.score@;
        let mut keep: Vec<ActiveArrow> = Vec::new();
        let mut hits: Vec<Hit> = Vec::new();
        let mut misses: Vec<usize> = Vec::new();
        let mut i: usize = 0;
        while i < self.active.len()
            invariant
                self.active@ == s,
                s == old(self).active@,
                self.config == old(self).config,
                self.cursor == old(self).cursor,
                self.spawn_floor == old(self).spawn_floor,
                self.state == old(self).state,
                self.config.arrows@ == arrows,
                self.config.wf(),
                self.cursor <= max_arrows(),
                self.song_time == t,
                0 <= i <= s.len(),
                judge(s.take(i as int), t as int, pressed@) == (keep@, hits@, misses@),
                self.score@.corrects == sc0.corrects + hits@.len(),
                self.score@.fails == sc0.fails + misses@.len(),
                self.score@.score == sc0.score + total_points(hits@),
                self.score@.score <= 100 * self.score@.corrects,
                self.score@.corrects + self.score@.fails + keep@.len() + (s.len() - i)
                    == self.cursor,
            decreases s.len() - i,
        {
            let a = self.active[i];
            proof {
                assert(s.take(i + 1).drop_last() =~= s.take(i as int));
                assert(s.take(i + 1).last() == a);
            }
            let pos = position(&a.arrow, t);
            if in_hit_window(pos) && a.arrow.direction.key_just_pressed(pressed) {
                let distance = (pos - TARGET_POSITION as i128) as i64;
                let points = self.score.increase_correct(distance);
                let ghost h0 = hits@;
                hits.push(
                    Hit { id: a.id, direction: a.arrow.direction, distance, points },
                );
                assert(hits@.drop_last() =~= h0);
            } else if pos >= 2 * TARGET_POSITION as i128 {
                self.score.increase_fails();
                misses.push(a.id);
            } else {
                keep.push(ActiveArrow { id: a.id, arrow: a.arrow, position: pos });
            }
            i = i + 1;
        }
        proof {
            assert(s.take(s.len() as int) =~= s);
            lemma_judge_order(s, t as int, pressed@);
            let cur = self.cursor;
            let p = |id: usize, x: ArrowTime| id < cur && x == arrows[id as int];
            assert forall|j: int| 0 <= j < s.len() implies p(
                (#[trigger] s[j]).id,
                s[j].arrow,
            ) by {
                assert(old(self).active@[j] == s[j]);
            }
            lemma_judge_keeps(s, t as int, pressed@, p);
        }
        self.active = keep;
        (hits, misses)
    }

    /// One step of the game at `elapsed` milliseconds of wall time, with the
    /// keys newly pressed since the last tick. The clock advances (never
    /// backwards); once the song time reaches zero the audio starts, due notes
    /// enter play, the notes in play are judged and scored, and the game ends
    /// when no note is pending or in play. A finished game does not change.
    /// A running game's spawn interval is `[previous song time, song time)`;
    /// the tick that starts the game brings in every note whose spawn time
    /// lies before its song time, those due during the pre-roll included.
    pub fn tick(&mut self, elapsed: i64, pressed: &[KeyCode]) -> (r: TickReport)
        requires
            old(self).wf(),
        ensures
            final(self).wf(),
            old(self).state == DriverState::Finished ==> *final(self) == *old(self),
            old(self).state == DriverState::Finished || next_time(
                old(self).song_time as int,
                elapsed as int,
            ) < 0 ==> {
                &&& !r.start_audio
                &&& r.activated@.len() == 0
                &&& r.hits@.len() == 0
                &&& r.misses@.len() == 0
            },
            old(self).state != DriverState::Finished ==> final(self).song_time == next_time(
                old(self).song_time as int,
                elapsed as int,
            ),
            final(self).config == old(self).config,
            r.start_audio <==> old(self).state == DriverState::NotStarted && final(self).state
                != DriverState::NotStarted,
            old(self).state == DriverState::NotStarted && final(self).song_time < 0 ==> {
                &&& final(self).state == DriverState::NotStarted
                &&& final(self).cursor == old(self).cursor
                &&& final(self).active@ == old(self).active@
                &&& final(self).score@ == old(self).score@
            },
            old(self).state != DriverState::Finished && final(self).song_time >= 0 ==> {
                let arrows = old(self).config.arrows@;
                let t = final(self).song_time as int;
                let c0 = old(self).cursor as int;
                let c1 = final(self).cursor as int;
                &&& c0 <= c1 <= arrows.len()
                &&& forall|k: int|
                    c0 <= k < c1 ==> old(self).spawn_floor <= (#[trigger] arrows[k]).spawn_time < t
                &&& c1 == arrows.len() || t <= arrows[c1].spawn_time
                &&& r.activated@ == Seq::new((c1 - c0) as nat, |j: int| (c0 + j) as usize)
                &&& (final(self).active@, r.hits@, r.misses@) == judge(
                    old(self).active@ + arrivals(arrows, c0, c1),
                    t,
                    pressed@,
                )
                &&& final(self).score@ == (ScoreView {
                    corrects: old(self).score@.corrects + r.hits@.len(),
                    fails: old(self).score@.fails + r.misses@.len(),
                    score: (old(self).score@.score + total_points(r.hits@)) as nat,
                })
                &&& final(self).spawn_floor == t
                &&& old(self).state == DriverState::Running ==> forall|k: int|
                    c0 <= k < c1 ==> old(self).song_time <= (#[trigger] arrows[k]).spawn_time < t
                &&& final(self).state == if c1 == arrows.len() && final(self).active@.len() == 0 {
                    DriverState::Finished
                } else {
                    DriverState::Running
                }
            },
    {
        let mut report = TickReport {
            start_audio: false,
            activated: Vec::new(),
            hits: Vec::new(),
            misses: Vec::new(),
        };
        if self.state == DriverState::Finished {
            return report;
        }
        let t: i64 = if elapsed >= i64::MIN + START_OFFSET && elapsed - START_OFFSET
            > self.song_time {
            elapsed - START_OFFSET
        } else {
            self.song_time
        };
        self.song_time = t;
        if self.state == DriverState::NotStarted {
            if t < 0 {
                return report;
            }
            self.state = DriverState::Running;
            report.start_audio = true;
        }
        report.activated = self.spawn_due(t);
        let (hits, misses) = self.judge_active(pressed);
        report.hits = hits;
        report.misses = misses;
        if self.cursor == self.config.arrows.len() && self.active.len() == 0 {
            self.state = DriverState::Finished;
        }
        report
    }

    pub fn state(&self) -> (r: DriverState)
        ensures
            r == self.state,
    {
        self.state
    }
}

} // verus!
