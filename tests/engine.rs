use rhythm_engine::chart::{ChartError, SongConfig};
use rhythm_engine::consts::{START_OFFSET, TARGET_POSITION, THRESHOLD};
use rhythm_engine::engine::{DriverState, Engine};
use rhythm_engine::motion::{in_hit_window, position};
use rhythm_engine::score::ScoreResource;
use rhythm_engine::types::{ArrowTime, ArrowTimeToml, Directions, KeyCode, Speed, MIN_CLICK_TIME};

fn entry(click_time: i64, speed: Speed, direction: Directions) -> ArrowTimeToml {
    ArrowTimeToml { click_time, speed, direction }
}

fn engine_with(entries: Vec<ArrowTimeToml>) -> Engine {
    let config = SongConfig::from_entries("song".to_string(), "song.ogg".to_string(), &entries)
        .unwrap();
    Engine::new(config)
}

/// Wall time at which the song clock reads `song_time`.
fn wall(song_time: i64) -> i64 {
    song_time + START_OFFSET
}

#[test]
fn speed_values() {
    assert_eq!(Speed::Slow.value(), 200);
    assert_eq!(Speed::Medium.value(), 240);
    assert_eq!(Speed::Fast.value(), 300);
    assert_eq!(Speed::Medium.multiplier(), 120);
}

#[test]
fn spawn_time_per_speed() {
    let slow = ArrowTime::new(&entry(5000, Speed::Slow, Directions::Up));
    let medium = ArrowTime::new(&entry(5000, Speed::Medium, Directions::Down));
    let fast = ArrowTime::new(&entry(5000, Speed::Fast, Directions::Left));
    assert_eq!(slow.spawn_time, 2000);
    assert_eq!(medium.spawn_time, 2500);
    assert_eq!(fast.spawn_time, 3000);
}

#[test]
fn chart_sorted_by_spawn_time() {
    let entries = vec![
        entry(5000, Speed::Fast, Directions::Up),
        entry(5000, Speed::Slow, Directions::Down),
        entry(1000, Speed::Medium, Directions::Left),
        entry(4500, Speed::Slow, Directions::Right),
    ];
    let c = SongConfig::from_entries("a".to_string(), "a.ogg".to_string(), &entries).unwrap();
    let times: Vec<i64> = c.arrows.iter().map(|a| a.spawn_time).collect();
    assert_eq!(times, vec![-1500, 1500, 2000, 3000]);
    assert_eq!(c.arrows[1].direction, Directions::Right);
    assert_eq!(c.arrows[2].direction, Directions::Down);
    assert_eq!(c.name, "a");
    assert_eq!(c.filename, "a.ogg");
}

#[test]
fn chart_equal_spawn_times_keep_order() {
    let entries = vec![
        entry(3000, Speed::Slow, Directions::Up),
        entry(2000, Speed::Fast, Directions::Down),
        entry(3000, Speed::Slow, Directions::Left),
    ];
    let c = SongConfig::from_entries("a".to_string(), "a.ogg".to_string(), &entries).unwrap();
    let dirs: Vec<Directions> = c.arrows.iter().map(|a| a.direction).collect();
    assert_eq!(dirs, vec![Directions::Up, Directions::Down, Directions::Left]);
    assert!(c.arrows.iter().all(|a| a.spawn_time == 0));
}

#[test]
fn chart_empty() {
    let c = SongConfig::from_entries("e".to_string(), "e.ogg".to_string(), &vec![]).unwrap();
    assert!(c.arrows.is_empty());
}

#[test]
fn chart_time_before_representable_is_malformed() {
    let entries = vec![entry(MIN_CLICK_TIME - 1, Speed::Slow, Directions::Up)];
    let r = SongConfig::from_entries("a".to_string(), "a.ogg".to_string(), &entries);
    assert_eq!(r.err(), Some(ChartError::Malformed));
    let entries = vec![entry(MIN_CLICK_TIME, Speed::Slow, Directions::Up)];
    let c = SongConfig::from_entries("a".to_string(), "a.ogg".to_string(), &entries).unwrap();
    assert_eq!(c.arrows[0].spawn_time, i64::MIN);
}

#[test]
fn chart_far_click_times_accepted() {
    let entries = vec![
        entry(i64::MAX, Speed::Fast, Directions::Up),
        entry(-2_000_000_000_000, Speed::Slow, Directions::Down),
        entry(2_000_000_000_000, Speed::Medium, Directions::Left),
    ];
    let c = SongConfig::from_entries("a".to_string(), "a.ogg".to_string(), &entries).unwrap();
    let times: Vec<i64> = c.arrows.iter().map(|a| a.spawn_time).collect();
    assert_eq!(times, vec![-2_000_000_003_000, 1_999_999_997_500, i64::MAX - 2000]);
}

#[test]
fn chart_many_notes_accepted() {
    let entries: Vec<ArrowTimeToml> =
        (0..3000).map(|i| entry(10_000 - i, Speed::Slow, Directions::Up)).collect();
    let c = SongConfig::from_entries("a".to_string(), "a.ogg".to_string(), &entries).unwrap();
    assert_eq!(c.arrows.len(), 3000);
    assert_eq!(c.arrows[0].spawn_time, 10_000 - 2999 - 3000);
    assert!(c.arrows.windows(2).all(|w| w[0].spawn_time <= w[1].spawn_time));
}

#[test]
fn keys_per_direction() {
    assert!(Directions::Up.key_just_pressed(&[KeyCode::D]));
    assert!(Directions::Up.key_just_pressed(&[KeyCode::J, KeyCode::Up]));
    assert!(!Directions::Up.key_just_pressed(&[KeyCode::F, KeyCode::Down]));
    assert!(Directions::Down.key_just_pressed(&[KeyCode::F]));
    assert!(Directions::Left.key_just_pressed(&[KeyCode::J]));
    assert!(Directions::Right.key_just_pressed(&[KeyCode::K]));
    assert!(!Directions::Right.key_just_pressed(&[]));
}

#[test]
fn lane_heights() {
    assert_eq!(Directions::Up.y(), 150_000);
    assert_eq!(Directions::Right.y(), -150_000);
}

#[test]
fn position_is_linear() {
    let a = ArrowTime { spawn_time: 2000, speed: Speed::Slow, direction: Directions::Up };
    assert_eq!(position(&a, 2000), -400_000);
    assert_eq!(position(&a, 5000), TARGET_POSITION as i128);
    assert_eq!(position(&a, 5000), position(&a, 5000));
    let f = ArrowTime { spawn_time: 0, speed: Speed::Fast, direction: Directions::Up };
    assert_eq!(position(&f, 1000), -100_000);
}

#[test]
fn position_strictly_increasing() {
    let a = ArrowTime { spawn_time: 100, speed: Speed::Medium, direction: Directions::Left };
    let mut last = position(&a, -1000);
    for t in -999..5000 {
        let p = position(&a, t);
        assert!(p > last);
        last = p;
    }
}

#[test]
fn hit_window_inclusive() {
    let lo = (TARGET_POSITION - THRESHOLD) as i128;
    let hi = (TARGET_POSITION + THRESHOLD) as i128;
    assert!(in_hit_window(lo));
    assert!(in_hit_window(hi));
    assert!(in_hit_window(TARGET_POSITION as i128));
    assert!(!in_hit_window(lo - 1));
    assert!(!in_hit_window(hi + 1));
}

#[test]
fn points_curve() {
    let mut s = ScoreResource::new();
    assert_eq!(s.increase_correct(0), 100);
    assert_eq!(s.increase_correct(THRESHOLD), 10);
    assert_eq!(s.increase_correct(-THRESHOLD), 10);
    assert_eq!(s.increase_correct(10_000), 50);
    assert_eq!(s.increase_correct(-5_000), 75);
    assert_eq!(s.increase_correct(19_000), 10);
    assert_eq!(s.increase_correct(30_000), 10);
    assert_eq!(s.corrects(), 7);
    assert_eq!(s.score(), 100 + 10 + 10 + 50 + 75 + 10 + 10);
    assert_eq!(s.fails(), 0);
}

#[test]
fn points_never_out_of_range() {
    let mut s = ScoreResource::new();
    for d in (-25_000..25_000).step_by(137) {
        let p = s.increase_correct(d);
        assert!((10..=100).contains(&p));
    }
}

#[test]
fn default_score_is_zero() {
    let s = ScoreResource::default();
    assert_eq!((s.score(), s.corrects(), s.fails()), (0, 0, 0));
}

#[test]
fn fails_counted() {
    let mut s = ScoreResource::new();
    s.increase_fails();
    s.increase_fails();
    assert_eq!(s.fails(), 2);
    assert_eq!(s.score(), 0);
    assert_eq!(s.corrects(), 0);
}

#[test]
fn scenario_spawn_window() {
    let mut e = engine_with(vec![entry(5000, Speed::Slow, Directions::Up)]);
    assert_eq!(e.config.arrows[0].spawn_time, 2000);
    let r = e.tick(wall(1000), &[]);
    assert!(r.start_audio);
    assert!(r.activated.is_empty());
    let r = e.tick(wall(1900), &[]);
    assert!(r.activated.is_empty());
    assert!(!r.start_audio);
    let r = e.tick(wall(2100), &[]);
    assert_eq!(r.activated, vec![0]);
    assert_eq!(e.active.len(), 1);
    assert_eq!(e.active[0].position, -400_000 + 200 * 100);
    let r = e.tick(wall(2200), &[]);
    assert!(r.activated.is_empty());
}

#[test]
fn scenario_hit_on_target() {
    let mut e = engine_with(vec![entry(5000, Speed::Slow, Directions::Up)]);
    e.tick(wall(2100), &[]);
    let r = e.tick(wall(5000), &[KeyCode::Left]);
    assert!(r.hits.is_empty());
    assert_eq!(e.active.len(), 1);
    assert_eq!(e.active[0].position, TARGET_POSITION as i128);
    let r = e.tick(wall(5000), &[KeyCode::Up]);
    assert_eq!(r.hits.len(), 1);
    assert_eq!(r.hits[0].distance, 0);
    assert_eq!(r.hits[0].points, 100);
    assert_eq!(e.score.score(), 100);
    assert_eq!(e.score.corrects(), 1);
    assert_eq!(e.score.fails(), 0);
    assert!(e.active.is_empty());
}

#[test]
fn scenario_miss_off_screen() {
    let mut e = engine_with(vec![entry(5000, Speed::Slow, Directions::Up)]);
    e.tick(wall(2100), &[]);
    let r = e.tick(wall(5999), &[]);
    assert!(r.misses.is_empty());
    let r = e.tick(wall(6000), &[]);
    assert_eq!(r.misses, vec![0]);
    assert_eq!(e.score.fails(), 1);
    assert_eq!(e.score.score(), 0);
    assert_eq!(e.score.corrects(), 0);
}

#[test]
fn finished_is_terminal() {
    let mut e = engine_with(vec![
        entry(5000, Speed::Slow, Directions::Up),
        entry(5000, Speed::Fast, Directions::Down),
    ]);
    e.tick(wall(0), &[]);
    assert_eq!(e.state(), DriverState::Running);
    e.tick(wall(3500), &[]);
    assert_eq!(e.active.len(), 2);
    let r = e.tick(wall(5000), &[KeyCode::D]);
    assert_eq!(r.hits.len(), 1);
    assert_eq!(e.state(), DriverState::Running);
    let r = e.tick(wall(7000), &[]);
    assert_eq!(r.misses, vec![1]);
    assert_eq!(e.state(), DriverState::Finished);
    let r = e.tick(wall(7100), &[KeyCode::Up, KeyCode::Down]);
    assert!(r.hits.is_empty() && r.misses.is_empty() && r.activated.is_empty());
    assert_eq!(e.score.score(), 100);
    assert_eq!(e.score.corrects(), 1);
    assert_eq!(e.score.fails(), 1);
    assert_eq!(e.state(), DriverState::Finished);
    assert_eq!(e.song_time, 7000);
}

#[test]
fn preroll_does_nothing() {
    let mut e = engine_with(vec![entry(1000, Speed::Fast, Directions::Left)]);
    assert_eq!(e.song_time, -START_OFFSET);
    let r = e.tick(wall(-500), &[KeyCode::Left]);
    assert!(!r.start_audio);
    assert!(r.activated.is_empty());
    assert_eq!(e.state(), DriverState::NotStarted);
    let r = e.tick(wall(0), &[]);
    assert!(r.start_audio);
    assert_eq!(r.activated, vec![0]);
    assert_eq!(e.state(), DriverState::Running);
    let r = e.tick(wall(10), &[]);
    assert!(!r.start_audio);
}

#[test]
fn stutter_activates_all_skipped_notes() {
    let mut e = engine_with(vec![
        entry(4000, Speed::Slow, Directions::Up),
        entry(4100, Speed::Slow, Directions::Down),
        entry(4200, Speed::Slow, Directions::Left),
        entry(9000, Speed::Slow, Directions::Right),
    ]);
    e.tick(wall(500), &[]);
    let r = e.tick(wall(1500), &[]);
    assert_eq!(r.activated, vec![0, 1, 2]);
    let r = e.tick(wall(1500), &[]);
    assert!(r.activated.is_empty());
    let r = e.tick(wall(6000), &[]);
    assert!(r.activated.is_empty());
    assert_eq!(r.misses, vec![0, 1, 2]);
    let r = e.tick(wall(6001), &[]);
    assert_eq!(r.activated, vec![3]);
}

#[test]
fn clock_never_runs_backwards() {
    let mut e = engine_with(vec![entry(5000, Speed::Slow, Directions::Up)]);
    e.tick(wall(2500), &[]);
    e.tick(wall(2000), &[]);
    assert_eq!(e.song_time, 2500);
}

#[test]
fn empty_chart_finishes_at_start() {
    let mut e = engine_with(vec![]);
    let r = e.tick(wall(-1), &[]);
    assert!(!r.start_audio);
    assert_eq!(e.state(), DriverState::NotStarted);
    let r = e.tick(wall(0), &[]);
    assert!(r.start_audio);
    assert_eq!(e.state(), DriverState::Finished);
}

#[test]
fn hit_at_window_edge_scores_floor() {
    let mut e = engine_with(vec![entry(5000, Speed::Slow, Directions::Right)]);
    e.tick(wall(2500), &[]);
    // 100 ms early at 200 milli-units per ms: 20_000 before the target
    let r = e.tick(wall(4900), &[KeyCode::K]);
    assert_eq!(r.hits.len(), 1);
    assert_eq!(r.hits[0].distance, -THRESHOLD);
    assert_eq!(r.hits[0].points, 10);
}

#[test]
fn press_outside_window_is_ignored() {
    let mut e = engine_with(vec![entry(5000, Speed::Slow, Directions::Right)]);
    e.tick(wall(2500), &[]);
    let r = e.tick(wall(4899), &[KeyCode::K]);
    assert!(r.hits.is_empty());
    assert_eq!(e.active.len(), 1);
}
