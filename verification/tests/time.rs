use kotlot::time::Time;
use kotlot::time::Timer;
use kotlot::time::DECAY_ENTRIES;

fn table_for(delta: u32) -> Vec<u32> {
    let seconds = delta as f64 / 1000.0;
    let mut table: Vec<u32> = Vec::new();
    for d in 0..DECAY_ENTRIES as u32 {
        let mut factor = ((d as f64 / 1000.0).powf(seconds) * 1000.0).round() as u32;
        if delta <= 1000 {
            factor = factor.max(d);
        }
        if delta >= 1000 {
            factor = factor.min(d);
        }
        factor = factor.max(table.last().copied().unwrap_or(0)).min(1000);
        table.push(factor);
    }
    table
}

#[test]
fn a_frame_is_made_from_a_full_table_only() {
    assert_eq!(DECAY_ENTRIES, 1001);
    for delta in [0, 1, 16, 100, 999, 1000, 1001, 5000, u32::MAX] {
        assert!(Time::new(delta, table_for(delta)).is_some());
    }
    let mut short = table_for(16);
    short.pop();
    assert!(Time::new(16, short).is_none());
    let mut long = table_for(16);
    long.push(1000);
    assert!(Time::new(16, long).is_none());
    assert!(Time::new(16, Vec::new()).is_none());
}

#[test]
fn a_frame_refuses_a_table_that_no_power_gives() {
    let with = |delta: u32, at: usize, factor: u32| {
        let mut table = table_for(delta);
        table[at] = factor;
        Time::new(delta, table).is_some()
    };
    assert!(with(16, 500, table_for(16)[500]));
    assert!(!with(16, 1000, 999));
    assert!(!with(16, 1000, 1001));
    assert!(!with(16, 999, 1001));
    assert!(!with(16, 999, u32::MAX));
    assert!(!with(16, 0, 1));
    assert!(!with(16, 0, 1000));
    assert!(!with(0, 0, 0));
    assert!(!with(0, 500, 999));
    assert!(!with(16, 500, table_for(16)[499] - 1));
    assert!(!with(16, 500, table_for(16)[501] + 1));
    assert!(!with(500, 1, 0));
    assert!(!with(1000, 500, 499));
    assert!(!with(1000, 500, 501));
    assert!(!with(2000, 500, 501));
    assert!(!with(2000, 500, 500));
    assert!(with(2000, 500, 250));
    assert!(with(2000, 500, 251));
    assert!(!with(2000, 500, 252));
    assert!(!with(2000, 500, 248));
}

#[test]
fn where_no_time_goes_by_nothing_decays() {
    assert_eq!(table_for(0), vec![1000; 1001]);
    let time = Time::new(0, vec![1000; 1001]).unwrap();
    assert_eq!(time.delta(), 0);
    assert_eq!(time.decay(0), 1000);
    assert_eq!(time.decay(500), 1000);
    assert!(Time::new(1, vec![1000; 1001]).is_none());
}

#[test]
fn after_one_second_a_speed_is_left_its_dampening() {
    let identity: Vec<u32> = (0..=1000).collect();
    assert_eq!(table_for(1000), identity);
    let time = Time::new(1000, identity).unwrap();
    assert_eq!(time.delta(), 1000);
    assert_eq!(time.decay(0), 0);
    assert_eq!(time.decay(100), 100);
    assert_eq!(time.decay(999), 999);
    assert_eq!(time.decay(1000), 1000);
}

#[test]
fn a_frame_gives_back_what_it_was_made_with() {
    let table = table_for(100);
    let time = Time::new(100, table.clone()).unwrap();
    assert_eq!(time.delta(), 100);
    assert_eq!(time.decay(0), 0);
    assert_eq!(time.decay(100), 794);
    assert_eq!(time.decay(500), 933);
    assert_eq!(time.decay(1000), 1000);
    for d in 0..=1000u32 {
        assert_eq!(time.decay(d), table[d as usize] as i32);
    }
}

#[test]
fn a_dampening_above_one_counts_as_one() {
    let time = Time::new(500, table_for(500)).unwrap();
    assert_eq!(time.decay(1000), 1000);
    assert_eq!(time.decay(1001), 1000);
    assert_eq!(time.decay(u32::MAX), 1000);
    assert_eq!(time.decay(999), 999);
    assert_eq!(time.decay(250), 500);
}

#[test]
fn a_timer_starts_at_rest() {
    let t = Timer::from_seconds(2000, false);
    assert_eq!(
        t,
        Timer { elapsed: 0, duration: 2000, finished: false, just_finished: false, repeating: false }
    );
}

#[test]
fn a_timer_finishes_when_its_duration_is_reached() {
    let mut t = Timer::from_seconds(1000, false);
    t.tick(400);
    assert_eq!(t.elapsed, 400);
    assert!(!t.finished);
    assert!(!t.just_finished);
    t.tick(600);
    assert_eq!(t.elapsed, 1000);
    assert!(t.finished);
    assert!(t.just_finished);
    t.tick(600);
    assert_eq!(t.elapsed, 1000);
    assert!(t.finished);
    assert!(!t.just_finished);
}

#[test]
fn a_timer_overshoots_once_and_then_stands_still() {
    let mut t = Timer::from_seconds(1000, false);
    t.tick(2500);
    assert_eq!(t.elapsed, 2500);
    assert!(t.finished);
    t.tick(100);
    assert_eq!(t.elapsed, 2500);
}

#[test]
fn a_timer_of_no_duration_is_finished_at_the_first_tick() {
    let mut t = Timer::from_seconds(0, false);
    assert!(!t.finished);
    t.tick(0);
    assert!(t.finished);
    assert!(!t.just_finished);
}

#[test]
fn a_timer_never_counts_beyond_what_it_can_hold() {
    let mut t = Timer::from_seconds(u32::MAX, false);
    t.tick(u32::MAX - 1);
    assert!(!t.finished);
    t.tick(5);
    assert_eq!(t.elapsed, u32::MAX);
    assert!(t.finished);
}

#[test]
fn a_repeating_timer_keeps_the_remainder() {
    let mut t = Timer::from_seconds(1000, true);
    t.tick(1300);
    assert!(t.finished);
    assert!(t.just_finished);
    assert_eq!(t.elapsed, 300);
    t.tick(300);
    assert!(!t.finished);
    assert_eq!(t.elapsed, 600);
    let mut zero = Timer::from_seconds(0, true);
    zero.elapsed = 5;
    zero.tick(3);
    assert!(zero.finished);
    assert_eq!(zero.elapsed, 0);
}

#[test]
fn reset_starts_the_countdown_again() {
    let mut t = Timer::from_seconds(1000, false);
    t.tick(1500);
    t.reset();
    assert_eq!(
        t,
        Timer { elapsed: 0, duration: 1000, finished: false, just_finished: false, repeating: false }
    );
}
