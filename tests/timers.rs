use jam::config::KeyCallback;
use jam::timers::{JamTimers, TimerError};

#[test]
fn tempo_cell_holds_what_was_set() {
    let mut t = JamTimers::new(120.0f32.to_bits());
    assert_eq!(f32::from_bits(t.native_get_tempo()), 120.0);
    t.native_set_tempo(90.0f32.to_bits());
    assert_eq!(f32::from_bits(t.native_get_tempo()), 90.0);
}

#[test]
fn timeout_fires_once_at_its_deadline() {
    let mut t = JamTimers::new(0);
    let h = t.native_on_timeout(100, 50, KeyCallback(4)).unwrap();
    assert_eq!(h, 0);
    assert!(t.fire_due(149).is_empty());
    let fired = t.fire_due(150);
    assert_eq!(fired.len(), 1);
    assert_eq!((fired[0].handle, fired[0].callback), (0, KeyCallback(4)));
    assert_eq!(t.pending_count(), 0);
    assert!(t.fire_due(1000).is_empty());
}

#[test]
fn beat_repeats_every_period() {
    let mut t = JamTimers::new(0);
    let h = t.native_on_beat(0, 10, KeyCallback(1)).unwrap();
    assert!(t.fire_due(9).is_empty());
    assert_eq!(t.fire_due(10).len(), 1);
    assert!(t.fire_due(19).is_empty());
    assert_eq!(t.fire_due(20)[0].handle, h);
    assert_eq!(t.pending_count(), 1);
}

#[test]
fn beat_needs_a_period() {
    let mut t = JamTimers::new(0);
    assert_eq!(t.native_on_beat(0, 0, KeyCallback(1)), Err(TimerError::ZeroPeriod));
    assert_eq!(t.pending_count(), 0);
}

#[test]
fn cancel_removes_only_that_timer() {
    let mut t = JamTimers::new(0);
    let a = t.native_on_timeout(0, 5, KeyCallback(1)).unwrap();
    let b = t.native_on_timeout(0, 5, KeyCallback(2)).unwrap();
    assert_ne!(a, b);
    assert!(t.native_cancel_timer(a));
    assert!(!t.native_cancel_timer(a));
    let fired = t.fire_due(5);
    assert_eq!(fired.len(), 1);
    assert_eq!(fired[0].handle, b);
}

#[test]
fn deadline_saturates_at_end_of_clock() {
    let mut t = JamTimers::new(0);
    t.native_on_timeout(u64::MAX - 1, 10, KeyCallback(1)).unwrap();
    assert_eq!(t.fire_due(u64::MAX).len(), 1);
}

#[test]
fn due_timers_fire_in_scheduling_order() {
    let mut t = JamTimers::new(0);
    t.native_on_timeout(0, 30, KeyCallback(1)).unwrap();
    t.native_on_timeout(0, 10, KeyCallback(2)).unwrap();
    t.native_on_timeout(0, 50, KeyCallback(3)).unwrap();
    let fired = t.fire_due(40);
    assert_eq!(fired.iter().map(|f| f.callback).collect::<Vec<_>>(), vec![KeyCallback(1), KeyCallback(2)]);
    assert_eq!(t.pending_count(), 1);
}
