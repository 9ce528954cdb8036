use gui_timer::icon::rgba_to_argb;
use gui_timer::timer::TimerData;

#[test]
fn timer_starts_at_zero() {
    let t = TimerData::new(3000);
    assert_eq!(t.duration(), 0);
    assert_eq!(t.end_after(), 3000);
    assert!(!t.is_paused());
    assert_eq!(t.remaining_secs(), 3);
}

#[test]
fn timer_advances_and_stops_at_end() {
    let mut t = TimerData::new(5000);
    t.tick(100);
    assert_eq!(t.duration(), 0);
    t.tick(1600);
    assert_eq!(t.duration(), 1500);
    assert_eq!(t.remaining_secs(), 4);
    t.tick(9000);
    assert_eq!(t.duration(), 5000);
    assert_eq!(t.remaining_secs(), 0);
}

#[test]
fn paused_timer_does_not_move() {
    let mut t = TimerData::new(5000);
    t.tick(0);
    t.tick(1000);
    t.pause(true);
    assert!(t.is_paused());
    t.tick(3000);
    assert_eq!(t.duration(), 1000);
    t.pause(false);
    assert!(!t.is_paused());
    t.tick(4000);
    assert_eq!(t.duration(), 4000);
    t.tick(4500);
    assert_eq!(t.duration(), 4500);
}

#[test]
fn clock_going_backwards_adds_nothing() {
    let mut t = TimerData::new(5000);
    t.tick(1000);
    t.tick(500);
    assert_eq!(t.duration(), 0);
}

#[test]
fn reset_sets_time_passed_to_zero() {
    let mut t = TimerData::new(5000);
    t.tick(0);
    t.tick(2500);
    t.reset();
    assert_eq!(t.duration(), 0);
    assert_eq!(t.end_after(), 5000);
}

#[test]
fn restore_caps_time_passed() {
    let t = TimerData::restore(9000, 5000, true);
    assert_eq!(t.duration(), 5000);
    assert!(t.is_paused());
    let t = TimerData::restore(1200, 5000, false);
    assert_eq!(t.duration(), 1200);
    assert_eq!(t.remaining_secs(), 4);
}

#[test]
fn pixels_become_argb() {
    assert_eq!(
        rgba_to_argb(&[1, 2, 3, 4, 5, 6, 7, 8]),
        vec![4, 1, 2, 3, 8, 5, 6, 7]
    );
    assert_eq!(rgba_to_argb(&[]), Vec::<u8>::new());
}
