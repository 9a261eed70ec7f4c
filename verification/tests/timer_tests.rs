use syncopate::timer::RepeatingTimer;

#[test]
fn a_timer_fires_when_its_interval_elapses() {
    let mut t = RepeatingTimer::new(1000);
    t.tick(999);
    assert!(!t.just_finished());
    t.tick(1);
    assert!(t.just_finished());
    assert_eq!(t.elapsed_ms, 0);
}

#[test]
fn firing_is_a_one_tick_edge() {
    let mut t = RepeatingTimer::new(1000);
    t.tick(1500);
    assert!(t.finished());
    t.tick(100);
    assert!(!t.finished());
}

#[test]
fn several_completions_in_one_tick_collapse_to_one() {
    let mut t = RepeatingTimer::new(1000);
    t.tick(2500);
    assert!(t.just_finished());
    assert_eq!(t.elapsed_ms, 500);
}

#[test]
fn a_zero_tick_never_fires() {
    let mut t = RepeatingTimer::new(1000);
    t.tick(0);
    assert!(!t.just_finished());
    t.tick(1000);
    assert!(t.just_finished());
    t.tick(0);
    assert!(!t.just_finished());
    assert_eq!(t.elapsed_ms, 0);
}

#[test]
fn reset_starts_the_interval_over() {
    let mut t = RepeatingTimer::new(1000);
    t.tick(1300);
    assert!(t.finished());
    t.reset();
    assert!(!t.finished());
    assert_eq!(t.elapsed_ms, 0);
    t.tick(999);
    assert!(!t.finished());
}
