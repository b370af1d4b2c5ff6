use pasture::components::Lifetime;

#[test]
fn countdown_arms_at_zero() {
    let l = Lifetime::new(5);
    assert_eq!(l.elapsed, 0);
    assert_eq!(l.duration, 5);
    assert!(!l.finished());
}

#[test]
fn countdown_accumulates_and_saturates() {
    let mut l = Lifetime::new(5);
    l.tick(3);
    assert_eq!(l.elapsed, 3);
    assert!(!l.finished());
    l.tick(7);
    assert_eq!(l.elapsed, 5);
    assert!(l.finished());
}

#[test]
fn countdown_exact_boundary_finishes() {
    let mut l = Lifetime::new(5);
    l.tick(2);
    l.tick(3);
    assert_eq!(l.elapsed, 5);
    assert!(l.finished());
}

#[test]
fn countdown_tick_after_finish_is_noop() {
    let mut l = Lifetime::new(4);
    l.tick(9);
    assert_eq!(l.elapsed, 4);
    l.tick(1);
    assert_eq!(l.elapsed, 4);
    assert!(l.finished());
}

#[test]
fn countdown_zero_duration_is_finished_at_once() {
    let l = Lifetime::new(0);
    assert!(l.finished());
}
