use brumous::delta::Delta;
use std::time::Duration;
use std::time::Instant;

#[test]
fn the_first_frame_took_no_time() {
    let delta = Delta::new();
    assert_eq!(delta.frame_time(), Duration::ZERO);
    assert_eq!(delta.frame_time().as_millis(), 0);
}

#[test]
fn an_update_starts_the_next_frame() {
    let mut delta = Delta::new();
    let start = delta.last_frame;
    while start.elapsed() < Duration::from_millis(5) {}
    let now = Instant::now();
    delta.update(now);
    assert_eq!(delta.last_frame, now);
    assert!(delta.frame_time() >= Duration::from_millis(5));
    assert!(delta.frame_time() <= start.elapsed());
}

#[test]
fn a_frame_is_recorded_as_given() {
    let mut delta = Delta::new();
    let now = Instant::now();
    delta.record(Duration::from_millis(16), now);
    assert_eq!(delta.frame_time(), Duration::from_millis(16));
    assert_eq!(delta.frame_time, Duration::from_millis(16));
    assert_eq!(delta.last_frame, now);
}

#[test]
fn the_first_frame_starts_at_the_instant_given() {
    let now = Instant::now();
    let delta = Delta::starting_at(now);
    assert_eq!(delta.last_frame, now);
    assert_eq!(delta.frame_time(), Duration::ZERO);
    let before = Instant::now();
    let fresh = Delta::new();
    assert!(fresh.last_frame >= before);
    assert!(fresh.last_frame <= Instant::now());
}
