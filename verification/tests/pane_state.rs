use herdr::clock::{Clock, Duration, Instant};
use herdr::pane::PaneState;

#[test]
fn mark_seen_advances_the_look_clock_every_time() {
    let clock = Clock::start();
    let mut pane = PaneState::new(1, &clock);
    let t0 = clock.now();

    pane.seen = false;
    pane.seen_at = t0;
    let t10 = t0.checked_add(Duration::from_secs(10)).unwrap();
    assert!(pane.mark_seen(t10));
    assert!(pane.seen);
    assert_eq!(pane.seen_at, t10);

    // Re-focusing an already-seen pane is still a look, so the clock has to
    // move: otherwise a pane you keep checking would still go parked.
    let t20 = t0.checked_add(Duration::from_secs(20)).unwrap();
    assert!(!pane.mark_seen(t20));
    assert_eq!(pane.seen_at, t20);
}

#[test]
fn mark_seen_rearms_the_unread_alert() {
    let clock = Clock::start();
    let mut pane = PaneState::new(1, &clock);
    pane.stale_notified = true;
    pane.mark_seen(clock.now());
    assert!(!pane.stale_notified);
}

#[test]
fn a_new_pane_counts_as_looked_at_when_it_opens() {
    let clock = Clock::start();
    let before = clock.now();
    let pane = PaneState::new(7, &clock);
    let after = clock.now();
    assert_eq!(pane.attached_terminal_id, 7);
    assert!(pane.seen);
    assert!(!pane.stale_notified);
    assert!(!pane.right_click_passthrough);
    assert!(before.nanos <= pane.seen_at.nanos && pane.seen_at.nanos <= after.nanos);
}

#[test]
fn a_pane_opens_at_the_given_moment() {
    let pane = PaneState::new_at(9, Instant { nanos: 42 });
    assert_eq!(pane.attached_terminal_id, 9);
    assert_eq!(pane.seen_at, Instant { nanos: 42 });
}

#[test]
fn a_look_leaves_the_rest_of_the_pane_alone() {
    let mut pane = PaneState::new_at(9, Instant { nanos: 42 });
    pane.right_click_passthrough = true;
    pane.mark_seen(Instant { nanos: 50 });
    pane.mark_seen(Instant { nanos: 60 });
    assert_eq!(pane.attached_terminal_id, 9);
    assert!(pane.right_click_passthrough);
    assert_eq!(pane.seen_at, Instant { nanos: 60 });
}

#[test]
fn the_clock_runs() {
    let clock = Clock::start();
    let first = clock.now();
    let mut last = clock.now();
    while last == first {
        last = clock.now();
    }
    assert!(last.nanos > first.nanos);
}

#[test]
fn any_number_of_seconds_can_be_added_to_a_reading() {
    let now = Clock::start().now();
    let later = now.checked_add(Duration::from_secs(u64::MAX)).unwrap();
    assert_eq!(later.saturating_duration_since(now), Duration::from_secs(u64::MAX));
}

#[test]
fn durations_and_instants_are_counted_in_nanoseconds() {
    assert_eq!(Duration::from_secs(3).nanos, 3_000_000_000);
    let early = Instant { nanos: 5 };
    let late = Instant { nanos: 12 };
    assert_eq!(late.saturating_duration_since(early).nanos, 7);
    assert_eq!(early.saturating_duration_since(late).nanos, 0);
    assert_eq!(late.checked_add(Duration { nanos: 8 }), Some(Instant { nanos: 20 }));
    assert_eq!(late.checked_add(Duration { nanos: u128::MAX }), None);
}
