use snake_game::game::tick::TickCounter;

#[test]
fn start_sets_rate_and_zero_tick() {
    let c = TickCounter::start(10);
    assert_eq!(c.nanos_per_tick, 100_000_000);
    assert_eq!(c.tick, 0);
}

#[test]
fn tick_fires_once_per_window() {
    let mut c = TickCounter::start(10);
    assert!(!c.next_tick_at(0));
    assert!(!c.next_tick_at(99_999_999));
    assert!(c.next_tick_at(100_000_000));
    // the same elapsed-time sample never fires twice
    assert!(!c.next_tick_at(100_000_000));
    // still inside the same tick window
    assert!(!c.next_tick_at(150_000_000));
    assert!(c.next_tick_at(200_000_000));
    assert_eq!(c.tick, 2);
}

#[test]
fn slow_poll_reports_single_tick() {
    let mut c = TickCounter::start(10);
    // many boundaries passed, but only one advance is reported
    assert!(c.next_tick_at(1_000_000_000));
    assert_eq!(c.tick, 10);
    assert!(!c.next_tick_at(1_000_000_000));
}

#[test]
fn real_clock_eventually_ticks() {
    let mut c = TickCounter::start(1_000_000_000);
    let mut fired = false;
    for _ in 0..100_000_000u64 {
        if c.is_next_tick() {
            fired = true;
            break;
        }
    }
    assert!(fired);
}
