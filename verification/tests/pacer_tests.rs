use chirpy::pacer::{Pacer, CYCLES_PER_FRAME, FRAME_INTERVAL_NS, SLEEP_SLACK_NS};

#[test]
fn test_cycle_budget() {
    let mut pacer = Pacer::new(0);
    for _ in 0..CYCLES_PER_FRAME {
        assert!(pacer.should_run_cycle());
        pacer.record_cycle();
    }
    assert!(!pacer.should_run_cycle());
}

#[test]
fn test_frame_boundary_resets_budget() {
    let mut pacer = Pacer::new(0);
    for _ in 0..CYCLES_PER_FRAME {
        pacer.record_cycle();
    }
    // The first deadline is the creation instant, so the frame is due.
    assert!(pacer.finish_frame(0));
    assert!(pacer.should_run_cycle());
    // The next deadline is one interval on; before it nothing happens.
    assert!(!pacer.finish_frame(FRAME_INTERVAL_NS - 1));
    assert!(pacer.finish_frame(FRAME_INTERVAL_NS));
}

#[test]
fn test_timer_ticks_at_sixty_hertz() {
    let mut pacer = Pacer::new(1000);
    assert!(!pacer.finish_timer(999));
    assert!(pacer.finish_timer(1000));
    assert!(!pacer.finish_timer(1000));
    assert!(pacer.finish_timer(1000 + FRAME_INTERVAL_NS));
}

#[test]
fn test_sleep_budget_undersleeps_by_slack() {
    let mut pacer = Pacer::new(0);
    assert!(pacer.finish_frame(0));
    // Deadline is now one frame interval away; the sleep stops one
    // millisecond short of it.
    assert_eq!(pacer.sleep_budget(0), FRAME_INTERVAL_NS - SLEEP_SLACK_NS);
    // Within the slack of the deadline, or past it, no sleep at all.
    assert_eq!(pacer.sleep_budget(FRAME_INTERVAL_NS - SLEEP_SLACK_NS), 0);
    assert_eq!(pacer.sleep_budget(FRAME_INTERVAL_NS), 0);
    assert_eq!(pacer.sleep_budget(FRAME_INTERVAL_NS + 5), 0);
}

// Over two simulated seconds at the 60 Hz target, very nearly 120 frames
// are rendered. The simulated clock charges a microsecond per cycle, a
// fifth of a millisecond of overhead per boundary pass, and advances by
// whatever sleep the pacer asks for.
#[test]
fn test_frame_rate_over_two_seconds() {
    let mut pacer = Pacer::new(0);
    let mut now: u64 = 0;
    let mut renders: u64 = 0;
    let mut timer_ticks: u64 = 0;
    while now < 2_000_000_000 {
        if pacer.should_run_cycle() {
            pacer.record_cycle();
            now += 1_000;
        } else {
            now += 200_000;
            if pacer.finish_frame(now) {
                renders += 1;
            }
            if pacer.finish_timer(now) {
                timer_ticks += 1;
            }
            now += pacer.sleep_budget(now);
        }
    }
    assert!(
        (117..=123).contains(&renders),
        "expected about 120 renders, got {}",
        renders
    );
    assert!(
        (117..=123).contains(&timer_ticks),
        "expected about 120 timer ticks, got {}",
        timer_ticks
    );
}
