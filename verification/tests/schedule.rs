use scene_viewer::schedule::{SwapTimer, SWAP_DELAY_MS};

#[test]
fn swap_delay_is_three_seconds() {
    assert_eq!(SWAP_DELAY_MS, 3_000);
}

#[test]
fn new_timer_has_nothing_scheduled() {
    assert_eq!(SwapTimer::new(), SwapTimer { next_swap: None });
}

#[test]
fn first_poll_schedules_and_does_nothing_else() {
    let mut timer = SwapTimer::new();
    assert!(!timer.poll(0));
    assert_eq!(timer.next_swap, Some(3_000));

    let mut late = SwapTimer::new();
    assert!(!late.poll(1_234));
    assert_eq!(late.next_swap, Some(4_234));
}

#[test]
fn poll_before_the_scheduled_time_changes_nothing() {
    let mut timer = SwapTimer::new();
    timer.poll(0);
    assert!(!timer.poll(2_900));
    assert_eq!(timer.next_swap, Some(3_000));
    assert!(!timer.poll(2_999));
    assert_eq!(timer.next_swap, Some(3_000));
}

#[test]
fn poll_past_the_scheduled_time_swaps_once_and_adds_no_drift() {
    let mut timer = SwapTimer::new();
    timer.poll(0);
    timer.poll(2_900);
    assert!(timer.poll(3_100));
    assert_eq!(timer.next_swap, Some(6_000));
    assert!(!timer.poll(3_200));
    assert_eq!(timer.next_swap, Some(6_000));
}

#[test]
fn poll_at_the_scheduled_time_is_due() {
    let mut timer = SwapTimer { next_swap: Some(3_000) };
    assert!(timer.poll(3_000));
    assert_eq!(timer.next_swap, Some(6_000));
}

#[test]
fn skipped_frames_are_caught_up_one_swap_per_poll() {
    let mut timer = SwapTimer { next_swap: Some(3_000) };
    assert!(timer.poll(10_000));
    assert_eq!(timer.next_swap, Some(6_000));
    assert!(timer.poll(10_016));
    assert_eq!(timer.next_swap, Some(9_000));
    assert!(timer.poll(10_032));
    assert_eq!(timer.next_swap, Some(12_000));
    assert!(!timer.poll(10_048));
    assert_eq!(timer.next_swap, Some(12_000));
}

#[test]
fn poll_at_the_last_admissible_time() {
    let now = u64::MAX - SWAP_DELAY_MS;
    let mut timer = SwapTimer::new();
    assert!(!timer.poll(now));
    assert_eq!(timer.next_swap, Some(u64::MAX));
    assert!(!timer.poll(now));
    assert_eq!(timer.next_swap, Some(u64::MAX));
}

#[test]
fn scheduled_times_stay_on_the_grid_of_the_first_poll() {
    let mut timer = SwapTimer::new();
    timer.poll(7);
    let mut swaps = 0;
    for now in [100, 3_006, 3_007, 3_500, 6_123, 6_124, 20_000, 20_001, 20_002, 20_003, 20_004] {
        if timer.poll(now) {
            swaps += 1;
        }
        assert_eq!(timer.next_swap, Some(7 + SWAP_DELAY_MS * (1 + swaps)));
    }
    assert_eq!(swaps, 6);
    assert_eq!(timer.next_swap, Some(21_007));
}
