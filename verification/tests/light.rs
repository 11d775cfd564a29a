use scene_viewer::light::{
    light_pose, LightPose, FULL_TURN, HALF_TURN, SWEEP_PERIOD_MS, SWEEP_PER_MS, TILT,
};

#[test]
fn angle_units_fit_together() {
    assert_eq!(FULL_TURN, 2 * HALF_TURN);
    assert_eq!(SWEEP_PER_MS as u64 * SWEEP_PERIOD_MS, FULL_TURN as u64);
    // A fifth of a half turn each second.
    assert_eq!(SWEEP_PER_MS * 1_000 * 5, HALF_TURN);
    // A quarter of a half turn, downwards.
    assert_eq!(TILT * -4, HALF_TURN as i32);
}

#[test]
fn light_starts_unswept() {
    assert_eq!(light_pose(0), LightPose { roll: 0, sweep: 0, tilt: -250_000 });
}

#[test]
fn sweep_is_time_times_rate() {
    assert_eq!(light_pose(1).sweep, 200);
    assert_eq!(light_pose(1_000).sweep, 200_000);
    assert_eq!(light_pose(2_500).sweep, 500_000);
    assert_eq!(light_pose(5_000).sweep, HALF_TURN);
    assert_eq!(light_pose(9_999).sweep, 1_999_800);
}

#[test]
fn sweep_wraps_after_a_full_turn() {
    assert_eq!(light_pose(10_000).sweep, 0);
    assert_eq!(light_pose(12_345).sweep, 469_000);
    assert_eq!(light_pose(u64::MAX).sweep, (u64::MAX % 10_000) as u32 * 200);
}

#[test]
fn tilt_and_roll_never_change() {
    for elapsed in [0u64, 1, 17, 4_999, 10_000, 123_456_789, u64::MAX] {
        let pose = light_pose(elapsed);
        assert_eq!(pose.tilt, TILT);
        assert_eq!(pose.roll, 0);
        assert!(pose.sweep < FULL_TURN);
    }
}

#[test]
fn sweep_grows_strictly_within_a_turn() {
    let mut previous = light_pose(20_000).sweep;
    for elapsed in 20_001..30_000u64 {
        let sweep = light_pose(elapsed).sweep;
        assert!(sweep > previous);
        assert_eq!(sweep - previous, SWEEP_PER_MS);
        previous = sweep;
    }
}

#[test]
fn pose_depends_on_time_alone() {
    assert_eq!(light_pose(7_777), light_pose(7_777));
    assert_eq!(light_pose(7_777), light_pose(7_777 + 3 * SWEEP_PERIOD_MS));
}
