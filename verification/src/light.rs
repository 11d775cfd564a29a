//! The directional light: it sweeps around one axis at a steady rate, like a
//! slow day and night, and keeps a fixed tilt on a second axis.
//!
//! Angles are whole numbers of millionths of a half turn, so that every angle
//! the light takes is exact. Times are milliseconds since the viewer started.

use vstd::prelude::*;

verus! {

/// Half a turn (π radians), in angle units.
pub const HALF_TURN: u32 = 1_000_000;

/// A full turn (2π radians), in angle units.
pub const FULL_TURN: u32 = 2_000_000;

/// How far the light sweeps in one millisecond, in angle units: a fifth of a
/// half turn each second.
pub const SWEEP_PER_MS: u32 = 200;

/// The time the light takes for a full turn, in milliseconds.
pub const SWEEP_PERIOD_MS: u64 = 10_000;

/// The fixed tilt of the light, in angle units: a quarter of a half turn,
/// downwards.
pub const TILT: i32 = -250_000;

/// The orientation of the light as three Euler angles, in angle units: a
/// rotation about the z axis, one about the y axis and one about the x axis,
/// composed in that order.
#[derive(Clone, Copy, Debug, PartialEq, Eq)]
pub struct LightPose {
    /// Rotation about the z axis: always zero.
    pub roll: i32,
    /// Rotation about the y axis, the axis the light sweeps around, reduced to
    /// less than a full turn.
    pub sweep: u32,
    /// Rotation about the x axis: always [`TILT`].
    pub tilt: i32,
}

/// The angle that the light has swept through after `elapsed_ms`
/// milliseconds, in angle units, full turns counted in.
pub open spec fn sweep_angle(elapsed_ms: nat) -> nat {
    elapsed_ms * SWEEP_PER_MS as nat
}

/// The sweep angle reduced to less than a full turn.
pub open spec fn sweep_phase(elapsed_ms: nat) -> nat {
    sweep_angle(elapsed_ms) % FULL_TURN as nat
}

/// The orientation of the light after `elapsed_ms` milliseconds. It depends
/// on the time alone.
pub fn light_pose(elapsed_ms: u64) -> (pose: LightPose)
    ensures
        pose.roll == 0,
        pose.sweep == sweep_phase(elapsed_ms as nat),
        pose.sweep < FULL_TURN,
        pose.tilt == TILT,
{
    let in_turn: u64 = elapsed_ms % SWEEP_PERIOD_MS;
    let sweep: u32 = (in_turn as u32) * SWEEP_PER_MS;
    LightPose { roll: 0, sweep, tilt: TILT }
}

/// The sweep angle grows strictly with time, at the fixed rate
/// [`SWEEP_PER_MS`].
pub proof fn lemma_sweep_increasing(earlier_ms: nat, later_ms: nat)
    requires
        earlier_ms < later_ms,
    ensures
        sweep_angle(earlier_ms) < sweep_angle(later_ms),
        sweep_angle(later_ms) - sweep_angle(earlier_ms) == (later_ms - earlier_ms) * SWEEP_PER_MS,
{
}

/// Within one turn the reduced sweep angle grows strictly with time too, and
/// after each full period it is where it was.
pub proof fn lemma_sweep_phase(earlier_ms: nat, later_ms: nat)
    ensures
        sweep_phase(earlier_ms + SWEEP_PERIOD_MS as nat) == sweep_phase(earlier_ms),
        earlier_ms < later_ms && earlier_ms / SWEEP_PERIOD_MS as nat == later_ms
            / SWEEP_PERIOD_MS as nat ==> sweep_phase(earlier_ms) < sweep_phase(later_ms),
{
}

} // verus!
