//! The per-frame mutable state: camera angles, world translation, and
//! the frame timestamp, together with the camera commands that the
//! input layer maps key presses onto.

use vstd::prelude::*;

verus! {

use crate::fixed::sabs;
use crate::geometry::COORD_BOUND;

/// One key press worth of camera or translation change: 0.05 in scene
/// units, rounded to the fixed-point grid.
pub const CAMERA_STEP: i64 = 3277;

/// Largest angle or translation magnitude the state will hold.
pub const STATE_BOUND: i64 = 0x10000000;

/// Camera pitch/yaw/roll (fixed-point radians), world translation, and
/// the frame timestamp in milliseconds. The surrounding loop owns one
/// value of this across frames and refreshes the timestamp each tick.
#[derive(Clone, Copy, Debug)]
pub struct WorldMetrics {
    pub camera_pitch: i64,
    pub camera_yaw: i64,
    pub camera_roll: i64,
    pub world_translation_x: i64,
    pub world_translation_y: i64,
    pub world_translation_z: i64,
    pub frame_timestamp: i64,
}

/// Angles and translations within the state bound.
pub open spec fn world_wf(w: WorldMetrics) -> bool {
    &&& sabs(w.camera_pitch as int) <= STATE_BOUND as int
    &&& sabs(w.camera_yaw as int) <= STATE_BOUND as int
    &&& sabs(w.camera_roll as int) <= STATE_BOUND as int
    &&& sabs(w.world_translation_x as int) <= COORD_BOUND as int
    &&& sabs(w.world_translation_y as int) <= COORD_BOUND as int
    &&& sabs(w.world_translation_z as int) <= COORD_BOUND as int
}

impl Default for WorldMetrics {
    /// The state at rest: camera level at the origin, clock at zero.
    fn default() -> (w: WorldMetrics)
        ensures
            w.camera_pitch == 0,
            w.camera_yaw == 0,
            w.camera_roll == 0,
            w.world_translation_x == 0,
            w.world_translation_y == 0,
            w.world_translation_z == 0,
            w.frame_timestamp == 0,
            world_wf(w),
    {
        WorldMetrics {
            camera_pitch: 0,
            camera_yaw: 0,
            camera_roll: 0,
            world_translation_x: 0,
            world_translation_y: 0,
            world_translation_z: 0,
            frame_timestamp: 0,
        }
    }
}

impl WorldMetrics {
    /// The timestamp of the frame being rendered.
    pub fn get_timestamp(&self) -> (t: i64)
        ensures
            t == self.frame_timestamp,
    {
        self.frame_timestamp
    }

    /// Refresh the timestamp for a new frame; the caller reads the
    /// clock and passes the milliseconds in.
    pub fn update_timestamp(&mut self, now_ms: i64)
        ensures
            final(self).frame_timestamp == now_ms,
            final(self).camera_pitch == old(self).camera_pitch,
            final(self).camera_yaw == old(self).camera_yaw,
            final(self).camera_roll == old(self).camera_roll,
            final(self).world_translation_x == old(self).world_translation_x,
            final(self).world_translation_y == old(self).world_translation_y,
            final(self).world_translation_z == old(self).world_translation_z,
    {
        self.frame_timestamp = now_ms;
    }
}

/// What a navigation key press asks of the state.
#[derive(Clone, Copy, Debug, PartialEq, Eq, Structural)]
pub enum CameraCommand {
    PitchUp,
    PitchDown,
    YawLeft,
    YawRight,
    MoveNearer,
    MoveFarther,
    StrafeLeft,
    StrafeRight,
}

/// A value stepped by `d`, unless that would leave the state bound.
pub open spec fn nudged(v: int, d: int, b: int) -> int {
    if -b <= v + d <= b {
        v + d
    } else {
        v
    }
}

/// The state a command produces: one field stepped by `CAMERA_STEP`,
/// the rest untouched.
pub open spec fn spec_apply_command(w: WorldMetrics, cmd: CameraCommand) -> WorldMetrics {
    match cmd {
        CameraCommand::PitchUp => WorldMetrics {
            camera_pitch: nudged(
                w.camera_pitch as int,
                -(CAMERA_STEP as int),
                STATE_BOUND as int,
            ) as i64,
            ..w
        },
        CameraCommand::PitchDown => WorldMetrics {
            camera_pitch: nudged(w.camera_pitch as int, CAMERA_STEP as int, STATE_BOUND as int) as i64,
            ..w
        },
        CameraCommand::YawLeft => WorldMetrics {
            camera_yaw: nudged(w.camera_yaw as int, -(CAMERA_STEP as int), STATE_BOUND as int) as i64,
            ..w
        },
        CameraCommand::YawRight => WorldMetrics {
            camera_yaw: nudged(w.camera_yaw as int, CAMERA_STEP as int, STATE_BOUND as int) as i64,
            ..w
        },
        CameraCommand::MoveNearer => WorldMetrics {
            world_translation_z: nudged(
                w.world_translation_z as int,
                -(CAMERA_STEP as int),
                COORD_BOUND as int,
            ) as i64,
            ..w
        },
        CameraCommand::MoveFarther => WorldMetrics {
            world_translation_z: nudged(
                w.world_translation_z as int,
                CAMERA_STEP as int,
                COORD_BOUND as int,
            ) as i64,
            ..w
        },
        CameraCommand::StrafeLeft => WorldMetrics {
            world_translation_x: nudged(
                w.world_translation_x as int,
                CAMERA_STEP as int,
                COORD_BOUND as int,
            ) as i64,
            ..w
        },
        CameraCommand::StrafeRight => WorldMetrics {
            world_translation_x: nudged(
                w.world_translation_x as int,
                -(CAMERA_STEP as int),
                COORD_BOUND as int,
            ) as i64,
            ..w
        },
    }
}

/// Apply one navigation command to the state, stepping the addressed
/// field by 0.05 in fixed-point units and saturating at the state
/// bound.
pub fn apply_camera_command(world: &mut WorldMetrics, cmd: CameraCommand)
    requires
        world_wf(*old(world)),
    ensures
        *final(world) == spec_apply_command(*old(world), cmd),
        world_wf(*final(world)),
{
    match cmd {
        CameraCommand::PitchUp => {
            if world.camera_pitch - CAMERA_STEP >= -STATE_BOUND {
                world.camera_pitch = world.camera_pitch - CAMERA_STEP;
            }
        },
        CameraCommand::PitchDown => {
            if world.camera_pitch + CAMERA_STEP <= STATE_BOUND {
                world.camera_pitch = world.camera_pitch + CAMERA_STEP;
            }
        },
        CameraCommand::YawLeft => {
            if world.camera_yaw - CAMERA_STEP >= -STATE_BOUND {
                world.camera_yaw = world.camera_yaw - CAMERA_STEP;
            }
        },
        CameraCommand::YawRight => {
            if world.camera_yaw + CAMERA_STEP <= STATE_BOUND {
                world.camera_yaw = world.camera_yaw + CAMERA_STEP;
            }
        },
        CameraCommand::MoveNearer => {
            if world.world_translation_z - CAMERA_STEP >= -COORD_BOUND {
                world.world_translation_z = world.world_translation_z - CAMERA_STEP;
            }
        },
        CameraCommand::MoveFarther => {
            if world.world_translation_z + CAMERA_STEP <= COORD_BOUND {
                world.world_translation_z = world.world_translation_z + CAMERA_STEP;
            }
        },
        CameraCommand::StrafeLeft => {
            if world.world_translation_x + CAMERA_STEP <= COORD_BOUND {
                world.world_translation_x = world.world_translation_x + CAMERA_STEP;
            }
        },
        CameraCommand::StrafeRight => {
            if world.world_translation_x - CAMERA_STEP >= -COORD_BOUND {
                world.world_translation_x = world.world_translation_x - CAMERA_STEP;
            }
        },
    }
}

} // verus!
