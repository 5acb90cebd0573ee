use vstd::prelude::*;

use crate::scalar::{Scalar, Vec3S};

verus! {

/// The viewpoint: a position and pitch, yaw and roll angles.  The host
/// derives the view matrix from these once per frame; the core holds the
/// state and its exact movement.
#[derive(Clone, Copy, Debug)]
pub struct Camera {
    pub position: Vec3S,
    pub pitch: Scalar,
    pub yaw: Scalar,
    pub roll: Scalar,
}

impl Camera {
    /// A camera at the origin looking straight ahead.
    pub fn new() -> (r: Camera)
        ensures
            r.position.x.nanos == 0 && r.position.y.nanos == 0 && r.position.z.nanos == 0,
            r.pitch.nanos == 0 && r.yaw.nanos == 0 && r.roll.nanos == 0,
    {
        Camera {
            position: Vec3S::zero(),
            pitch: Scalar::zero(),
            yaw: Scalar::zero(),
            roll: Scalar::zero(),
        }
    }

    pub fn get_position(&self) -> (r: Vec3S)
        ensures
            r == self.position,
    {
        self.position
    }

    /// Move the camera by an exact componentwise delta.
    pub fn move_camera(&mut self, direction: Vec3S)
        requires
            i64::MIN <= old(self).position.x.nanos + direction.x.nanos <= i64::MAX,
            i64::MIN <= old(self).position.y.nanos + direction.y.nanos <= i64::MAX,
            i64::MIN <= old(self).position.z.nanos + direction.z.nanos <= i64::MAX,
        ensures
            final(self).position.x.nanos == old(self).position.x.nanos + direction.x.nanos,
            final(self).position.y.nanos == old(self).position.y.nanos + direction.y.nanos,
            final(self).position.z.nanos == old(self).position.z.nanos + direction.z.nanos,
            final(self).pitch == old(self).pitch,
            final(self).yaw == old(self).yaw,
            final(self).roll == old(self).roll,
    {
        self.position = self.position.plus(direction);
    }
}

} // verus!
