//! A joint of the chain: the motor variant that drives it, its gear
//! ratio, its anchor position in world space, and its kinematic state
//! (angular velocity and accumulated angle).
//!
//! A joint owns no physics; its velocity and angle are mutated only by
//! the integration step.  The anchor is set at construction and not
//! recomputed from the motion of preceding links.

use crate::errors::DomainError;
use crate::motor::MotorType;
use crate::point::Point;
use crate::rat::{is_pos, pzero, Rat};
use vstd::prelude::*;

verus! {

/// One joint of the chain.
#[derive(Clone, Copy, Debug)]
pub struct Joint {
    /// The motor variant driving the joint.
    pub motor_type: MotorType,
    /// World-space position of the pivot.
    pub s: Point,
    /// Angular velocity, in radians per second.
    pub v: Rat,
    /// Gear ratio between motor shaft and joint output, dimensionless
    /// and strictly positive.
    pub ratio: Rat,
    /// Accumulated angle, in radians, unbounded.
    pub angle: Rat,
}

impl Joint {
    /// Anchor, state and ratio are within range; the ratio is strictly
    /// positive.
    pub open spec fn wf(self) -> bool {
        &&& self.s.wf()
        &&& self.v.wf()
        &&& self.ratio.wf()
        &&& is_pos(self.ratio@)
        &&& self.angle.wf()
    }

    /// A joint at rest at the given anchor; rejects a non-positive gear
    /// ratio.
    pub fn new(s: Point, motor_type: MotorType, ratio: Rat) -> (r: Result<Joint, DomainError>)
        requires
            s.wf(),
            ratio.wf(),
        ensures
            r is Ok <==> is_pos(ratio@),
            r matches Ok(j) ==> j.wf() && j.motor_type == motor_type && j.s == s && j.ratio
                == ratio && j.v@ == pzero() && j.angle@ == pzero(),
            r is Err ==> r == Result::<Joint, DomainError>::Err(DomainError::NonPositiveRatio),
    {
        if ratio.numerator() < 1 {
            Err(DomainError::NonPositiveRatio)
        } else {
            Ok(
                Joint {
                    motor_type,
                    s,
                    v: Rat::from_int(0),
                    ratio,
                    angle: Rat::from_int(0),
                },
            )
        }
    }
}

impl Default for Joint {
    /// A joint at rest at the origin, driven by the default motor with a
    /// gear ratio of three.
    fn default() -> (r: Joint)
        ensures
            r.wf(),
            r.motor_type == MotorType::Neo550,
            r.s.x@ == pzero() && r.s.y@ == pzero(),
            r.ratio@ == (3int, 1int),
            r.v@ == pzero() && r.angle@ == pzero(),
    {
        Joint {
            motor_type: MotorType::Neo550,
            s: Point::origin(),
            v: Rat::from_int(0),
            ratio: Rat::from_int(3),
            angle: Rat::from_int(0),
        }
    }
}

} // verus!
