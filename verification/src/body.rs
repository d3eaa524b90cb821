//! The simulated body and the rectangle it lives in.

use vstd::prelude::*;
use crate::vector::Vec2;

verus! {

/// A circular particle: where it is, how far it moves per tick, and the
/// radius of its bounding circle.
#[derive(Clone, Copy, Debug, PartialEq, Eq, Structural)]
pub struct Body {
    pub position: Vec2,
    pub velocity: Vec2,
    pub radius: i32,
}

/// The axis-aligned world rectangle `[0, width] x [0, height]`.
#[derive(Clone, Copy, Debug, PartialEq, Eq, Structural)]
pub struct Bounds {
    pub width: i32,
    pub height: i32,
}

/// Why a body could not be constructed.
#[derive(Clone, Copy, Debug, PartialEq, Eq, Structural)]
pub enum BodyError {
    /// The radius was zero or negative.
    InvalidRadius,
}

impl Body {
    /// A body is well formed when its radius is positive.
    pub open spec fn wf(&self) -> bool {
        self.radius > 0
    }

    /// The same body moving at `velocity`.
    pub open spec fn with_velocity(self, velocity: Vec2) -> Body {
        Body { position: self.position, velocity, radius: self.radius }
    }

    /// The same body placed at `position`.
    pub open spec fn with_position(self, position: Vec2) -> Body {
        Body { position, velocity: self.velocity, radius: self.radius }
    }
}

/// Every body of the collection is well formed.
pub open spec fn all_wf(bodies: Seq<Body>) -> bool {
    forall|i: int| 0 <= i < bodies.len() ==> (#[trigger] bodies[i]).wf()
}

/// Builds a body, or rejects it when the radius is not positive. Nothing is
/// constructed on rejection.
pub fn create_body(position: Vec2, velocity: Vec2, radius: i32) -> (r: Result<Body, BodyError>)
    ensures
        radius > 0 ==> r == Ok::<Body, BodyError>(Body { position, velocity, radius }),
        radius <= 0 ==> r == Err::<Body, BodyError>(BodyError::InvalidRadius),
        r matches Ok(body) ==> body.wf(),
{
    if radius <= 0 {
        Err(BodyError::InvalidRadius)
    } else {
        Ok(Body { position, velocity, radius })
    }
}

impl Bounds {
    pub fn new(width: i32, height: i32) -> (r: Bounds)
        ensures
            r == (Bounds { width, height }),
    {
        Bounds { width, height }
    }
}

} // verus!
