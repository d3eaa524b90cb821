//! Reflection at the walls of the world rectangle.
//!
//! The walls are soft: touching one flips the sign of a velocity component
//! and moves nothing. A body fast enough may therefore still leave the
//! rectangle on the tick that follows.

use vstd::prelude::*;
use crate::vector::{sat, negate, Vec2};
use crate::body::{Body, Bounds};

verus! {

/// The body reaches the wall at `y == height`.
pub open spec fn at_far_y(body: Body, bounds: Bounds) -> bool {
    body.position.y >= bounds.height - body.radius
}

/// The body reaches the wall at `y == 0`.
pub open spec fn at_near_y(body: Body) -> bool {
    body.position.y <= body.radius
}

/// The body reaches the wall at `x == 0`.
pub open spec fn at_near_x(body: Body) -> bool {
    body.position.x <= body.radius
}

/// The body reaches the wall at `x == width`.
pub open spec fn at_far_x(body: Body, bounds: Bounds) -> bool {
    body.position.x >= bounds.width - body.radius
}

/// `v` with its sign inverted where `hit` holds.
pub open spec fn flipped_if(hit: bool, v: i32) -> i32 {
    if hit {
        sat(-v)
    } else {
        v
    }
}

/// The body after the four wall tests. Each wall that the body reaches
/// inverts the velocity component that points across it; the two walls of
/// one axis are tested one after the other, so a body that reaches both has
/// that component inverted twice.
pub open spec fn reflected(body: Body, bounds: Bounds) -> Body {
    body.with_velocity(
        Vec2 {
            x: flipped_if(at_far_x(body, bounds), flipped_if(at_near_x(body), body.velocity.x)),
            y: flipped_if(at_near_y(body), flipped_if(at_far_y(body, bounds), body.velocity.y)),
        },
    )
}

/// Reflects the body's velocity at the walls it has reached. The position is
/// not clamped. Calling this twice in one place inverts twice, so it is to
/// be called once per tick and body.
pub fn resolve(body: &mut Body, bounds: &Bounds)
    ensures
        *final(body) == reflected(*old(body), *bounds),
        final(body).position == old(body).position,
        final(body).radius == old(body).radius,
{
    let x: i64 = body.position.x as i64;
    let y: i64 = body.position.y as i64;
    let radius: i64 = body.radius as i64;
    if y >= bounds.height as i64 - radius {
        body.velocity.y = negate(body.velocity.y);
    }
    if y <= radius {
        body.velocity.y = negate(body.velocity.y);
    }
    if x <= radius {
        body.velocity.x = negate(body.velocity.x);
    }
    if x >= bounds.width as i64 - radius {
        body.velocity.x = negate(body.velocity.x);
    }
}

/// The collection after every body has been reflected at the walls.
pub open spec fn walls_resolved(bodies: Seq<Body>, bounds: Bounds) -> Seq<Body> {
    Seq::new(bodies.len(), |i: int| reflected(bodies[i], bounds))
}

/// Reflects every body of the collection, once each.
pub fn resolve_all(bodies: &mut Vec<Body>, bounds: &Bounds)
    ensures
        final(bodies)@ == walls_resolved(old(bodies)@, *bounds),
{
    let n: usize = bodies.len();
    let mut i: usize = 0;
    while i < n
        invariant
            i <= n,
            bodies@.len() == n,
            old(bodies)@.len() == n,
            forall|k: int| 0 <= k < i ==> bodies@[k] == reflected(old(bodies)@[k], *bounds),
            forall|k: int| i <= k < n ==> bodies@[k] == old(bodies)@[k],
        decreases n - i,
    {
        resolve(&mut bodies[i], bounds);
        i += 1;
    }
}

/// A body that touches the wall at `x == 0` and no other, moving towards it
/// at speed `v`, leaves moving away at speed `v`; the collider does not move
/// it.
pub proof fn lemma_single_axis_reflection(body: Body, bounds: Bounds, v: i32)
    requires
        v > 0,
        body.position.x == body.radius,
        body.velocity == (Vec2 { x: (-v) as i32, y: 0 }),
        body.radius < bounds.width - body.radius,
    ensures
        reflected(body, bounds).velocity == (Vec2 { x: v, y: 0 }),
        reflected(body, bounds).position == body.position,
{
}

/// A body in the corner at the origin, with velocity `(-v, -w)`, has both
/// components inverted by one call and leaves with `(v, w)`.
pub proof fn lemma_corner_reflection(body: Body, bounds: Bounds, v: i32, w: i32)
    requires
        v > i32::MIN,
        w > i32::MIN,
        body.position.x == body.radius,
        body.position.y == body.radius,
        body.velocity == (Vec2 { x: (-v) as i32, y: (-w) as i32 }),
        body.radius < bounds.width - body.radius,
        body.radius < bounds.height - body.radius,
    ensures
        reflected(body, bounds).velocity == (Vec2 { x: v, y: w }),
        reflected(body, bounds).position == body.position,
{
}

/// A body strictly inside the usable region keeps its velocity.
pub proof fn lemma_clear_of_walls(body: Body, bounds: Bounds)
    requires
        body.radius < body.position.x < bounds.width - body.radius,
        body.radius < body.position.y < bounds.height - body.radius,
    ensures
        reflected(body, bounds) == body,
{
}

} // verus!
