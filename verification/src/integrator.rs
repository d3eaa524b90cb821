//! Position integration: one tick moves a body by its velocity.

use vstd::prelude::*;
use crate::body::Body;

verus! {

/// The body one tick later: moved by its velocity, everything else as it
/// was.
pub open spec fn advanced(body: Body) -> Body {
    body.with_position(body.position.plus_spec(body.velocity))
}

/// Moves the body by its velocity.
pub fn advance(body: &mut Body)
    ensures
        *final(body) == advanced(*old(body)),
        final(body).velocity == old(body).velocity,
        final(body).radius == old(body).radius,
{
    body.position = body.position.plus(body.velocity);
}

/// The collection after every body has moved by its velocity.
pub open spec fn all_advanced(bodies: Seq<Body>) -> Seq<Body> {
    Seq::new(bodies.len(), |i: int| advanced(bodies[i]))
}

/// Moves every body of the collection by its velocity.
pub fn advance_all(bodies: &mut Vec<Body>)
    ensures
        final(bodies)@ == all_advanced(old(bodies)@),
{
    let n: usize = bodies.len();
    let mut i: usize = 0;
    while i < n
        invariant
            i <= n,
            bodies@.len() == n,
            old(bodies)@.len() == n,
            forall|k: int| 0 <= k < i ==> bodies@[k] == advanced(old(bodies)@[k]),
            forall|k: int| i <= k < n ==> bodies@[k] == old(bodies)@[k],
        decreases n - i,
    {
        advance(&mut bodies[i]);
        i += 1;
    }
}

/// Integration is exact: while the target lies in the coordinate range, the
/// new position is the old one plus the velocity, component by component.
pub proof fn lemma_advance_exact(body: Body)
    requires
        i32::MIN <= body.position.x + body.velocity.x <= i32::MAX,
        i32::MIN <= body.position.y + body.velocity.y <= i32::MAX,
    ensures
        advanced(body).position.x == body.position.x + body.velocity.x,
        advanced(body).position.y == body.position.y + body.velocity.y,
        advanced(body).velocity == body.velocity,
        advanced(body).radius == body.radius,
{
}

} // verus!
