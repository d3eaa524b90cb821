//! The tick, and the simulation value that owns the bodies.
//!
//! One tick runs three passes over the whole collection: reflection at the
//! walls, pair resolution, integration. Velocities are therefore corrected on
//! the positions before the move, and every body then moves with its
//! corrected velocity.

use vstd::prelude::*;
use rand::Rng;
use crate::vector::Vec2;
use crate::body::{all_wf, create_body, Body, BodyError, Bounds};
use crate::integrator::{advance_all, advanced, all_advanced};
use crate::wall::{reflected, resolve_all, walls_resolved};
use crate::pair::{
    colliding_pairs,
    lemma_colliding_pairs,
    lemma_exchanges_keep_places,
    lemma_single_body_unchanged,
    pairs_resolved,
    resolve_pairs,
};

verus! {

/// The collection one tick later.
pub open spec fn stepped(bodies: Seq<Body>, bounds: Bounds) -> Seq<Body> {
    all_advanced(pairs_resolved(walls_resolved(bodies, bounds)))
}

/// Runs one full tick in place. It cannot fail; velocities and positions
/// that leave the coordinate range stay at its ends.
pub fn step(bodies: &mut Vec<Body>, bounds: &Bounds)
    ensures
        final(bodies)@ == stepped(old(bodies)@, *bounds),
        final(bodies)@.len() == old(bodies)@.len(),
        forall|i: int|
            0 <= i < old(bodies)@.len() ==> (#[trigger] final(bodies)@[i]).radius == old(bodies)@[i].radius,
{
    resolve_all(bodies, bounds);
    resolve_pairs(bodies);
    advance_all(bodies);
}

/// The coordinate that lies the fraction `bits / 2^32` of the way along an
/// extent; `0` where the extent is not positive.
pub open spec fn fraction_of(extent: i32, bits: u32) -> i32 {
    if extent <= 0 {
        0
    } else {
        ((bits as int * extent as int) / 0x1_0000_0000) as i32
    }
}

/// The point of the rectangle picked by two 32-bit fractions, one per axis.
pub open spec fn point_in(bounds: Bounds, bits_x: u32, bits_y: u32) -> Vec2 {
    Vec2 { x: fraction_of(bounds.width, bits_x), y: fraction_of(bounds.height, bits_y) }
}

/// `p` lies in the rectangle, short of its far walls; on an axis without
/// extent it lies at `0`.
pub open spec fn inside(bounds: Bounds, p: Vec2) -> bool {
    &&& if bounds.width > 0 {
        0 <= p.x < bounds.width
    } else {
        p.x == 0
    }
    &&& if bounds.height > 0 {
        0 <= p.y < bounds.height
    } else {
        p.y == 0
    }
}

/// Scales a 32-bit fraction to an extent.
pub fn place_along(extent: i32, bits: u32) -> (r: i32)
    ensures
        r == fraction_of(extent, bits),
        extent > 0 ==> 0 <= r < extent,
        extent <= 0 ==> r == 0,
{
    if extent <= 0 {
        return 0;
    }
    assert(0 <= bits as int * extent as int <= 0xffff_ffff * extent as int) by (nonlinear_arith)
        requires
            0 <= bits <= 0xffff_ffff,
            0 < extent,
    ;
    let product: u64 = bits as u64 * extent as u64;
    (product / 0x1_0000_0000) as i32
}

/// The point of the rectangle picked by two 32-bit fractions.
pub fn place_in(bounds: &Bounds, bits_x: u32, bits_y: u32) -> (p: Vec2)
    ensures
        p == point_in(*bounds, bits_x, bits_y),
        inside(*bounds, p),
{
    Vec2 { x: place_along(bounds.width, bits_x), y: place_along(bounds.height, bits_y) }
}

/// Draws 32 bits from `rand`'s thread-local generator
/// (`rand::thread_rng().gen::<u32>()`). Nothing is claimed of the value:
/// every `u32` may come back, and two calls may differ.
#[verifier::external_body]
fn random_bits() -> u32 {
    rand::thread_rng().gen::<u32>()
}

/// A random point of the rectangle. The x coordinate is drawn first.
pub fn random_point(bounds: &Bounds) -> (p: Vec2)
    ensures
        inside(*bounds, p),
{
    let bits_x: u32 = random_bits();
    let bits_y: u32 = random_bits();
    place_in(bounds, bits_x, bits_y)
}

/// A set of bodies and the rectangle they move in.
pub struct Simulation {
    pub bodies: Vec<Body>,
    pub bounds: Bounds,
}

impl Simulation {
    /// An empty simulation.
    pub fn new(bounds: Bounds) -> (r: Simulation)
        ensures
            r.bounds == bounds,
            r.bodies@.len() == 0,
    {
        Simulation { bodies: Vec::new(), bounds }
    }

    /// Adds one body at the end of the collection, or rejects it, changing
    /// nothing, when the radius is not positive.
    pub fn spawn(&mut self, position: Vec2, velocity: Vec2, radius: i32) -> (r: Result<
        (),
        BodyError,
    >)
        ensures
            final(self).bounds == old(self).bounds,
            radius > 0 ==> r is Ok && final(self).bodies@ == old(self).bodies@.push(
                Body { position, velocity, radius },
            ),
            radius <= 0 ==> r == Err::<(), BodyError>(BodyError::InvalidRadius) && final(self).bodies@ == old(self).bodies@,
    {
        match create_body(position, velocity, radius) {
            Ok(body) => {
                self.bodies.push(body);
                Ok(())
            },
            Err(e) => Err(e),
        }
    }

    /// Adds `count` bodies of one radius and one velocity at random points
    /// of the rectangle, or rejects the request, changing nothing, when the
    /// radius is not positive.
    pub fn scatter(&mut self, count: usize, velocity: Vec2, radius: i32) -> (r: Result<
        (),
        BodyError,
    >)
        ensures
            final(self).bounds == old(self).bounds,
            radius <= 0 ==> r == Err::<(), BodyError>(BodyError::InvalidRadius) && final(self).bodies@ == old(self).bodies@,
            radius > 0 ==> {
                &&& r is Ok
                &&& final(self).bodies@.len() == old(self).bodies@.len() + count
                &&& final(self).bodies@.take(old(self).bodies@.len() as int) == old(self).bodies@
                &&& forall|i: int|
                    old(self).bodies@.len() <= i < final(self).bodies@.len() ==> {
                        let body = #[trigger] final(self).bodies@[i];
                        body.velocity == velocity && body.radius == radius && inside(
                            old(self).bounds,
                            body.position,
                        )
                    }
            },
    {
        if radius <= 0 {
            return Err(BodyError::InvalidRadius);
        }
        let ghost before = self.bodies@;
        let mut made: usize = 0;
        while made < count
            invariant
                made <= count,
                radius > 0,
                self.bounds == old(self).bounds,
                before == old(self).bodies@,
                self.bodies@.len() == before.len() + made,
                self.bodies@.take(before.len() as int) == before,
                forall|i: int|
                    before.len() <= i < self.bodies@.len() ==> {
                        let body = #[trigger] self.bodies@[i];
                        body.velocity == velocity && body.radius == radius && inside(
                            self.bounds,
                            body.position,
                        )
                    },
            decreases count - made,
        {
            let position = random_point(&self.bounds);
            self.bodies.push(Body { position, velocity, radius });
            made += 1;
        }
        Ok(())
    }

    /// Advances the simulation by one tick.
    pub fn step(&mut self)
        ensures
            final(self).bounds == old(self).bounds,
            final(self).bodies@ == stepped(old(self).bodies@, old(self).bounds),
    {
        step(&mut self.bodies, &self.bounds);
    }
}

/// A tick keeps every body well formed: it changes no radius.
pub proof fn lemma_step_keeps_wf(bodies: Seq<Body>, bounds: Bounds)
    requires
        bodies.len() <= usize::MAX,
        all_wf(bodies),
    ensures
        stepped(bodies, bounds).len() == bodies.len(),
        all_wf(stepped(bodies, bounds)),
{
    let walled = walls_resolved(bodies, bounds);
    lemma_colliding_pairs(walled);
    lemma_exchanges_keep_places(walled, colliding_pairs(walled));
    let resolved = pairs_resolved(walled);
    assert forall|i: int| 0 <= i < bodies.len() implies (#[trigger] stepped(bodies, bounds)[i]).wf() by {
        assert(resolved[i].radius == walled[i].radius);
    }
}

/// A body without neighbours is reflected at the walls and then moved by
/// the velocity it is left with; the move is not held back at the walls.
pub proof fn lemma_lone_body_step(body: Body, bounds: Bounds)
    ensures
        stepped(seq![body], bounds) == seq![advanced(reflected(body, bounds))],
{
    let walled = walls_resolved(seq![body], bounds);
    assert(walled == seq![reflected(body, bounds)]);
    lemma_single_body_unchanged(walled);
}

/// A body without neighbours that is clear of all four walls only moves: a
/// tick adds its velocity to its position and leaves the velocity alone.
pub proof fn lemma_free_body_step(body: Body, bounds: Bounds)
    requires
        body.radius < body.position.x < bounds.width - body.radius,
        body.radius < body.position.y < bounds.height - body.radius,
        i32::MIN <= body.position.x + body.velocity.x <= i32::MAX,
        i32::MIN <= body.position.y + body.velocity.y <= i32::MAX,
    ensures
        stepped(seq![body], bounds).len() == 1,
        stepped(seq![body], bounds)[0].position.x == body.position.x + body.velocity.x,
        stepped(seq![body], bounds)[0].position.y == body.position.y + body.velocity.y,
        stepped(seq![body], bounds)[0].velocity == body.velocity,
        stepped(seq![body], bounds)[0].radius == body.radius,
{
    lemma_lone_body_step(body, bounds);
}

/// The walls do not hold a body back. A body without neighbours that
/// touches the far wall of the x axis and no other, moving outwards at speed
/// `v`, turns round and moves by `v` in the same tick; where `v` is more than
/// the way back to `x == 0`, the tick ends with the body outside the
/// rectangle, on the other side.
pub proof fn lemma_soft_walls(body: Body, bounds: Bounds, v: i32)
    requires
        v > 0,
        body.velocity.x == v,
        body.radius < body.position.x,
        body.position.x >= bounds.width - body.radius,
        i32::MIN <= body.position.x - v,
    ensures
        stepped(seq![body], bounds).len() == 1,
        stepped(seq![body], bounds)[0].velocity.x == -v,
        stepped(seq![body], bounds)[0].position.x == body.position.x - v,
        v > body.position.x ==> stepped(seq![body], bounds)[0].position.x < 0,
{
    lemma_lone_body_step(body, bounds);
}

} // verus!
