//! Pairwise overlap detection and the velocity exchange that answers it.
//!
//! Detection walks every ordered pair of indices in row-major order and
//! records the colliding ones without touching any body. Resolution then
//! replays the record in order. A colliding pair is recorded twice, once in
//! each order, so the exchange is applied to it twice; the second
//! application works on the velocities the first one left behind.

use vstd::prelude::*;
use crate::vector::Vec2;
use crate::body::Body;

verus! {

/// The factor by which an exchanged relative velocity is amplified.
pub const AMPLIFICATION: i32 = 5;

/// The bounding circles of `a` and `b` overlap: the Euclidean distance
/// between the centres is below the sum of the radii. Stated over squares,
/// which is the same comparison wherever the sum of the radii is positive; a
/// sum that is not positive is below no distance.
pub open spec fn overlapping(a: Body, b: Body) -> bool {
    let dx = a.position.x - b.position.x;
    let dy = a.position.y - b.position.y;
    let reach = a.radius + b.radius;
    reach > 0 && dx * dx + dy * dy < reach * reach
}

/// Two bodies collide when they overlap and do not sit on the very same
/// point. Bodies with identical positions never collide, whatever their
/// radii.
pub open spec fn colliding(a: Body, b: Body) -> bool {
    a.position != b.position && overlapping(a, b)
}

/// The colliding pairs `(i, j)` with `j < upto`, in increasing `j`.
pub open spec fn row_hits(bodies: Seq<Body>, i: int, upto: int) -> Seq<(usize, usize)>
    decreases upto,
{
    if upto <= 0 {
        Seq::empty()
    } else {
        let before = row_hits(bodies, i, upto - 1);
        if colliding(bodies[i], bodies[upto - 1]) {
            before.push((i as usize, (upto - 1) as usize))
        } else {
            before
        }
    }
}

/// The colliding pairs `(i, j)` with `i < rows`, row after row.
pub open spec fn hits_before(bodies: Seq<Body>, rows: int) -> Seq<(usize, usize)>
    decreases rows,
{
    if rows <= 0 {
        Seq::empty()
    } else {
        hits_before(bodies, rows - 1) + row_hits(bodies, rows - 1, bodies.len() as int)
    }
}

/// Every colliding ordered pair of the collection, in row-major order.
pub open spec fn colliding_pairs(bodies: Seq<Body>) -> Seq<(usize, usize)> {
    hits_before(bodies, bodies.len() as int)
}

/// The collection after one exchange between the bodies at `i` and `j`:
/// each takes the other's velocity relative to itself, amplified. Positions
/// and radii stay. Where `i == j` the later assignment, the one for `j`,
/// stands.
pub open spec fn exchanged(bodies: Seq<Body>, i: int, j: int) -> Seq<Body> {
    let vi = bodies[i].velocity;
    let vj = bodies[j].velocity;
    let to_i = vj.minus_spec(vi).scaled_spec(AMPLIFICATION);
    let to_j = vi.minus_spec(vj).scaled_spec(AMPLIFICATION);
    bodies.update(i, bodies[i].with_velocity(to_i)).update(j, bodies[j].with_velocity(to_j))
}

/// The collection after the exchanges of `pairs`, applied first to last.
pub open spec fn exchanges_applied(bodies: Seq<Body>, pairs: Seq<(usize, usize)>) -> Seq<Body>
    decreases pairs.len(),
{
    if pairs.len() == 0 {
        bodies
    } else {
        let last = pairs.last();
        exchanged(exchanges_applied(bodies, pairs.drop_last()), last.0 as int, last.1 as int)
    }
}

/// The collection after one round of pair resolution: detection on the
/// collection as it stands, then every recorded exchange in order.
pub open spec fn pairs_resolved(bodies: Seq<Body>) -> Seq<Body> {
    exchanges_applied(bodies, colliding_pairs(bodies))
}

/// Every pair of `pairs` indexes into a collection of `len` bodies.
pub open spec fn pairs_in_range(pairs: Seq<(usize, usize)>, len: nat) -> bool {
    forall|k: int| 0 <= k < pairs.len() ==> (#[trigger] pairs[k]).0 < len && pairs[k].1 < len
}

/// `after` holds as many bodies as `before`, each where it was and as large
/// as it was.
pub open spec fn same_places(before: Seq<Body>, after: Seq<Body>) -> bool {
    &&& after.len() == before.len()
    &&& forall|i: int|
        0 <= i < before.len() ==> (#[trigger] after[i]).position == before[i].position
            && after[i].radius == before[i].radius
}

/// `p` comes before `q` in row-major order.
pub open spec fn precedes(p: (usize, usize), q: (usize, usize)) -> bool {
    p.0 < q.0 || (p.0 == q.0 && p.1 < q.1)
}

/// The square of a difference of two coordinates or of a sum of two radii.
fn square(v: i64) -> (r: i128)
    requires
        -0x1_0000_0000 <= v <= 0x1_0000_0000,
    ensures
        r == v * v,
        0 <= r <= 0x1_0000_0000_0000_0000_0000,
{
    assert(0 <= v * v <= 0x1_0000_0000_0000_0000_0000) by (nonlinear_arith)
        requires
            -0x1_0000_0000 <= v <= 0x1_0000_0000,
    ;
    (v as i128) * (v as i128)
}

/// Tells whether two bodies collide.
pub fn is_colliding(a: &Body, b: &Body) -> (r: bool)
    ensures
        r == colliding(*a, *b),
{
    if a.position == b.position {
        return false;
    }
    let reach: i64 = a.radius as i64 + b.radius as i64;
    if reach <= 0 {
        return false;
    }
    let dx: i64 = a.position.x as i64 - b.position.x as i64;
    let dy: i64 = a.position.y as i64 - b.position.y as i64;
    square(dx) + square(dy) < square(reach)
}

/// Records every colliding ordered pair, in row-major order, without
/// changing any body.
pub fn detect_collisions(bodies: &Vec<Body>) -> (pairs: Vec<(usize, usize)>)
    ensures
        pairs@ == colliding_pairs(bodies@),
{
    let n: usize = bodies.len();
    let mut pairs: Vec<(usize, usize)> = Vec::new();
    let mut i: usize = 0;
    while i < n
        invariant
            i <= n,
            n == bodies.len(),
            pairs@ == hits_before(bodies@, i as int),
        decreases n - i,
    {
        let ghost above = pairs@;
        let mut j: usize = 0;
        while j < n
            invariant
                i < n,
                j <= n,
                n == bodies.len(),
                pairs@ == above + row_hits(bodies@, i as int, j as int),
            decreases n - j,
        {
            if is_colliding(&bodies[i], &bodies[j]) {
                pairs.push((i, j));
            }
            j += 1;
        }
        i += 1;
    }
    pairs
}

/// Exchanges the velocities of the bodies at `i` and `j`.
pub fn exchange_velocities(bodies: &mut Vec<Body>, i: usize, j: usize)
    requires
        i < old(bodies).len(),
        j < old(bodies).len(),
    ensures
        final(bodies)@ == exchanged(old(bodies)@, i as int, j as int),
{
    let vi: Vec2 = bodies[i].velocity;
    let vj: Vec2 = bodies[j].velocity;
    bodies[i].velocity = vj.minus(vi).scaled(AMPLIFICATION);
    bodies[j].velocity = vi.minus(vj).scaled(AMPLIFICATION);
}

/// Applies the exchanges of `pairs`, first to last.
pub fn apply_exchanges(bodies: &mut Vec<Body>, pairs: &Vec<(usize, usize)>)
    requires
        pairs_in_range(pairs@, old(bodies)@.len()),
    ensures
        final(bodies)@ == exchanges_applied(old(bodies)@, pairs@),
{
    let mut k: usize = 0;
    while k < pairs.len()
        invariant
            k <= pairs.len(),
            bodies@.len() == old(bodies)@.len(),
            pairs_in_range(pairs@, bodies@.len()),
            bodies@ == exchanges_applied(old(bodies)@, pairs@.take(k as int)),
        decreases pairs.len() - k,
    {
        let (i, j) = pairs[k];
        assert(pairs@.take(k + 1).drop_last() == pairs@.take(k as int));
        exchange_velocities(bodies, i, j);
        k += 1;
    }
    assert(pairs@.take(k as int) == pairs@);
}

/// Runs one round of pair resolution in place: detection first, on a
/// snapshot that no exchange has touched, then every recorded exchange in
/// order. Only velocities change.
pub fn resolve_pairs(bodies: &mut Vec<Body>)
    ensures
        final(bodies)@ == pairs_resolved(old(bodies)@),
        same_places(old(bodies)@, final(bodies)@),
{
    let pairs = detect_collisions(bodies);
    proof {
        assert(bodies@.len() == bodies.len());
        lemma_colliding_pairs(bodies@);
        lemma_exchanges_keep_places(bodies@, pairs@);
    }
    apply_exchanges(bodies, &pairs);
}

/// Collision is symmetric: if `a` collides with `b`, then `b` collides with
/// `a`. This is why every collision is recorded in both orders.
pub proof fn lemma_colliding_symmetric(a: Body, b: Body)
    ensures
        colliding(a, b) == colliding(b, a),
{
    let dx = a.position.x - b.position.x;
    let dy = a.position.y - b.position.y;
    assert(dx * dx == (-dx) * (-dx)) by (nonlinear_arith);
    assert(dy * dy == (-dy) * (-dy)) by (nonlinear_arith);
}

/// Bodies at one and the same position never collide, whatever their radii
/// and velocities.
pub proof fn lemma_coincident_never_collide(a: Body, b: Body)
    requires
        a.position == b.position,
    ensures
        !colliding(a, b),
{
}

proof fn lemma_row_hits(bodies: Seq<Body>, i: int, upto: int)
    requires
        0 <= i < bodies.len() <= usize::MAX,
        0 <= upto <= bodies.len(),
    ensures
        forall|k: int|
            0 <= k < row_hits(bodies, i, upto).len() ==> {
                let p = #[trigger] row_hits(bodies, i, upto)[k];
                p.0 == i && p.1 < upto && colliding(bodies[i], bodies[p.1 as int])
            },
        forall|k: int, l: int|
            0 <= k < l < row_hits(bodies, i, upto).len() ==> precedes(
                #[trigger] row_hits(bodies, i, upto)[k],
                #[trigger] row_hits(bodies, i, upto)[l],
            ),
        forall|j: int|
            0 <= j < upto && #[trigger] colliding(bodies[i], bodies[j]) ==> row_hits(
                bodies,
                i,
                upto,
            ).contains((i as usize, j as usize)),
    decreases upto,
{
    if upto > 0 {
        lemma_row_hits(bodies, i, upto - 1);
        let before = row_hits(bodies, i, upto - 1);
        let row = row_hits(bodies, i, upto);
        assert forall|j: int| 0 <= j < upto && #[trigger] colliding(
            bodies[i],
            bodies[j],
        ) implies row.contains((i as usize, j as usize)) by {
            if j < upto - 1 {
                let k = choose|k: int| 0 <= k < before.len() && before[k] == (i as usize, j as usize);
                assert(row[k] == (i as usize, j as usize));
            } else {
                assert(row[row.len() - 1] == (i as usize, j as usize));
            }
        }
    }
}

proof fn lemma_hits_before(bodies: Seq<Body>, rows: int)
    requires
        bodies.len() <= usize::MAX,
        0 <= rows <= bodies.len(),
    ensures
        forall|k: int|
            0 <= k < hits_before(bodies, rows).len() ==> {
                let p = #[trigger] hits_before(bodies, rows)[k];
                p.0 < rows && p.1 < bodies.len() && colliding(
                    bodies[p.0 as int],
                    bodies[p.1 as int],
                )
            },
        forall|k: int, l: int|
            0 <= k < l < hits_before(bodies, rows).len() ==> precedes(
                #[trigger] hits_before(bodies, rows)[k],
                #[trigger] hits_before(bodies, rows)[l],
            ),
        forall|i: int, j: int|
            0 <= i < rows && 0 <= j < bodies.len() && #[trigger] colliding(bodies[i], bodies[j])
                ==> hits_before(bodies, rows).contains((i as usize, j as usize)),
    decreases rows,
{
    if rows > 0 {
        lemma_hits_before(bodies, rows - 1);
        lemma_row_hits(bodies, rows - 1, bodies.len() as int);
        let above = hits_before(bodies, rows - 1);
        let row = row_hits(bodies, rows - 1, bodies.len() as int);
        let all = hits_before(bodies, rows);
        assert(all == above + row);
        assert forall|k: int| 0 <= k < all.len() implies {
            let p = #[trigger] all[k];
            p.0 < rows && p.1 < bodies.len() && colliding(bodies[p.0 as int], bodies[p.1 as int])
        } by {
            if k < above.len() {
                assert(all[k] == above[k]);
            } else {
                assert(all[k] == row[k - above.len()]);
            }
        }
        assert forall|k: int, l: int| 0 <= k < l < all.len() implies precedes(
            #[trigger] all[k],
            #[trigger] all[l],
        ) by {
            if l < above.len() {
                assert(all[k] == above[k] && all[l] == above[l]);
            } else if k < above.len() {
                assert(all[k] == above[k] && all[l] == row[l - above.len()]);
            } else {
                assert(all[k] == row[k - above.len()] && all[l] == row[l - above.len()]);
            }
        }
        assert forall|i: int, j: int|
            0 <= i < rows && 0 <= j < bodies.len() && #[trigger] colliding(
                bodies[i],
                bodies[j],
            ) implies all.contains((i as usize, j as usize)) by {
            if i < rows - 1 {
                let k = choose|k: int| 0 <= k < above.len() && above[k] == (i as usize, j as usize);
                assert(all[k] == (i as usize, j as usize));
            } else {
                let k = choose|k: int| 0 <= k < row.len() && row[k] == (i as usize, j as usize);
                assert(all[above.len() + k] == (i as usize, j as usize));
            }
        }
    }
}

/// What detection records: exactly the colliding ordered pairs of distinct
/// indices, each once, in row-major order.
pub proof fn lemma_colliding_pairs(bodies: Seq<Body>)
    requires
        bodies.len() <= usize::MAX,
    ensures
        pairs_in_range(colliding_pairs(bodies), bodies.len()),
        forall|k: int|
            0 <= k < colliding_pairs(bodies).len() ==> {
                let p = #[trigger] colliding_pairs(bodies)[k];
                p.0 != p.1 && colliding(bodies[p.0 as int], bodies[p.1 as int])
            },
        forall|k: int, l: int|
            0 <= k < l < colliding_pairs(bodies).len() ==> precedes(
                #[trigger] colliding_pairs(bodies)[k],
                #[trigger] colliding_pairs(bodies)[l],
            ),
        forall|i: int, j: int|
            0 <= i < bodies.len() && 0 <= j < bodies.len() && #[trigger] colliding(
                bodies[i],
                bodies[j],
            ) ==> colliding_pairs(bodies).contains((i as usize, j as usize)),
{
    lemma_hits_before(bodies, bodies.len() as int);
}

/// A collision is recorded in both orders: `(i, j)` is among the recorded
/// pairs exactly when `(j, i)` is.
pub proof fn lemma_pairs_come_twice(bodies: Seq<Body>, i: int, j: int)
    requires
        bodies.len() <= usize::MAX,
        0 <= i < bodies.len(),
        0 <= j < bodies.len(),
    ensures
        colliding_pairs(bodies).contains((i as usize, j as usize)) == colliding_pairs(
            bodies,
        ).contains((j as usize, i as usize)),
        colliding_pairs(bodies).contains((i as usize, j as usize)) == colliding(
            bodies[i],
            bodies[j],
        ),
{
    lemma_colliding_pairs(bodies);
    lemma_colliding_symmetric(bodies[i], bodies[j]);
    let pairs = colliding_pairs(bodies);
    if pairs.contains((i as usize, j as usize)) {
        let k = choose|k: int| 0 <= k < pairs.len() && pairs[k] == (i as usize, j as usize);
        assert(colliding(bodies[pairs[k].0 as int], bodies[pairs[k].1 as int]));
    }
    if pairs.contains((j as usize, i as usize)) {
        let k = choose|k: int| 0 <= k < pairs.len() && pairs[k] == (j as usize, i as usize);
        assert(colliding(bodies[pairs[k].0 as int], bodies[pairs[k].1 as int]));
    }
}

/// Exchanges move no body and resize none.
pub proof fn lemma_exchanges_keep_places(bodies: Seq<Body>, pairs: Seq<(usize, usize)>)
    requires
        pairs_in_range(pairs, bodies.len()),
    ensures
        same_places(bodies, exchanges_applied(bodies, pairs)),
    decreases pairs.len(),
{
    if pairs.len() > 0 {
        let earlier = pairs.drop_last();
        assert forall|k: int| 0 <= k < earlier.len() implies (#[trigger] earlier[k]).0
            < bodies.len() && earlier[k].1 < bodies.len() by {
            assert(earlier[k] == pairs[k]);
        }
        lemma_exchanges_keep_places(bodies, earlier);
        let last = pairs[pairs.len() - 1];
        assert(last.0 < bodies.len() && last.1 < bodies.len());
    }
}

/// Where no two bodies collide, pair resolution changes nothing.
pub proof fn lemma_no_collision_unchanged(bodies: Seq<Body>)
    requires
        bodies.len() <= usize::MAX,
        forall|i: int, j: int|
            0 <= i < bodies.len() && 0 <= j < bodies.len() ==> !#[trigger] colliding(
                bodies[i],
                bodies[j],
            ),
    ensures
        colliding_pairs(bodies).len() == 0,
        pairs_resolved(bodies) == bodies,
{
    lemma_colliding_pairs(bodies);
    let pairs = colliding_pairs(bodies);
    if pairs.len() > 0 {
        let p = pairs[0];
        assert(colliding(bodies[p.0 as int], bodies[p.1 as int]));
    }
}

/// A body never collides with itself: in a collection of one body, pair
/// resolution leaves the velocity as it was.
pub proof fn lemma_single_body_unchanged(bodies: Seq<Body>)
    requires
        bodies.len() == 1,
    ensures
        pairs_resolved(bodies) == bodies,
{
    lemma_no_collision_unchanged(bodies);
}

/// Two bodies at one and the same position pass through pair resolution
/// unchanged.
pub proof fn lemma_coincident_pair_unchanged(bodies: Seq<Body>)
    requires
        bodies.len() == 2,
        bodies[0].position == bodies[1].position,
    ensures
        pairs_resolved(bodies) == bodies,
{
    lemma_no_collision_unchanged(bodies);
}

/// Two colliding bodies are recorded as `(0, 1)` and then `(1, 0)`, and the
/// exchange runs twice: the second run starts from the velocities that the
/// first one left.
pub proof fn lemma_two_body_collision(bodies: Seq<Body>)
    requires
        bodies.len() == 2,
        colliding(bodies[0], bodies[1]),
    ensures
        colliding_pairs(bodies) == seq![(0usize, 1usize), (1usize, 0usize)],
        pairs_resolved(bodies) == exchanged(exchanged(bodies, 0, 1), 1, 0),
        ({
            let v0 = bodies[0].velocity;
            let v1 = bodies[1].velocity;
            let once0 = v1.minus_spec(v0).scaled_spec(AMPLIFICATION);
            let once1 = v0.minus_spec(v1).scaled_spec(AMPLIFICATION);
            pairs_resolved(bodies) == seq![
                bodies[0].with_velocity(once1.minus_spec(once0).scaled_spec(AMPLIFICATION)),
                bodies[1].with_velocity(once0.minus_spec(once1).scaled_spec(AMPLIFICATION)),
            ]
        }),
{
    lemma_colliding_symmetric(bodies[0], bodies[1]);
    reveal_with_fuel(hits_before, 3);
    reveal_with_fuel(row_hits, 3);
    let pairs = colliding_pairs(bodies);
    assert(pairs == seq![(0usize, 1usize), (1usize, 0usize)]);
    assert(pairs.drop_last() == seq![(0usize, 1usize)]);
    assert(pairs.drop_last().drop_last() == Seq::<(usize, usize)>::empty());
    reveal_with_fuel(exchanges_applied, 3);
    assert(pairs_resolved(bodies) == exchanged(exchanged(bodies, 0, 1), 1, 0));
}

/// The closed form of a two-body collision: where fifty times the velocity
/// difference fits the coordinate range, each body leaves with fifty times
/// its own velocity relative to the other.
pub proof fn lemma_two_body_collision_exact(bodies: Seq<Body>)
    requires
        bodies.len() == 2,
        colliding(bodies[0], bodies[1]),
        i32::MIN <= 50 * (bodies[0].velocity.x - bodies[1].velocity.x) <= i32::MAX,
        i32::MIN <= 50 * (bodies[1].velocity.x - bodies[0].velocity.x) <= i32::MAX,
        i32::MIN <= 50 * (bodies[0].velocity.y - bodies[1].velocity.y) <= i32::MAX,
        i32::MIN <= 50 * (bodies[1].velocity.y - bodies[0].velocity.y) <= i32::MAX,
    ensures
        pairs_resolved(bodies).len() == 2,
        pairs_resolved(bodies)[0].velocity.x == 50 * (bodies[0].velocity.x - bodies[1].velocity.x),
        pairs_resolved(bodies)[0].velocity.y == 50 * (bodies[0].velocity.y - bodies[1].velocity.y),
        pairs_resolved(bodies)[1].velocity.x == 50 * (bodies[1].velocity.x - bodies[0].velocity.x),
        pairs_resolved(bodies)[1].velocity.y == 50 * (bodies[1].velocity.y - bodies[0].velocity.y),
{
    lemma_two_body_collision(bodies);
}

} // verus!
