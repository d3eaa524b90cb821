use particle_sim::integrator::{advance, advance_all};
use particle_sim::{Body, Vec2};

#[test]
fn integration() {
    let mut b = Body { position: Vec2 { x: 10, y: 10 }, velocity: Vec2 { x: 2, y: -3 }, radius: 20 };
    advance(&mut b);
    assert_eq!(b.position, Vec2 { x: 12, y: 7 });
    assert_eq!(b.velocity, Vec2 { x: 2, y: -3 });
    assert_eq!(b.radius, 20);
    advance(&mut b);
    assert_eq!(b.position, Vec2 { x: 14, y: 4 });
}

#[test]
fn integration_with_zero_velocity_stays() {
    let mut b = Body { position: Vec2 { x: i32::MIN, y: i32::MAX }, velocity: Vec2 { x: 0, y: 0 }, radius: 1 };
    advance(&mut b);
    assert_eq!(b.position, Vec2 { x: i32::MIN, y: i32::MAX });
}

#[test]
fn integration_saturates_at_the_ends_of_the_range() {
    let mut b = Body {
        position: Vec2 { x: i32::MAX - 1, y: i32::MIN + 1 },
        velocity: Vec2 { x: 5, y: -5 },
        radius: 1,
    };
    advance(&mut b);
    assert_eq!(b.position, Vec2 { x: i32::MAX, y: i32::MIN });
}

#[test]
fn advance_all_moves_every_body() {
    let mut bodies = vec![
        Body { position: Vec2 { x: 0, y: 0 }, velocity: Vec2 { x: 1, y: 2 }, radius: 3 },
        Body { position: Vec2 { x: 10, y: 20 }, velocity: Vec2 { x: -1, y: -2 }, radius: 4 },
    ];
    advance_all(&mut bodies);
    assert_eq!(
        bodies,
        vec![
            Body { position: Vec2 { x: 1, y: 2 }, velocity: Vec2 { x: 1, y: 2 }, radius: 3 },
            Body { position: Vec2 { x: 9, y: 18 }, velocity: Vec2 { x: -1, y: -2 }, radius: 4 },
        ]
    );
}
