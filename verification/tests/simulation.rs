use particle_sim::simulation::{place_along, place_in, random_point};
use particle_sim::{step, Body, BodyError, Bounds, Simulation, Vec2};

fn field() -> Bounds {
    Bounds { width: 800, height: 600 }
}

fn body(x: i32, y: i32, vx: i32, vy: i32) -> Body {
    Body { position: Vec2 { x, y }, velocity: Vec2 { x: vx, y: vy }, radius: 20 }
}

#[test]
fn end_to_end_tick() {
    let mut bodies = vec![body(400, 300, 5, 5)];
    step(&mut bodies, &field());
    assert_eq!(bodies, vec![body(405, 305, 5, 5)]);
}

#[test]
fn boundary_tunneling_acceptance() {
    // Touching the far wall, moving outwards faster than the field is wide.
    let mut bodies = vec![body(780, 300, 900, 0)];
    step(&mut bodies, &field());
    assert_eq!(bodies[0].velocity, Vec2 { x: -900, y: 0 });
    assert_eq!(bodies[0].position, Vec2 { x: -120, y: 300 });
    assert!(bodies[0].position.x < 0);

    // Just short of the far wall: no reflection yet, and the move is not held back.
    let mut inside = vec![body(779, 300, 100, 0)];
    step(&mut inside, &field());
    assert_eq!(inside, vec![body(879, 300, 100, 0)]);
    assert!(inside[0].position.x > 800 + 20);
    // The tick after, the body is beyond the wall and turns round.
    step(&mut inside, &field());
    assert_eq!(inside, vec![body(779, 300, -100, 0)]);
}

#[test]
fn tick_reflects_before_it_moves() {
    let mut bodies = vec![body(20, 300, -5, 0)];
    step(&mut bodies, &field());
    assert_eq!(bodies, vec![body(25, 300, 5, 0)]);
}

#[test]
fn tick_runs_walls_then_pairs_then_integration() {
    let mut bodies = vec![body(20, 300, -5, 0), body(30, 300, 0, 0)];
    step(&mut bodies, &field());
    assert_eq!(bodies, vec![body(270, 300, 250, 0), body(-220, 300, -250, 0)]);
}

#[test]
fn tick_detects_on_positions_before_the_move() {
    // 41 apart: no overlap before the move, though the move brings them together.
    let mut bodies = vec![body(100, 300, 10, 0), body(141, 300, -10, 0)];
    step(&mut bodies, &field());
    assert_eq!(bodies, vec![body(110, 300, 10, 0), body(131, 300, -10, 0)]);
    // Now they overlap, and the next tick exchanges.
    step(&mut bodies, &field());
    assert_eq!(bodies, vec![body(1110, 300, 1000, 0), body(-869, 300, -1000, 0)]);
}

#[test]
fn tick_on_an_empty_collection() {
    let mut bodies: Vec<Body> = Vec::new();
    step(&mut bodies, &field());
    assert_eq!(bodies.len(), 0);
}

#[test]
fn tick_keeps_count_order_and_radii() {
    let mut bodies = vec![
        Body { position: Vec2 { x: 100, y: 100 }, velocity: Vec2 { x: 1, y: 1 }, radius: 5 },
        Body { position: Vec2 { x: 300, y: 100 }, velocity: Vec2 { x: 2, y: 2 }, radius: 6 },
        Body { position: Vec2 { x: 500, y: 100 }, velocity: Vec2 { x: 3, y: 3 }, radius: 7 },
    ];
    for _ in 0..50 {
        step(&mut bodies, &field());
    }
    assert_eq!(bodies.len(), 3);
    assert_eq!((bodies[0].radius, bodies[1].radius, bodies[2].radius), (5, 6, 7));
    assert_eq!(bodies[0].position, Vec2 { x: 150, y: 150 });
}

#[test]
fn runaway_velocities_stay_in_range() {
    let mut bodies = vec![body(400, 300, 1, 0), body(401, 300, 0, 0)];
    for _ in 0..40 {
        // Bring them back together so that every tick collides.
        bodies[0].position = Vec2 { x: 400, y: 300 };
        bodies[1].position = Vec2 { x: 401, y: 300 };
        step(&mut bodies, &field());
    }
    assert_eq!(bodies[0].velocity, Vec2 { x: i32::MAX, y: 0 });
    assert_eq!(bodies[1].velocity, Vec2 { x: i32::MIN, y: 0 });
    assert_eq!(bodies[0].position, Vec2 { x: i32::MAX, y: 300 });
    assert_eq!(bodies[1].position, Vec2 { x: i32::MIN + 401, y: 300 });
}

#[test]
fn place_along_scales_a_fraction() {
    assert_eq!(place_along(800, 0), 0);
    assert_eq!(place_along(800, 0x4000_0000), 200);
    assert_eq!(place_along(800, 0x8000_0000), 400);
    assert_eq!(place_along(800, u32::MAX), 799);
    assert_eq!(place_along(1, u32::MAX), 0);
    assert_eq!(place_along(i32::MAX, u32::MAX), i32::MAX - 1);
    assert_eq!(place_along(3, 0x5555_5556), 1);
    assert_eq!(place_along(3, 0x5555_5555), 0);
}

#[test]
fn place_along_an_axis_without_extent() {
    assert_eq!(place_along(0, u32::MAX), 0);
    assert_eq!(place_along(-800, 0x8000_0000), 0);
    assert_eq!(place_along(i32::MIN, u32::MAX), 0);
}

#[test]
fn place_in_takes_one_fraction_per_axis() {
    assert_eq!(place_in(&field(), 0x8000_0000, 0x4000_0000), Vec2 { x: 400, y: 150 });
    assert_eq!(place_in(&field(), u32::MAX, 0), Vec2 { x: 799, y: 0 });
}

#[test]
fn random_points_lie_in_the_field() {
    for _ in 0..1000 {
        let p = random_point(&field());
        assert!(0 <= p.x && p.x < 800);
        assert!(0 <= p.y && p.y < 600);
    }
    let flat = Bounds { width: 10, height: 0 };
    for _ in 0..100 {
        let p = random_point(&flat);
        assert!(0 <= p.x && p.x < 10);
        assert_eq!(p.y, 0);
    }
}

#[test]
fn random_points_differ() {
    let wide = Bounds { width: i32::MAX, height: i32::MAX };
    let first = random_point(&wide);
    let mut all_equal = true;
    for _ in 0..20 {
        if random_point(&wide) != first {
            all_equal = false;
        }
    }
    assert!(!all_equal);
}

#[test]
fn new_simulation_is_empty() {
    let simulation = Simulation::new(field());
    assert_eq!(simulation.bodies.len(), 0);
    assert_eq!(simulation.bounds, field());
}

#[test]
fn spawn_appends_a_body() {
    let mut simulation = Simulation::new(field());
    assert_eq!(simulation.spawn(Vec2::new(400, 300), Vec2::new(5, 5), 20), Ok(()));
    assert_eq!(simulation.spawn(Vec2::new(100, 100), Vec2::new(0, 1), 10), Ok(()));
    assert_eq!(
        simulation.bodies,
        vec![
            body(400, 300, 5, 5),
            Body { position: Vec2 { x: 100, y: 100 }, velocity: Vec2 { x: 0, y: 1 }, radius: 10 },
        ]
    );
}

#[test]
fn spawn_rejects_a_radius_that_is_not_positive() {
    let mut simulation = Simulation::new(field());
    assert_eq!(simulation.spawn(Vec2::new(400, 300), Vec2::new(5, 5), 20), Ok(()));
    assert_eq!(
        simulation.spawn(Vec2::new(1, 1), Vec2::new(5, 5), 0),
        Err(BodyError::InvalidRadius)
    );
    assert_eq!(
        simulation.spawn(Vec2::new(1, 1), Vec2::new(5, 5), -20),
        Err(BodyError::InvalidRadius)
    );
    assert_eq!(simulation.bodies, vec![body(400, 300, 5, 5)]);
}

#[test]
fn scatter_adds_bodies_inside_the_field() {
    let mut simulation = Simulation::new(field());
    assert_eq!(simulation.spawn(Vec2::new(400, 300), Vec2::new(1, 1), 7), Ok(()));
    assert_eq!(simulation.scatter(9, Vec2::new(5, 5), 20), Ok(()));
    assert_eq!(simulation.bodies.len(), 10);
    assert_eq!(
        simulation.bodies[0],
        Body { position: Vec2 { x: 400, y: 300 }, velocity: Vec2 { x: 1, y: 1 }, radius: 7 }
    );
    for b in &simulation.bodies[1..] {
        assert_eq!(b.velocity, Vec2 { x: 5, y: 5 });
        assert_eq!(b.radius, 20);
        assert!(0 <= b.position.x && b.position.x < 800);
        assert!(0 <= b.position.y && b.position.y < 600);
    }
    assert_eq!(simulation.bounds, field());
}

#[test]
fn scatter_of_nothing_changes_nothing() {
    let mut simulation = Simulation::new(field());
    assert_eq!(simulation.scatter(0, Vec2::new(5, 5), 20), Ok(()));
    assert_eq!(simulation.bodies.len(), 0);
}

#[test]
fn scatter_rejects_a_radius_that_is_not_positive() {
    let mut simulation = Simulation::new(field());
    assert_eq!(simulation.spawn(Vec2::new(400, 300), Vec2::new(5, 5), 20), Ok(()));
    assert_eq!(simulation.scatter(9, Vec2::new(5, 5), 0), Err(BodyError::InvalidRadius));
    assert_eq!(simulation.scatter(9, Vec2::new(5, 5), -1), Err(BodyError::InvalidRadius));
    assert_eq!(simulation.bodies, vec![body(400, 300, 5, 5)]);
}

#[test]
fn simulation_step_is_one_tick() {
    let mut simulation = Simulation::new(field());
    assert_eq!(simulation.spawn(Vec2::new(20, 300), Vec2::new(-5, 0), 20), Ok(()));
    assert_eq!(simulation.spawn(Vec2::new(30, 300), Vec2::new(0, 0), 20), Ok(()));
    simulation.step();
    assert_eq!(simulation.bodies, vec![body(270, 300, 250, 0), body(-220, 300, -250, 0)]);
    assert_eq!(simulation.bounds, field());
}
