use particle_sim::{create_body, Body, BodyError, Bounds, Vec2};

#[test]
fn create_body_accepts_a_positive_radius() {
    let body = create_body(Vec2::new(3, 4), Vec2::new(-1, 2), 20);
    assert_eq!(
        body,
        Ok(Body { position: Vec2 { x: 3, y: 4 }, velocity: Vec2 { x: -1, y: 2 }, radius: 20 })
    );
    assert_eq!(create_body(Vec2::new(0, 0), Vec2::new(0, 0), 1).map(|b| b.radius), Ok(1));
}

#[test]
fn create_body_rejects_a_zero_radius() {
    assert_eq!(create_body(Vec2::new(3, 4), Vec2::new(-1, 2), 0), Err(BodyError::InvalidRadius));
}

#[test]
fn create_body_rejects_a_negative_radius() {
    assert_eq!(create_body(Vec2::new(3, 4), Vec2::new(-1, 2), -1), Err(BodyError::InvalidRadius));
    assert_eq!(
        create_body(Vec2::new(3, 4), Vec2::new(-1, 2), i32::MIN),
        Err(BodyError::InvalidRadius)
    );
}

#[test]
fn bounds_new_keeps_both_extents() {
    assert_eq!(Bounds::new(800, 600), Bounds { width: 800, height: 600 });
}
