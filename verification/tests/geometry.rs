use simcore::Shape;
use simcore::Vec2;
use simcore::contact::contact;
use simcore::geom::clamp_pos;
use simcore::geom::int_sqrt;
use simcore::geom::normalize;
use simcore::geom::velocity_step;

#[test]
fn int_sqrt_values() {
    assert_eq!(int_sqrt(0), 0);
    assert_eq!(int_sqrt(1), 1);
    assert_eq!(int_sqrt(17), 4);
    assert_eq!(int_sqrt(16), 4);
    assert_eq!(int_sqrt(24), 4);
    assert_eq!(int_sqrt(25), 5);
    assert_eq!(int_sqrt(1_000_000_000u128 * 1_000_000_000u128), 1_000_000_000);
}

#[test]
fn normalize_values() {
    assert_eq!(normalize(Vec2 { x: 300, y: 400 }), Vec2 { x: 600, y: 800 });
    assert_eq!(normalize(Vec2 { x: 0, y: 0 }), Vec2 { x: 1000, y: 0 });
    assert_eq!(normalize(Vec2 { x: -5, y: 0 }), Vec2 { x: -1000, y: 0 });
    assert_eq!(normalize(Vec2 { x: 0, y: 7 }), Vec2 { x: 0, y: 1000 });
}

#[test]
fn clamp_pos_values() {
    assert_eq!(clamp_pos(5), 5);
    assert_eq!(clamp_pos(2_000_000_000), 1_000_000_000);
    assert_eq!(clamp_pos(-2_000_000_000), -1_000_000_000);
}

#[test]
fn velocity_step_values() {
    // Full speed along an axis: 500 units per second over 16 ms is 8 units.
    assert_eq!(velocity_step(1000, 500, 16), 8);
    assert_eq!(velocity_step(-1000, 500, 16), -8);
    assert_eq!(velocity_step(0, 500, 16), 0);
    // Rounds toward zero.
    assert_eq!(velocity_step(1000, 100, 16), 1);
    assert_eq!(velocity_step(-1000, 100, 16), -1);
}

#[test]
fn overlapping_rectangles_touch() {
    let a = Shape::Rectangle { width: 50, height: 50 };
    let b = Shape::Rectangle { width: 50, height: 50 };
    let c = contact(a, Vec2 { x: 0, y: 0 }, b, Vec2 { x: 10, y: 10 }, 1);
    let c = c.expect("overlapping rectangles must be in contact");
    assert_eq!(c.dist, -40);
    assert!(c.dist < 0);
}

#[test]
fn separated_rectangles_do_not_touch() {
    let a = Shape::Rectangle { width: 50, height: 50 };
    let b = Shape::Rectangle { width: 50, height: 50 };
    let c = contact(a, Vec2 { x: 0, y: 0 }, b, Vec2 { x: 1000, y: 1000 }, 1);
    assert!(c.is_none());
}

#[test]
fn rectangle_face_contact_geometry() {
    // Wall to the left of the player, penetrating 17 along x.
    let player = Shape::Rectangle { width: 50, height: 50 };
    let wall = Shape::Rectangle { width: 10, height: 200 };
    let c = contact(player, Vec2 { x: 113, y: 0 }, wall, Vec2 { x: 100, y: 0 }, 1).unwrap();
    assert_eq!(c.dist, -17);
    assert_eq!(c.point1, Vec2 { x: 88, y: 0 });
    assert_eq!(c.point2, Vec2 { x: 105, y: 0 });
    assert_eq!(c.normal, Vec2 { x: -1000, y: 0 });
}

#[test]
fn circle_circle_contact() {
    let a = Shape::Circle { radius: 10 };
    let b = Shape::Circle { radius: 10 };
    let c = contact(a, Vec2 { x: 0, y: 0 }, b, Vec2 { x: 15, y: 0 }, 1).unwrap();
    assert_eq!(c.dist, -5);
    assert_eq!(c.normal, Vec2 { x: 1000, y: 0 });
    assert_eq!(c.point1, Vec2 { x: 10, y: 0 });
    assert_eq!(c.point2, Vec2 { x: 5, y: 0 });
    let far = contact(a, Vec2 { x: 0, y: 0 }, b, Vec2 { x: 100, y: 0 }, 1);
    assert!(far.is_none());
}

#[test]
fn rect_circle_contact() {
    let r = Shape::Rectangle { width: 20, height: 20 };
    let c = Shape::Circle { radius: 5 };
    // Circle center 12 to the right of the rectangle center: 2 from the
    // face, minus the radius: 3 deep.
    let found = contact(r, Vec2 { x: 0, y: 0 }, c, Vec2 { x: 12, y: 0 }, 1).unwrap();
    assert_eq!(found.dist, -3);
    // And seen from the circle's side the distance is the same.
    let flipped = contact(c, Vec2 { x: 12, y: 0 }, r, Vec2 { x: 0, y: 0 }, 1).unwrap();
    assert_eq!(flipped.dist, -3);
    assert_eq!(flipped.normal, Vec2 { x: -1000, y: 0 });
}
