use simcore::CollisionComp;
use simcore::EntityType;
use simcore::Mass;
use simcore::Physics;
use simcore::Shape;
use simcore::SimError;
use simcore::TypeMask;
use simcore::Vec2;
use simcore::World;

fn body(x: i64, y: i64, dir: Vec2, speed: u32, mass: Mass, shape: Shape) -> Physics {
    Physics {
        world_space_position: Vec2 { x, y },
        direction: dir,
        speed,
        mass,
        shape,
    }
}

fn still(x: i64, y: i64, shape: Shape) -> Physics {
    body(x, y, Vec2 { x: 0, y: 0 }, 0, Mass::Finite(1000), shape)
}

fn comp(my: EntityType) -> CollisionComp {
    CollisionComp { collides_with: TypeMask::all(), my_collision_type: my }
}

#[test]
fn movement_integrates_positions() {
    let mut w = World::new();
    let id = w.spawn(
        body(
            10,
            20,
            Vec2 { x: 1000, y: 0 },
            500,
            Mass::Finite(1000),
            Shape::Rectangle { width: 4, height: 4 },
        ),
        comp(EntityType::Enemy),
    );
    w.run_movement(16);
    let p = w.get_physics(id).unwrap();
    assert_eq!(p.world_space_position, Vec2 { x: 18, y: 20 });
    // A stalled frame of more than a second moves nothing.
    w.run_movement(2000);
    let p = w.get_physics(id).unwrap();
    assert_eq!(p.world_space_position, Vec2 { x: 18, y: 20 });
}

#[test]
fn disjoint_masks_produce_no_event() {
    let mut w = World::new();
    // Two overlapping bodies that ignore each other completely.
    let none = TypeMask::none();
    let a = w.spawn(
        still(0, 0, Shape::Rectangle { width: 50, height: 50 }),
        CollisionComp { collides_with: none, my_collision_type: EntityType::Enemy },
    );
    let b = w.spawn(
        still(10, 10, Shape::Rectangle { width: 50, height: 50 }),
        CollisionComp { collides_with: none, my_collision_type: EntityType::Wall },
    );
    assert_eq!(w.run_collision_detection(), Ok(()));
    assert!(w.get_event(a).is_none());
    assert!(w.get_event(b).is_none());
}

#[test]
fn touching_pair_records_one_event_on_lower_type() {
    let mut w = World::new();
    let wall = w.spawn(
        still(100, 0, Shape::Rectangle { width: 10, height: 200 }),
        comp(EntityType::Wall),
    );
    let player = w.spawn(
        still(105, 0, Shape::Rectangle { width: 50, height: 50 }),
        comp(EntityType::Player),
    );
    assert_eq!(w.run_collision_detection(), Ok(()));
    // The event sits on the player (lower type bit), naming the wall.
    let ev = w.get_event(player).expect("event on the player");
    assert_eq!(ev.other, wall);
    assert_eq!(ev.contact.dist, -25);
    assert!(w.get_event(wall).is_none());
}

#[test]
fn enemy_bullet_dies_on_wall_and_wall_stands() {
    let mut w = World::new();
    let bullet = w.spawn(
        still(0, 0, Shape::Rectangle { width: 5, height: 5 }),
        comp(EntityType::EnemyBullet),
    );
    let wall = w.spawn(
        still(1, 0, Shape::Rectangle { width: 10, height: 200 }),
        CollisionComp {
            collides_with: TypeMask::all(),
            my_collision_type: EntityType::Wall,
        },
    );
    let wall_physics_before = *w.get_physics(wall).unwrap();
    assert_eq!(w.run_collision_detection(), Ok(()));
    assert!(w.get_event(bullet).is_some());
    assert_eq!(w.run_collision_resolution(), Ok(()));
    // The bullet entity is gone; the wall is untouched.
    assert!(!w.is_alive(bullet));
    assert!(w.is_alive(wall));
    assert_eq!(*w.get_physics(wall).unwrap(), wall_physics_before);
    assert!(w.get_event(bullet).is_none());
}

#[test]
fn player_wall_resolution_depenetrates() {
    let mut w = World::new();
    let wall = w.spawn(
        still(100, 0, Shape::Rectangle { width: 10, height: 200 }),
        comp(EntityType::Wall),
    );
    let player = w.spawn(
        still(105, 0, Shape::Rectangle { width: 50, height: 50 }),
        comp(EntityType::Player),
    );
    assert_eq!(w.run_collision_detection(), Ok(()));
    let depth_before = w.get_event(player).unwrap().contact.dist;
    assert_eq!(depth_before, -25);
    assert_eq!(w.run_collision_resolution(), Ok(()));
    // Neither entity was deleted.
    assert!(w.is_alive(player));
    assert!(w.is_alive(wall));
    // The player was pushed out along the contact axis by the depth.
    assert_eq!(
        w.get_physics(player).unwrap().world_space_position,
        Vec2 { x: 130, y: 0 }
    );
    // The next tick's contact check finds strictly less interpenetration.
    assert_eq!(w.run_collision_detection(), Ok(()));
    let depth_after = w.get_event(player).unwrap().contact.dist;
    assert_eq!(depth_after, 0);
    assert!(depth_after > depth_before);
}

#[test]
fn tick_scenario_wall_and_moving_player() {
    // Wall at (100, 0), 10 by 200, immovable; player at (105, 0), 50 by 50,
    // moving along positive x at 500 units per second.
    let mut w = World::new();
    let wall = w.spawn(
        body(
            100,
            0,
            Vec2 { x: 0, y: 0 },
            0,
            Mass::Infinite,
            Shape::Rectangle { width: 10, height: 200 },
        ),
        comp(EntityType::Wall),
    );
    let player = w.spawn(
        body(
            105,
            0,
            Vec2 { x: 1000, y: 0 },
            500,
            Mass::Finite(10_000),
            Shape::Rectangle { width: 50, height: 50 },
        ),
        comp(EntityType::Player),
    );
    // Phase by phase, as one tick runs them: integration first.
    w.run_movement(16);
    assert_eq!(
        w.get_physics(player).unwrap().world_space_position,
        Vec2 { x: 113, y: 0 }
    );
    // Narrow phase records the event on the player (the lower type bit).
    assert_eq!(w.run_collision_detection(), Ok(()));
    let ev = *w.get_event(player).unwrap();
    assert_eq!(ev.other, wall);
    assert_eq!(ev.contact.dist, -17);
    assert!(w.get_event(wall).is_none());
    // Resolution moves the player by the contact depth along the witness
    // axis (out of the wall) and leaves the wall alone.
    assert_eq!(w.run_collision_resolution(), Ok(()));
    assert_eq!(
        w.get_physics(player).unwrap().world_space_position,
        Vec2 { x: 130, y: 0 }
    );
    assert_eq!(
        w.get_physics(wall).unwrap().world_space_position,
        Vec2 { x: 100, y: 0 }
    );
    assert!(w.is_alive(player));
    assert!(w.is_alive(wall));
    assert!(w.get_event(player).is_none());
}

#[test]
fn advance_tick_runs_all_phases() {
    let mut w = World::new();
    let wall = w.spawn(
        body(
            100,
            0,
            Vec2 { x: 0, y: 0 },
            0,
            Mass::Infinite,
            Shape::Rectangle { width: 10, height: 200 },
        ),
        comp(EntityType::Wall),
    );
    let player = w.spawn(
        body(
            105,
            0,
            Vec2 { x: 1000, y: 0 },
            500,
            Mass::Finite(10_000),
            Shape::Rectangle { width: 50, height: 50 },
        ),
        comp(EntityType::Player),
    );
    assert_eq!(w.advance_tick(16), Ok(()));
    assert_eq!(
        w.get_physics(player).unwrap().world_space_position,
        Vec2 { x: 130, y: 0 }
    );
    assert_eq!(
        w.get_physics(wall).unwrap().world_space_position,
        Vec2 { x: 100, y: 0 }
    );
}

#[test]
fn duplicate_event_is_a_fault() {
    let mut w = World::new();
    // One enemy overlapping two walls: the second pair would record a
    // second event on the enemy in the same pass.
    w.spawn(
        still(0, 0, Shape::Rectangle { width: 50, height: 50 }),
        comp(EntityType::Enemy),
    );
    w.spawn(
        still(1, 0, Shape::Rectangle { width: 50, height: 50 }),
        comp(EntityType::Wall),
    );
    w.spawn(
        still(2, 0, Shape::Rectangle { width: 50, height: 50 }),
        comp(EntityType::Wall),
    );
    assert_eq!(
        w.run_collision_detection(),
        Err(SimError::DuplicateCollisionEvent)
    );
}

#[test]
fn wall_against_wall_is_a_fault() {
    let mut w = World::new();
    w.spawn(
        still(0, 0, Shape::Rectangle { width: 50, height: 50 }),
        comp(EntityType::Wall),
    );
    w.spawn(
        still(1, 0, Shape::Rectangle { width: 50, height: 50 }),
        comp(EntityType::Wall),
    );
    assert_eq!(w.run_collision_detection(), Ok(()));
    assert_eq!(
        w.run_collision_resolution(),
        Err(SimError::WallWallContact)
    );
}

#[test]
fn stale_event_partner_is_skipped() {
    let mut w = World::new();
    let bullet = w.spawn(
        still(0, 0, Shape::Rectangle { width: 5, height: 5 }),
        comp(EntityType::EnemyBullet),
    );
    let wall = w.spawn(
        still(1, 0, Shape::Rectangle { width: 10, height: 200 }),
        comp(EntityType::Wall),
    );
    assert_eq!(w.run_collision_detection(), Ok(()));
    // The wall disappears before resolution runs; resolving against the
    // stale id is a silent no-op that still clears the event.
    w.despawn(wall);
    assert_eq!(w.run_collision_resolution(), Ok(()));
    assert!(w.is_alive(bullet));
    assert!(w.get_event(bullet).is_none());
}
