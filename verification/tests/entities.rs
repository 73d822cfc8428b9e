use simcore::Color;
use simcore::EntityType;
use simcore::GenVec;
use simcore::HealthComp;
use simcore::InputEvent;
use simcore::Key;
use simcore::KeyboardHandling;
use simcore::Mass;
use simcore::Physics;
use simcore::PressedKeys;
use simcore::Shape;
use simcore::SimError;
use simcore::SpawnInformation;
use simcore::SpawnProperties_comp;
use simcore::System;
use simcore::SystemType;
use simcore::TypeMask;
use simcore::Vec2;
use simcore::World;
use simcore::create_player;
use simcore::create_rect;
use simcore::input::HandlerKind;
use simcore::input::player_key_handler;
use simcore::input::queue_bullet_spawn;

#[test]
fn type_masks() {
    let all = TypeMask::all();
    assert!(all.intersects(EntityType::Enemy));
    assert!(all.intersects(EntityType::Wall));
    let none = TypeMask::none();
    assert!(!none.intersects(EntityType::Player));
    let single = TypeMask::single(EntityType::Wall);
    assert!(single.intersects(EntityType::Wall));
    assert!(!single.intersects(EntityType::Enemy));
    let pair = single.with(EntityType::Player);
    assert!(pair.intersects(EntityType::Wall));
    assert!(pair.intersects(EntityType::Player));
    assert!(!pair.intersects(EntityType::EnemyBullet));
    assert_eq!(EntityType::Enemy.bit(), 1);
    assert_eq!(EntityType::EnemyBullet.bit(), 2);
    assert_eq!(EntityType::Player.bit(), 4);
    assert_eq!(EntityType::PlayerBullet.bit(), 8);
    assert_eq!(EntityType::Wall.bit(), 16);
}

#[test]
fn player_handler_reacts_to_keys() {
    let mut p = Physics {
        world_space_position: Vec2 { x: 0, y: 0 },
        direction: Vec2 { x: 0, y: 0 },
        speed: 0,
        mass: Mass::Finite(1000),
        shape: Shape::Rectangle { width: 50, height: 50 },
    };
    let mut k = KeyboardHandling {
        handler: HandlerKind::PlayerMovement,
        pressed_relevant_keys: PressedKeys::new(),
        directional_velocity: 500,
    };
    // Pressing W points the body up (negative y) at the configured speed.
    assert!(player_key_handler(InputEvent::KeyDown(Key::W), &mut p, &mut k));
    assert_eq!(p.direction, Vec2 { x: 0, y: -1000 });
    assert_eq!(p.speed, 500);
    // Adding D makes the movement diagonal.
    assert!(player_key_handler(InputEvent::KeyDown(Key::D), &mut p, &mut k));
    assert_eq!(p.direction, Vec2 { x: 1000, y: -1000 });
    // Releasing both stops the direction but keeps the last speed.
    assert!(player_key_handler(InputEvent::KeyUp(Key::W), &mut p, &mut k));
    assert!(player_key_handler(InputEvent::KeyUp(Key::D), &mut p, &mut k));
    assert_eq!(p.direction, Vec2 { x: 0, y: 0 });
    assert_eq!(p.speed, 500);
    // A mouse event is not consumed and changes nothing.
    let before = p;
    assert!(!player_key_handler(
        InputEvent::MouseButtonDown { x: 1, y: 2 },
        &mut p,
        &mut k
    ));
    assert_eq!(p, before);
}

#[test]
fn dispatch_reaches_the_player() {
    let mut w = World::new();
    let player = create_player(&mut w);
    assert!(w.dispatch_input_event(InputEvent::KeyDown(Key::D)));
    let p = w.get_physics(player).unwrap();
    assert_eq!(p.direction, Vec2 { x: 1000, y: 0 });
    assert_eq!(p.speed, 500);
    // With no input-controlled entity left, nothing consumes events.
    w.despawn(player);
    assert!(!w.dispatch_input_event(InputEvent::KeyDown(Key::D)));
}

#[test]
fn create_rect_defaults() {
    let mut w = World::new();
    let id = create_rect(&mut w, Vec2 { x: 7, y: 8 }, 30, 40, None, None, None, None);
    let p = w.get_physics(id).unwrap();
    assert_eq!(p.world_space_position, Vec2 { x: 7, y: 8 });
    assert_eq!(p.direction, Vec2 { x: 1000, y: 0 });
    assert_eq!(p.speed, 0);
    assert_eq!(p.mass, Mass::Finite(1000));
    assert_eq!(p.shape, Shape::Rectangle { width: 30, height: 40 });
    let c = w.get_collision(id).unwrap();
    assert_eq!(c.my_collision_type, EntityType::Enemy);
    assert!(c.collides_with.intersects(EntityType::Player));
}

#[test]
fn create_player_is_input_controlled() {
    let mut w = World::new();
    let id = create_player(&mut w);
    let p = w.get_physics(id).unwrap();
    assert_eq!(p.world_space_position, Vec2 { x: 400, y: 400 });
    assert_eq!(p.mass, Mass::Finite(10_000));
    assert_eq!(p.shape, Shape::Rectangle { width: 50, height: 50 });
}

#[test]
fn bullet_queue_and_spawner() {
    let mut w = World::new();
    let player = create_player(&mut w);
    // Click 300 to the right of the player: the bullet spawns 100 units
    // toward the click, moving that way fast.
    let bullet = queue_bullet_spawn(&mut w, player, Vec2 { x: 700, y: 400 })
        .expect("player exists, so a bullet is queued");
    // Queued, not yet realized.
    assert!(w.get_physics(bullet).is_none());
    assert_eq!(w.run_spawner(), Ok(()));
    let p = *w.get_physics(bullet).unwrap();
    assert_eq!(p.world_space_position, Vec2 { x: 500, y: 400 });
    assert_eq!(p.direction, Vec2 { x: 1000, y: 0 });
    assert_eq!(p.speed, 600);
    assert_eq!(p.shape, Shape::Rectangle { width: 5, height: 5 });
    let c = w.get_collision(bullet).unwrap();
    assert_eq!(c.my_collision_type, EntityType::PlayerBullet);
    assert!(c.collides_with.intersects(EntityType::Enemy));
    assert!(!c.collides_with.intersects(EntityType::Wall));
    // A second spawner pass has nothing left to do.
    assert_eq!(w.run_spawner(), Ok(()));
}

#[test]
fn bullet_queue_without_player() {
    let mut w = World::new();
    let ghost_player = simcore::Index { index: 9, generation: 0 };
    assert!(queue_bullet_spawn(&mut w, ghost_player, Vec2 { x: 1, y: 2 }).is_none());
}

#[test]
fn unsupported_spawn_is_a_fault() {
    let mut w = World::new();
    w.spawn_pending(SpawnProperties_comp::new(SpawnInformation {
        entity_type: EntityType::Enemy,
        physics: None,
        color: None,
    }));
    assert_eq!(w.run_spawner(), Err(SimError::UnsupportedSpawn));
}

#[test]
fn render_snapshot_lists_drawables() {
    let mut w = World::new();
    let a = create_rect(
        &mut w,
        Vec2 { x: 1, y: 2 },
        10,
        10,
        None,
        None,
        None,
        Some(Color::rgb(9, 8, 7)),
    );
    let b = w.spawn(
        Physics {
            world_space_position: Vec2 { x: 5, y: 6 },
            direction: Vec2 { x: 0, y: 0 },
            speed: 0,
            mass: Mass::Finite(1000),
            shape: Shape::Circle { radius: 4 },
        },
        simcore::CollisionComp {
            collides_with: TypeMask::none(),
            my_collision_type: EntityType::Enemy,
        },
    );
    let items = w.render_items();
    // Only the entity with drawing data shows up.
    assert_eq!(items.len(), 1);
    assert_eq!(items[0].id, a);
    assert_eq!(items[0].position, Vec2 { x: 1, y: 2 });
    assert_eq!(items[0].color, Color::rgb(9, 8, 7));
    assert!(w.is_alive(b));
}

#[test]
fn system_registration() {
    let storage: GenVec<Option<u32>> = GenVec::new();
    let sys: System<u32> = System::new(SystemType::Continuous(120), storage);
    assert!(sys.running);
    assert!(matches!(sys.system_type, SystemType::Continuous(120)));
    assert_eq!(sys.components.len(), 0);
}

#[test]
fn health_component() {
    let h = HealthComp::new(42);
    assert_eq!(h.health(), 42);
}
