//! Convenience constructors for world bodies: a plain rectangle with
//! optional motion, and the input-controlled player.

use vstd::prelude::*;

verus! {

use crate::arena::GenVec;
use crate::arena::Index;
use crate::components::CollisionComp;
use crate::components::Color;
use crate::components::DrawableComp;
use crate::components::EntityType;
use crate::components::Mass;
use crate::components::Physics;
use crate::components::Shape;
use crate::components::TypeMask;
use crate::geom::DIM_LIMIT;
use crate::geom::POS_LIMIT;
use crate::geom::SPEED_LIMIT;
use crate::geom::UNIT;
use crate::geom::Vec2;
use crate::input::HandlerKind;
use crate::input::KeyboardHandling;
use crate::input::PressedKeys;
use crate::world::World;

/// The kinematic record `create_rect` builds: the given position and
/// dimensions, with defaults where nothing is given — pointing along
/// positive x, standing still, of unit mass.
pub open spec fn rect_physics(
    position: Vec2,
    width: u32,
    height: u32,
    direction: Option<Vec2>,
    speed: Option<u32>,
    mass: Option<Mass>,
) -> Physics {
    Physics {
        world_space_position: position,
        direction: match direction {
            Some(d) => d,
            None => Vec2 { x: UNIT, y: 0 },
        },
        speed: match speed {
            Some(sp) => sp,
            None => 0u32,
        },
        mass: match mass {
            Some(m) => m,
            None => Mass::Finite(1000u32),
        },
        shape: Shape::Rectangle { width, height },
    }
}

/// Spawns a rectangular body that collides with everything as an enemy,
/// drawable in the given color (red when none is given).
pub fn create_rect(
    world: &mut World,
    position: Vec2,
    width: u32,
    height: u32,
    direction: Option<Vec2>,
    speed: Option<u32>,
    mass: Option<Mass>,
    color: Option<Color>,
) -> (id: Index)
    requires
        old(world).wf(),
        old(world).entities.n_slots() < usize::MAX,
        -POS_LIMIT <= position.x <= POS_LIMIT,
        -POS_LIMIT <= position.y <= POS_LIMIT,
        width <= DIM_LIMIT,
        height <= DIM_LIMIT,
        direction matches Some(d) ==> -UNIT <= d.x <= UNIT && -UNIT <= d.y <= UNIT,
        speed matches Some(sp) ==> sp <= SPEED_LIMIT,
    ensures
        final(world).wf(),
        GenVec::<()>::insert_post(old(world).entities, final(world).entities, (), id),
        final(world).alive(id),
        final(world).spec_physics(id) == Some(
            rect_physics(position, width, height, direction, speed, mass),
        ),
        final(world).spec_collision(id) matches Some(c) && c.my_collision_type
            == EntityType::Enemy && (forall|t: EntityType| c.collides_with.spec_contains(t)),
        final(world).drawables.spec_get(id) matches Some(d) && d.shape == (Shape::Rectangle {
            width,
            height,
        }) && d.color == (match color {
            Some(cl) => cl,
            None => Color { r: 255u8, g: 0u8, b: 0u8, a: 255u8 },
        }),
        final(world).events == old(world).events,
        final(world).keyboard == old(world).keyboard,
        final(world).spawn_props == old(world).spawn_props,
{
    let dir = match direction {
        Some(d) => d,
        None => Vec2 { x: UNIT, y: 0 },
    };
    let sp = match speed {
        Some(v) => v,
        None => 0,
    };
    let m = match mass {
        Some(v) => v,
        None => Mass::Finite(1000),
    };
    let physics = Physics {
        world_space_position: position,
        direction: dir,
        speed: sp,
        mass: m,
        shape: Shape::Rectangle { width, height },
    };
    let cl = match color {
        Some(v) => v,
        None => Color::rgb(255, 0, 0),
    };
    let coll = CollisionComp {
        collides_with: TypeMask::all(),
        my_collision_type: EntityType::Enemy,
    };
    let id = world.spawn(physics, coll);
    world.set_drawable(id, DrawableComp { shape: Shape::Rectangle { width, height }, color: cl });
    id
}

/// Spawns the input-controlled player: a green 50-by-50 rectangle of mass
/// ten at (400, 400), moved by the movement keys at 500 units per second.
pub fn create_player(world: &mut World) -> (id: Index)
    requires
        old(world).wf(),
        old(world).entities.n_slots() < usize::MAX,
    ensures
        final(world).wf(),
        GenVec::<()>::insert_post(old(world).entities, final(world).entities, (), id),
        final(world).alive(id),
        final(world).spec_physics(id) == Some(
            rect_physics(
                Vec2 { x: 400, y: 400 },
                50u32,
                50u32,
                None,
                None,
                Some(Mass::Finite(10_000u32)),
            ),
        ),
        final(world).spec_collision(id) matches Some(c) && c.my_collision_type
            == EntityType::Enemy && (forall|t: EntityType| c.collides_with.spec_contains(t)),
        final(world).keyboard.spec_get(id) == Some(
            KeyboardHandling {
                handler: HandlerKind::PlayerMovement,
                pressed_relevant_keys: PressedKeys { w: false, a: false, s: false, d: false },
                directional_velocity: 500u32,
            },
        ),
        final(world).events == old(world).events,
        final(world).spawn_props == old(world).spawn_props,
{
    let id = create_rect(
        world,
        Vec2 { x: 400, y: 400 },
        50,
        50,
        None,
        None,
        Some(Mass::Finite(10_000)),
        Some(Color::rgb(0, 255, 0)),
    );
    world.set_keyboard(
        id,
        KeyboardHandling {
            handler: HandlerKind::PlayerMovement,
            pressed_relevant_keys: PressedKeys::new(),
            directional_velocity: 500,
        },
    );
    id
}

} // verus!
