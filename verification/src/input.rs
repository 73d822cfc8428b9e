//! Input handling: the per-entity keyboard component and the handler that
//! turns pressed movement keys into a direction and speed.
//!
//! Handlers are a closed set of capabilities selected by a tagged variant,
//! not raw callbacks stored in component data.

use vstd::prelude::*;

verus! {

use crate::arena::GenVec;
use crate::arena::Index;
use crate::components::Color;
use crate::components::Mass;
use crate::components::Physics;
use crate::components::Shape;
use crate::components::SpawnInformation;
use crate::components::SpawnProperties_comp;
use crate::geom::POS_LIMIT;
use crate::geom::SPEED_LIMIT;
use crate::geom::UNIT;
use crate::geom::Vec2;
use crate::geom::div_trunc;
use crate::geom::normalize;
use crate::geom::scale_by_unit;
use crate::geom::spec_clamp;
use crate::geom::clamp_pos;
use crate::geom::spec_normalize;
use crate::table::seq_get;
use crate::table::seq_insert;
use crate::world::World;

/// The keys the simulation core cares about; anything else is `Other`.
#[derive(Clone, Copy, PartialEq, Eq, Structural, Debug)]
pub enum Key {
    W,
    A,
    S,
    D,
    Escape,
    Other,
}

/// An input event, as plain values handed in by the platform layer.
#[derive(Clone, Copy, PartialEq, Eq, Structural, Debug)]
pub enum InputEvent {
    KeyDown(Key),
    KeyUp(Key),
    MouseButtonDown { x: i64, y: i64 },
}

/// Which movement keys are currently held.
#[derive(Clone, Copy, PartialEq, Eq, Structural, Debug)]
pub struct PressedKeys {
    pub w: bool,
    pub a: bool,
    pub s: bool,
    pub d: bool,
}

impl PressedKeys {
    pub fn new() -> (k: Self)
        ensures
            k == (PressedKeys { w: false, a: false, s: false, d: false }),
    {
        PressedKeys { w: false, a: false, s: false, d: false }
    }
}

/// The closed set of input-handling capabilities an entity can carry.
#[derive(Clone, Copy, PartialEq, Eq, Structural, Debug)]
pub enum HandlerKind {
    PlayerMovement,
}

/// Component marking an entity as input controlled.
#[derive(Clone, Copy, PartialEq, Eq, Structural, Debug)]
pub struct KeyboardHandling {
    /// Which handler reacts to events for this entity.
    pub handler: HandlerKind,
    pub pressed_relevant_keys: PressedKeys,
    /// Speed applied while any movement key is held.
    pub directional_velocity: u32,
}

/// The pressed-key set after a key event.
pub open spec fn keys_after(k: PressedKeys, ev: InputEvent) -> PressedKeys {
    match ev {
        InputEvent::KeyDown(key) => match key {
            Key::W => PressedKeys { w: true, ..k },
            Key::A => PressedKeys { a: true, ..k },
            Key::S => PressedKeys { s: true, ..k },
            Key::D => PressedKeys { d: true, ..k },
            _ => k,
        },
        InputEvent::KeyUp(key) => match key {
            Key::W => PressedKeys { w: false, ..k },
            Key::A => PressedKeys { a: false, ..k },
            Key::S => PressedKeys { s: false, ..k },
            Key::D => PressedKeys { d: false, ..k },
            _ => k,
        },
        _ => k,
    }
}

/// The movement direction the held keys add up to (opposite keys cancel);
/// the y axis grows downward, so W is negative y.
pub open spec fn direction_of(k: PressedKeys) -> Vec2 {
    Vec2 {
        x: ((if k.a {
            -UNIT as int
        } else {
            0int
        }) + (if k.d {
            UNIT as int
        } else {
            0int
        })) as i64,
        y: ((if k.w {
            -UNIT as int
        } else {
            0int
        }) + (if k.s {
            UNIT as int
        } else {
            0int
        })) as i64,
    }
}

/// What the player-movement handler does with an event: the new kinematic
/// state, the new key state, and whether the event was consumed.
pub open spec fn player_handler_spec(ev: InputEvent, p: Physics, s: KeyboardHandling) -> (
    Physics,
    KeyboardHandling,
    bool,
) {
    match ev {
        InputEvent::MouseButtonDown { .. } => (p, s, false),
        _ => {
            let keys = keys_after(s.pressed_relevant_keys, ev);
            let dir = direction_of(keys);
            let speed = if dir.x != 0 || dir.y != 0 {
                s.directional_velocity
            } else {
                p.speed
            };
            (
                Physics { direction: dir, speed, ..p },
                KeyboardHandling { pressed_relevant_keys: keys, ..s },
                true,
            )
        },
    }
}

/// Applies a key event to an input-controlled entity: updates the held-key
/// set, points the body along the keys held, and applies the configured
/// speed while any are held. Returns whether the event was consumed.
pub fn player_key_handler(ev: InputEvent, p: &mut Physics, s: &mut KeyboardHandling) -> (consumed:
    bool)
    requires
        old(p).wf(),
        old(s).directional_velocity <= SPEED_LIMIT,
    ensures
        (*final(p), *final(s), consumed) == player_handler_spec(ev, *old(p), *old(s)),
        final(p).wf(),
{
    let keyup: bool;
    let key: Key;
    match ev {
        InputEvent::KeyDown(k) => {
            keyup = false;
            key = k;
        },
        InputEvent::KeyUp(k) => {
            keyup = true;
            key = k;
        },
        InputEvent::MouseButtonDown { .. } => {
            return false;
        },
    }
    let held = !keyup;
    match key {
        Key::W => s.pressed_relevant_keys.w = held,
        Key::A => s.pressed_relevant_keys.a = held,
        Key::S => s.pressed_relevant_keys.s = held,
        Key::D => s.pressed_relevant_keys.d = held,
        _ => (),
    }
    let mut dx: i64 = 0;
    let mut dy: i64 = 0;
    if s.pressed_relevant_keys.a {
        dx = dx - UNIT;
    }
    if s.pressed_relevant_keys.d {
        dx = dx + UNIT;
    }
    if s.pressed_relevant_keys.w {
        dy = dy - UNIT;
    }
    if s.pressed_relevant_keys.s {
        dy = dy + UNIT;
    }
    p.direction = Vec2 { x: dx, y: dy };
    if dx != 0 || dy != 0 {
        p.speed = s.directional_velocity;
    }
    true
}

/// What any handler does with an event, selected by its capability tag.
pub open spec fn handler_spec(kind: HandlerKind, ev: InputEvent, p: Physics, s: KeyboardHandling) -> (
    Physics,
    KeyboardHandling,
    bool,
) {
    match kind {
        HandlerKind::PlayerMovement => player_handler_spec(ev, p, s),
    }
}

/// The parts of the world input dispatch may change; entity slots are read
/// for liveness only.
pub struct InputView {
    pub slots: Seq<(u32, bool)>,
    pub physics: Seq<Option<(u32, Physics)>>,
    pub keyboard: Seq<Option<(u32, KeyboardHandling)>>,
}

/// The input-relevant view of a world.
pub open spec fn input_view(w: World) -> InputView {
    InputView {
        slots: crate::resolve::arena_view(w.entities),
        physics: w.physics.entries(),
        keyboard: w.keyboard.entries(),
    }
}

/// Offering the event to the entity at slot `s`: if it is live and input
/// controlled with kinematics, its handler runs; the second component says
/// whether it consumed the event.
pub open spec fn dispatch_step(st: InputView, ev: InputEvent, s: int) -> (InputView, bool) {
    if !st.slots[s].1 {
        (st, false)
    } else {
        let id = Index { index: s as usize, generation: st.slots[s].0 };
        match (seq_get(st.keyboard, id), seq_get(st.physics, id)) {
            (Some(kb), Some(ph)) => {
                let r = handler_spec(kb.handler, ev, ph, kb);
                (
                    InputView {
                        physics: seq_insert(st.physics, id, r.0),
                        keyboard: seq_insert(st.keyboard, id, r.1),
                        ..st
                    },
                    r.2,
                )
            },
            _ => (st, false),
        }
    }
}

/// Offering the event to each entity from slot `s` up, stopping at the
/// first that consumes it: a consumed event is not offered to later
/// entities.
pub open spec fn dispatch_from(st: InputView, ev: InputEvent, s: int) -> (InputView, bool)
    decreases st.slots.len() - s,
{
    if s < 0 || s >= st.slots.len() {
        (st, false)
    } else {
        let sr = dispatch_step(st, ev, s);
        if sr.1 {
            sr
        } else {
            dispatch_from(sr.0, ev, s + 1)
        }
    }
}

impl World {
    /// Offers one input event to the input-controlled entities in ascending
    /// slot order, stopping at the first that consumes it. This is the only
    /// channel through which outside input reaches the simulation.
    pub fn dispatch_input_event(&mut self, ev: InputEvent) -> (consumed: bool)
        requires
            old(self).wf(),
        ensures
            final(self).wf(),
            final(self).entities == old(self).entities,
            final(self).collision == old(self).collision,
            final(self).events == old(self).events,
            final(self).drawables == old(self).drawables,
            final(self).spawn_props == old(self).spawn_props,
            (input_view(*final(self)), consumed) == dispatch_from(
                input_view(*old(self)),
                ev,
                0,
            ),
    {
        let n = self.entities.slot_count();
        let ghost total = dispatch_from(input_view(*old(self)), ev, 0);
        let mut s: usize = 0;
        proof {
            assert(input_view(*self).slots.len() == n as int);
        }
        while s < n
            invariant
                self.wf(),
                n as int == self.entities.n_slots(),
                0 <= s <= n,
                self.entities == old(self).entities,
                self.collision == old(self).collision,
                self.events == old(self).events,
                self.drawables == old(self).drawables,
                self.spawn_props == old(self).spawn_props,
                dispatch_from(input_view(*self), ev, s as int) == total,
                total == dispatch_from(input_view(*old(self)), ev, 0),
            decreases n - s,
        {
            let ghost pre = input_view(*self);
            if let Some(id) = self.entities.id_at(s) {
                let kbopt = self.keyboard.get(id);
                if let Some(kb0) = kbopt {
                    let kb = *kb0;
                    let phopt = self.physics.get(id);
                    if let Some(ph0) = phopt {
                        let mut p = *ph0;
                        let mut k = kb;
                        let consumed = match kb.handler {
                            HandlerKind::PlayerMovement => player_key_handler(ev, &mut p, &mut k),
                        };
                        self.physics.insert(id, p);
                        self.keyboard.insert(id, k);
                        if consumed {
                            proof {
                                assert(dispatch_step(pre, ev, s as int) == (
                                    input_view(*self),
                                    true,
                                ));
                            }
                            return true;
                        }
                    }
                }
            }
            proof {
                assert(input_view(*self).slots =~= pre.slots);
                assert(dispatch_step(pre, ev, s as int) == (input_view(*self), false));
                assert(dispatch_from(pre, ev, s as int) == dispatch_from(
                    input_view(*self),
                    ev,
                    s + 1,
                ));
            }
            s = s + 1;
        }
        false
    }
}

/// The pending spawn a mouse click queues: a small, fast bullet launched
/// from the player toward the click, spawned one hundred units out.
pub open spec fn bullet_spawn_info(player_pos: Vec2, click: Vec2) -> SpawnInformation {
    let dir = spec_normalize(
        Vec2 { x: (click.x - player_pos.x) as i64, y: (click.y - player_pos.y) as i64 },
    );
    SpawnInformation {
        entity_type: crate::components::EntityType::PlayerBullet,
        physics: Some(
            Physics {
                world_space_position: Vec2 {
                    x: spec_clamp(player_pos.x + div_trunc(dir.x * 100, UNIT as int)) as i64,
                    y: spec_clamp(player_pos.y + div_trunc(dir.y * 100, UNIT as int)) as i64,
                },
                direction: dir,
                speed: 600u32,
                mass: Mass::Finite(1u32),
                shape: Shape::Rectangle { width: 5u32, height: 5u32 },
            },
        ),
        color: Some(Color { r: 0u8, g: 0u8, b: 255u8, a: 255u8 }),
    }
}

/// Queues a player bullet toward the clicked point, on a fresh entity that
/// the spawner will realize at the next barrier. Does nothing when the
/// player has no kinematic state to launch from.
pub fn queue_bullet_spawn(world: &mut World, player: Index, click: Vec2) -> (r: Option<Index>)
    requires
        old(world).wf(),
        old(world).entities.n_slots() < usize::MAX,
        -POS_LIMIT <= click.x <= POS_LIMIT,
        -POS_LIMIT <= click.y <= POS_LIMIT,
    ensures
        final(world).wf(),
        final(world).physics == old(world).physics,
        final(world).collision == old(world).collision,
        final(world).events == old(world).events,
        final(world).drawables == old(world).drawables,
        final(world).keyboard == old(world).keyboard,
        match r {
            Some(id) => {
                &&& old(world).spec_physics(player) matches Some(p)
                    && final(world).spawn_props.spec_get(id) == Some(
                    SpawnProperties_comp {
                        info: bullet_spawn_info(p.world_space_position, click),
                    },
                )
                &&& GenVec::<()>::insert_post(old(world).entities, final(world).entities, (), id)
            },
            None => old(world).spec_physics(player) is None && *final(world) == *old(world),
        },
{
    let popt = world.get_physics(player);
    if let Some(p0) = popt {
        let p = *p0;
        let dvec = Vec2 {
            x: click.x - p.world_space_position.x,
            y: click.y - p.world_space_position.y,
        };
        let dir = normalize(dvec);
        let ox = scale_by_unit(dir.x, 100);
        let oy = scale_by_unit(dir.y, 100);
        let physics = Physics {
            world_space_position: Vec2 {
                x: clamp_pos(p.world_space_position.x + ox),
                y: clamp_pos(p.world_space_position.y + oy),
            },
            direction: dir,
            speed: 600,
            mass: Mass::Finite(1),
            shape: Shape::Rectangle { width: 5, height: 5 },
        };
        let props = SpawnProperties_comp::new(
            SpawnInformation {
                entity_type: crate::components::EntityType::PlayerBullet,
                physics: Some(physics),
                color: Some(Color::rgb(0, 0, 255)),
            },
        );
        let id = world.spawn_pending(props);
        Some(id)
    } else {
        None
    }
}

} // verus!
