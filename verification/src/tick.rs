//! The spawner barrier and the tick driver: pending spawns are realized
//! between ticks, then one tick runs integration, broad and narrow phase,
//! and resolution, strictly in that order.

use vstd::prelude::*;

verus! {

use crate::arena::Index;
use crate::components::CollisionComp;
use crate::components::DrawableComp;
use crate::components::EntityType;
use crate::components::Physics;
use crate::components::SpawnProperties_comp;
use crate::components::TypeMask;
use crate::movement::moved_phys;
use crate::narrow::narrow_result;
use crate::resolve::arena_view;
use crate::resolve::res_view;
use crate::resolve::resolve_result;
use crate::table::seq_get;
use crate::table::seq_insert;
use crate::table::seq_remove;
use crate::world::SimError;
use crate::world::World;

/// The parts of the world the spawner may change; entity slots are read
/// for liveness only.
pub struct SpawnView {
    pub slots: Seq<(u32, bool)>,
    pub physics: Seq<Option<(u32, Physics)>>,
    pub collision: Seq<Option<(u32, CollisionComp)>>,
    pub drawables: Seq<Option<(u32, DrawableComp)>>,
    pub spawn_props: Seq<Option<(u32, SpawnProperties_comp)>>,
}

/// The spawner-relevant view of a world.
pub open spec fn spawn_view(w: World) -> SpawnView {
    SpawnView {
        slots: arena_view(w.entities),
        physics: w.physics.entries(),
        collision: w.collision.entries(),
        drawables: w.drawables.entries(),
        spawn_props: w.spawn_props.entries(),
    }
}

/// Realizing the pending spawn at slot `s`, if any: a player bullet gains
/// kinematics, drawing data and a collision mask, and the pending record is
/// consumed. A pending spawn of any other kind, or one missing its data, is
/// a fatal logic error.
pub open spec fn spawn_step(st: SpawnView, s: int) -> Result<SpawnView, ()> {
    if !st.slots[s].1 {
        Ok(st)
    } else {
        let id = Index { index: s as usize, generation: st.slots[s].0 };
        match seq_get(st.spawn_props, id) {
            None => Ok(st),
            Some(sp) => match sp.info.entity_type {
                EntityType::PlayerBullet => match (sp.info.physics, sp.info.color) {
                    (Some(ph), Some(cl)) => Ok(
                        SpawnView {
                            physics: seq_insert(st.physics, id, ph),
                            collision: seq_insert(
                                st.collision,
                                id,
                                CollisionComp {
                                    collides_with: TypeMask { bits: 1u32 },
                                    my_collision_type: EntityType::PlayerBullet,
                                },
                            ),
                            drawables: seq_insert(
                                st.drawables,
                                id,
                                DrawableComp { shape: ph.shape, color: cl },
                            ),
                            spawn_props: seq_remove(st.spawn_props, id),
                            ..st
                        },
                    ),
                    _ => Err(()),
                },
                _ => Err(()),
            },
        }
    }
}

/// The spawner-relevant state after walking every slot from `s` up.
pub open spec fn spawn_from(st: SpawnView, s: int) -> Result<SpawnView, ()>
    decreases st.slots.len() - s,
{
    if s < 0 || s >= st.slots.len() {
        Ok(st)
    } else {
        match spawn_step(st, s) {
            Err(e) => Err(e),
            Ok(st2) => spawn_from(st2, s + 1),
        }
    }
}

/// The whole spawner result for a world.
pub open spec fn spawner_result(w: World) -> Result<SpawnView, ()> {
    spawn_from(spawn_view(w), 0)
}

impl World {
    /// Realizes every pending spawn: the barrier between ticks at which
    /// queued entity creation is applied. A pending spawn the table has no
    /// recipe for is a fatal logic error and aborts the pass.
    pub fn run_spawner(&mut self) -> (r: Result<(), SimError>)
        requires
            old(self).wf(),
        ensures
            final(self).wf(),
            final(self).entities == old(self).entities,
            final(self).events == old(self).events,
            final(self).keyboard == old(self).keyboard,
            r is Ok ==> spawner_result(*old(self)) == Ok::<SpawnView, ()>(spawn_view(
                *final(self),
            )),
            r is Err ==> r == Err::<(), SimError>(SimError::UnsupportedSpawn) && spawner_result(
                *old(self),
            ) is Err,
    {
        let n = self.entities.slot_count();
        let ghost total = spawn_from(spawn_view(*old(self)), 0);
        let mut s: usize = 0;
        proof {
            assert(spawn_view(*self).slots.len() == n as int);
        }
        while s < n
            invariant
                self.wf(),
                n as int == self.entities.n_slots(),
                0 <= s <= n,
                self.entities == old(self).entities,
                self.events == old(self).events,
                self.keyboard == old(self).keyboard,
                spawn_from(spawn_view(*self), s as int) == total,
                total == spawn_from(spawn_view(*old(self)), 0),
            decreases n - s,
        {
            let ghost pre = spawn_view(*self);
            if let Some(id) = self.entities.id_at(s) {
                let spopt = self.spawn_props.get(id);
                if let Some(sp0) = spopt {
                    let sp = *sp0;
                    match sp.info.entity_type {
                        EntityType::PlayerBullet => {
                            if let (Some(ph), Some(cl)) = (sp.info.physics, sp.info.color) {
                                self.physics.insert(id, ph);
                                self.collision.insert(
                                    id,
                                    CollisionComp {
                                        collides_with: TypeMask::single(EntityType::Enemy),
                                        my_collision_type: EntityType::PlayerBullet,
                                    },
                                );
                                self.drawables.insert(
                                    id,
                                    DrawableComp { shape: ph.shape, color: cl },
                                );
                                self.spawn_props.remove(id);
                            } else {
                                proof {
                                    assert(spawn_step(pre, s as int) is Err);
                                }
                                return Err(SimError::UnsupportedSpawn);
                            }
                        },
                        _ => {
                            proof {
                                assert(spawn_step(pre, s as int) is Err);
                            }
                            return Err(SimError::UnsupportedSpawn);
                        },
                    }
                }
            }
            proof {
                assert(spawn_view(*self).slots =~= pre.slots);
                assert(spawn_step(pre, s as int) == Ok::<SpawnView, ()>(spawn_view(*self)));
                assert(spawn_from(pre, s as int) == spawn_from(spawn_view(*self), s + 1));
            }
            s = s + 1;
        }
        Ok(())
    }
}

/// How one movement phase relates the worlds before and after it.
pub open spec fn movement_rel(w0: World, w1: World, delta: u32) -> bool {
    &&& w1.entities == w0.entities
    &&& w1.collision == w0.collision
    &&& w1.events == w0.events
    &&& w1.drawables == w0.drawables
    &&& w1.keyboard == w0.keyboard
    &&& w1.spawn_props == w0.spawn_props
    &&& (delta > 1000 ==> w1.physics == w0.physics)
    &&& (delta <= 1000 ==> {
        &&& w1.physics.entries().len() == w0.physics.entries().len()
        &&& forall|i: int|
            0 <= i < w0.physics.entries().len() ==> (#[trigger] w1.physics.entries()[i]) == (
            match w0.physics.entries()[i] {
                Some(e) => Some((e.0, moved_phys(e.1, delta as int))),
                None => None,
            })
    })
}

/// How a completed narrow phase relates the worlds before and after it.
pub open spec fn narrow_ok_rel(w1: World, w2: World) -> bool {
    &&& w2.entities == w1.entities
    &&& w2.physics == w1.physics
    &&& w2.collision == w1.collision
    &&& w2.drawables == w1.drawables
    &&& w2.keyboard == w1.keyboard
    &&& w2.spawn_props == w1.spawn_props
    &&& narrow_result(w1) == Ok::<Seq<Option<(u32, crate::contact::CollisionResData)>>, ()>(
        w2.events.entries(),
    )
}

/// How a completed resolution pass relates the worlds before and after it.
pub open spec fn resolve_ok_rel(w2: World, w3: World) -> bool {
    &&& w3.collision == w2.collision
    &&& w3.drawables == w2.drawables
    &&& w3.keyboard == w2.keyboard
    &&& w3.spawn_props == w2.spawn_props
    &&& resolve_result(w2) == Ok::<crate::resolve::ResView, ()>(res_view(w3))
}

impl World {
    /// Advances the simulation by one tick: integration, then broad and
    /// narrow phase, then resolution, strictly in that order. A fatal
    /// condition aborts the tick and is handed to the caller; the
    /// simulation state is then not safe to keep running.
    pub fn advance_tick(&mut self, delta_millis: u32) -> (r: Result<(), SimError>)
        requires
            old(self).wf(),
        ensures
            final(self).wf(),
            r is Ok ==> exists|w1: World, w2: World|
                {
                    &&& #[trigger] movement_rel(*old(self), w1, delta_millis)
                    &&& #[trigger] narrow_ok_rel(w1, w2)
                    &&& resolve_ok_rel(w2, *final(self))
                },
            r is Err ==> exists|w1: World|
                {
                    &&& #[trigger] movement_rel(*old(self), w1, delta_millis)
                    &&& (r == Err::<(), SimError>(SimError::DuplicateCollisionEvent)
                        && narrow_result(w1) is Err) || (exists|w2: World|
                        #[trigger] narrow_ok_rel(w1, w2) && r == Err::<(), SimError>(
                            SimError::WallWallContact,
                        ) && resolve_result(w2) is Err)
                },
    {
        self.run_movement(delta_millis);
        let ghost w1 = *self;
        let res_narrow = self.run_collision_detection();
        if let Err(e) = res_narrow {
            proof {
                assert(movement_rel(*old(self), w1, delta_millis));
                assert(narrow_result(w1) is Err);
                assert(e == SimError::DuplicateCollisionEvent);
            }
            return Err(e);
        }
        let ghost w2 = *self;
        let res_resolve = self.run_collision_resolution();
        if let Err(e) = res_resolve {
            proof {
                assert(movement_rel(*old(self), w1, delta_millis));
                assert(narrow_ok_rel(w1, w2));
                assert(resolve_result(w2) is Err);
                assert(e == SimError::WallWallContact);
            }
            return Err(e);
        }
        proof {
            assert(movement_rel(*old(self), w1, delta_millis));
            assert(narrow_ok_rel(w1, w2));
            assert(resolve_ok_rel(w2, *self));
        }
        Ok(())
    }
}

} // verus!
