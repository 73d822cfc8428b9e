//! Movement integration: once per tick, every kinematic body advances along
//! its direction by its speed over the elapsed time, clamped to the world
//! bounds. A tick longer than one second is skipped entirely, as a stalled
//! simulation should not teleport bodies.

use vstd::prelude::*;

verus! {

use crate::components::Physics;
use crate::geom::Vec2;
use crate::geom::clamp_pos;
use crate::geom::div_trunc;
use crate::geom::spec_clamp;
use crate::geom::velocity_step;
use crate::world::World;

/// A kinematic record after one integration step of `delta` milliseconds.
pub open spec fn moved_phys(p: Physics, delta: int) -> Physics {
    Physics {
        world_space_position: Vec2 {
            x: spec_clamp(
                p.world_space_position.x + div_trunc(p.direction.x * p.speed * delta, 1_000_000),
            ) as i64,
            y: spec_clamp(
                p.world_space_position.y + div_trunc(p.direction.y * p.speed * delta, 1_000_000),
            ) as i64,
        },
        ..p
    }
}

impl World {
    /// Integrates every kinematic body by `delta_millis`. A delta above one
    /// second leaves everything unchanged.
    pub fn run_movement(&mut self, delta_millis: u32)
        requires
            old(self).wf(),
        ensures
            final(self).wf(),
            final(self).entities == old(self).entities,
            final(self).collision == old(self).collision,
            final(self).events == old(self).events,
            final(self).drawables == old(self).drawables,
            final(self).keyboard == old(self).keyboard,
            final(self).spawn_props == old(self).spawn_props,
            delta_millis > 1000 ==> final(self).physics == old(self).physics,
            delta_millis <= 1000 ==> {
                &&& final(self).physics.entries().len() == old(self).physics.entries().len()
                &&& forall|i: int|
                    0 <= i < old(self).physics.entries().len()
                        ==> (#[trigger] final(self).physics.entries()[i])
                        == (match old(self).physics.entries()[i] {
                        Some(e) => Some((e.0, moved_phys(e.1, delta_millis as int))),
                        None => None,
                    })
            },
    {
        if delta_millis > 1000 {
            return ;
        }
        let n = self.physics.slot_count();
        let mut i: usize = 0;
        while i < n
            invariant
                self.wf(),
                n as int == self.physics.entries().len(),
                0 <= i <= n,
                delta_millis <= 1000,
                self.entities == old(self).entities,
                self.collision == old(self).collision,
                self.events == old(self).events,
                self.drawables == old(self).drawables,
                self.keyboard == old(self).keyboard,
                self.spawn_props == old(self).spawn_props,
                self.physics.entries().len() == old(self).physics.entries().len(),
                forall|j: int|
                    0 <= j < i ==> (#[trigger] self.physics.entries()[j]) == (match old(self).physics.entries()[j] {
                        Some(e) => Some((e.0, moved_phys(e.1, delta_millis as int))),
                        None => None,
                    }),
                forall|j: int|
                    i <= j < n ==> (#[trigger] self.physics.entries()[j])
                        == old(self).physics.entries()[j],
            decreases n - i,
        {
            let slot = *self.physics.slot_at(i);
            if let Some((g, p)) = slot {
                let vx = velocity_step(p.direction.x, p.speed, delta_millis);
                let vy = velocity_step(p.direction.y, p.speed, delta_millis);
                let np = Physics {
                    world_space_position: Vec2 {
                        x: clamp_pos(p.world_space_position.x + vx),
                        y: clamp_pos(p.world_space_position.y + vy),
                    },
                    ..p
                };
                self.physics.set_slot(i, Some((g, np)));
            }
            i = i + 1;
        }
    }
}

} // verus!
