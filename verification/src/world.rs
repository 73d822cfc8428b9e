//! The simulation context: the entity arena and the per-kind component
//! tables, with entity lifecycle and the joined queries the collision
//! phases and the renderer read.
//!
//! Removing an entity only frees its arena slot; component entries left
//! behind are unreachable, because every lookup checks the generation.

use vstd::prelude::*;

verus! {

use crate::arena::GenVec;
use crate::arena::Index;
use crate::components::CollisionComp;
use crate::components::DrawableComp;
use crate::components::Physics;
use crate::components::SpawnProperties_comp;
use crate::contact::CollisionResData;
use crate::contact::contact_wf;
use crate::geom::UNIT;
use crate::input::KeyboardHandling;
use crate::table::ComponentTable;
use crate::table::seq_insert;

/// A collision event is safe for resolution arithmetic when its contact
/// data and direction are in range.
pub open spec fn event_wf(ev: CollisionResData) -> bool {
    &&& contact_wf(ev.contact)
    &&& -UNIT <= ev.vec_to_other.x <= UNIT
    &&& -UNIT <= ev.vec_to_other.y <= UNIT
}

/// The fatal conditions a tick can surface; the simulation state is not
/// safe to keep running after one of these, so callers abort the frame.
#[derive(Clone, Copy, PartialEq, Eq, Structural, Debug)]
pub enum SimError {
    /// Narrow phase found an entity already holding an unresolved event.
    DuplicateCollisionEvent,
    /// Two immovable walls were probed against each other.
    WallWallContact,
    /// The spawner met a pending spawn of a kind it has no recipe for.
    UnsupportedSpawn,
}

/// One row of the joined (kinematic, collision) view the collision phases
/// work on.
#[derive(Clone, Copy, PartialEq, Eq, Structural, Debug)]
pub struct JoinedBody {
    pub id: Index,
    pub physics: Physics,
    pub collision: CollisionComp,
}

/// The whole simulation state handed to `advance_tick`.
pub struct World {
    pub entities: GenVec<()>,
    pub physics: ComponentTable<Physics>,
    pub collision: ComponentTable<CollisionComp>,
    pub events: ComponentTable<CollisionResData>,
    pub drawables: ComponentTable<DrawableComp>,
    pub keyboard: ComponentTable<KeyboardHandling>,
    pub spawn_props: ComponentTable<SpawnProperties_comp>,
}

impl World {
    /// Every kinematic record and event in the tables is in range, and the
    /// arena is internally consistent.
    pub open spec fn wf(self) -> bool {
        &&& self.entities.wf()
        &&& forall|i: int|
            0 <= i < self.physics.entries().len() ==> ((#[trigger] self.physics.entries()[i])
                matches Some(e) ==> e.1.wf())
        &&& forall|i: int|
            0 <= i < self.events.entries().len() ==> ((#[trigger] self.events.entries()[i])
                matches Some(e) ==> event_wf(e.1))
        &&& forall|i: int|
            0 <= i < self.spawn_props.entries().len() ==> ((#[trigger] self.spawn_props.entries()[i])
                matches Some(e) ==> (e.1.info.physics matches Some(p) ==> p.wf()))
        &&& forall|i: int|
            0 <= i < self.keyboard.entries().len() ==> ((#[trigger] self.keyboard.entries()[i])
                matches Some(e) ==> e.1.directional_velocity <= crate::geom::SPEED_LIMIT)
    }

    pub open spec fn alive(self, id: Index) -> bool {
        self.entities.valid_id(id)
    }

    pub open spec fn spec_physics(self, id: Index) -> Option<Physics> {
        self.physics.spec_get(id)
    }

    pub open spec fn spec_collision(self, id: Index) -> Option<CollisionComp> {
        self.collision.spec_get(id)
    }

    pub open spec fn spec_event(self, id: Index) -> Option<CollisionResData> {
        self.events.spec_get(id)
    }

    /// An empty world.
    pub fn new() -> (w: Self)
        ensures
            w.wf(),
            w.entities.n_slots() == 0,
            w.entities.spec_len() == 0,
            w.physics.entries().len() == 0,
            w.collision.entries().len() == 0,
            w.events.entries().len() == 0,
            w.drawables.entries().len() == 0,
            w.keyboard.entries().len() == 0,
            w.spawn_props.entries().len() == 0,
    {
        World {
            entities: GenVec::new(),
            physics: ComponentTable::new(),
            collision: ComponentTable::new(),
            events: ComponentTable::new(),
            drawables: ComponentTable::new(),
            keyboard: ComponentTable::new(),
            spawn_props: ComponentTable::new(),
        }
    }

    /// Creates an entity with kinematic state and a collision mask, the two
    /// components every simulated body carries.
    pub fn spawn(&mut self, ph: Physics, col: CollisionComp) -> (id: Index)
        requires
            old(self).wf(),
            ph.wf(),
            old(self).entities.n_slots() < usize::MAX,
        ensures
            final(self).wf(),
            GenVec::<()>::insert_post(old(self).entities, final(self).entities, (), id),
            final(self).physics.entries() == seq_insert(old(self).physics.entries(), id, ph),
            final(self).collision.entries() == seq_insert(old(self).collision.entries(), id, col),
            final(self).events == old(self).events,
            final(self).drawables == old(self).drawables,
            final(self).keyboard == old(self).keyboard,
            final(self).spawn_props == old(self).spawn_props,
            final(self).alive(id),
            final(self).spec_physics(id) == Some(ph),
            final(self).spec_collision(id) == Some(col),
    {
        let id = self.entities.insert(());
        self.physics.insert(id, ph);
        self.collision.insert(id, col);
        id
    }

    /// Creates an entity carrying only a pending-spawn component, to be
    /// realized by the spawner at the next barrier between ticks.
    pub fn spawn_pending(&mut self, props: SpawnProperties_comp) -> (id: Index)
        requires
            old(self).wf(),
            props.info.physics matches Some(p) ==> p.wf(),
            old(self).entities.n_slots() < usize::MAX,
        ensures
            final(self).wf(),
            GenVec::<()>::insert_post(old(self).entities, final(self).entities, (), id),
            final(self).spawn_props.entries() == seq_insert(
                old(self).spawn_props.entries(),
                id,
                props,
            ),
            final(self).physics == old(self).physics,
            final(self).collision == old(self).collision,
            final(self).events == old(self).events,
            final(self).drawables == old(self).drawables,
            final(self).keyboard == old(self).keyboard,
            final(self).spawn_props.spec_get(id) == Some(props),
    {
        let id = self.entities.insert(());
        self.spawn_props.insert(id, props);
        id
    }

    /// Removes an entity. Component entries are left behind but become
    /// unreachable: the slot's generation has moved on.
    pub fn despawn(&mut self, id: Index)
        requires
            old(self).wf(),
        ensures
            final(self).wf(),
            GenVec::<()>::remove_post(old(self).entities, final(self).entities, id),
            final(self).physics == old(self).physics,
            final(self).collision == old(self).collision,
            final(self).events == old(self).events,
            final(self).drawables == old(self).drawables,
            final(self).keyboard == old(self).keyboard,
            final(self).spawn_props == old(self).spawn_props,
            !final(self).alive(id),
    {
        self.entities.remove(&id);
        proof {
            if old(self).entities.valid_id(id) {
            } else {
                assert(final(self).entities == old(self).entities);
            }
        }
    }

    /// Whether `id` still names a live entity.
    pub fn is_alive(&self, id: Index) -> (r: bool)
        ensures
            r == self.alive(id),
    {
        self.entities.get(&id).is_some()
    }

    pub fn get_physics(&self, id: Index) -> (r: Option<&Physics>)
        ensures
            match r {
                Some(p) => self.spec_physics(id) == Some(*p),
                None => self.spec_physics(id) is None,
            },
    {
        self.physics.get(id)
    }

    pub fn get_collision(&self, id: Index) -> (r: Option<&CollisionComp>)
        ensures
            match r {
                Some(c) => self.spec_collision(id) == Some(*c),
                None => self.spec_collision(id) is None,
            },
    {
        self.collision.get(id)
    }

    pub fn get_event(&self, id: Index) -> (r: Option<&CollisionResData>)
        ensures
            match r {
                Some(e) => self.spec_event(id) == Some(*e),
                None => self.spec_event(id) is None,
            },
    {
        self.events.get(id)
    }

    /// Overwrites an entity's kinematic state.
    pub fn set_physics(&mut self, id: Index, ph: Physics)
        requires
            old(self).wf(),
            ph.wf(),
            id.index < usize::MAX,
        ensures
            final(self).wf(),
            final(self).physics.entries() == seq_insert(old(self).physics.entries(), id, ph),
            final(self).entities == old(self).entities,
            final(self).collision == old(self).collision,
            final(self).events == old(self).events,
            final(self).drawables == old(self).drawables,
            final(self).keyboard == old(self).keyboard,
            final(self).spawn_props == old(self).spawn_props,
            final(self).spec_physics(id) == Some(ph),
    {
        self.physics.insert(id, ph);
    }

    /// Stores what the renderer needs for an entity.
    pub fn set_drawable(&mut self, id: Index, d: DrawableComp)
        requires
            old(self).wf(),
            id.index < usize::MAX,
        ensures
            final(self).wf(),
            final(self).drawables.entries() == seq_insert(old(self).drawables.entries(), id, d),
            final(self).entities == old(self).entities,
            final(self).physics == old(self).physics,
            final(self).collision == old(self).collision,
            final(self).events == old(self).events,
            final(self).keyboard == old(self).keyboard,
            final(self).spawn_props == old(self).spawn_props,
    {
        self.drawables.insert(id, d);
    }

    /// Attaches input handling state to an entity.
    pub fn set_keyboard(&mut self, id: Index, k: KeyboardHandling)
        requires
            old(self).wf(),
            k.directional_velocity <= crate::geom::SPEED_LIMIT,
            id.index < usize::MAX,
        ensures
            final(self).wf(),
            final(self).keyboard.entries() == seq_insert(old(self).keyboard.entries(), id, k),
            final(self).entities == old(self).entities,
            final(self).physics == old(self).physics,
            final(self).collision == old(self).collision,
            final(self).events == old(self).events,
            final(self).drawables == old(self).drawables,
            final(self).spawn_props == old(self).spawn_props,
    {
        self.keyboard.insert(id, k);
    }
}

/// The joined (kinematic, collision) view over the first `n` slots: one row
/// per live entity that has both components, in ascending slot order.
pub open spec fn joined_upto(w: World, n: int) -> Seq<JoinedBody>
    decreases n,
{
    if n <= 0 {
        Seq::empty()
    } else {
        let rest = joined_upto(w, n - 1);
        let i = n - 1;
        if w.entities.occupied(i) {
            let id = Index { index: i as usize, generation: w.entities.generation_of(i) };
            match (w.physics.spec_get(id), w.collision.spec_get(id)) {
                (Some(p), Some(c)) => rest.push(JoinedBody { id, physics: p, collision: c }),
                _ => rest,
            }
        } else {
            rest
        }
    }
}

/// The joined (kinematic, collision) view of the whole world.
pub open spec fn joined(w: World) -> Seq<JoinedBody> {
    joined_upto(w, w.entities.n_slots())
}

impl World {
    /// Materializes the joined (kinematic, collision) view once, in
    /// ascending slot order, as broad phase does at the start of each tick.
    pub fn joined_bodies(&self) -> (out: Vec<JoinedBody>)
        requires
            self.wf(),
        ensures
            out@ == joined(*self),
            forall|k: int| 0 <= k < out@.len() ==> (#[trigger] out@[k]).physics.wf(),
            forall|k1: int, k2: int|
                0 <= k1 < k2 < out@.len() ==> out@[k1].id.index < out@[k2].id.index,
            forall|k: int| 0 <= k < out@.len() ==> self.alive((#[trigger] out@[k]).id),
            forall|k: int| 0 <= k < out@.len() ==> (#[trigger] out@[k]).id.index < usize::MAX,
    {
        let mut out: Vec<JoinedBody> = Vec::new();
        let n = self.entities.slot_count();
        let mut i: usize = 0;
        while i < n
            invariant
                self.wf(),
                n as int == self.entities.n_slots(),
                0 <= i <= n,
                out@ == joined_upto(*self, i as int),
                forall|k: int| 0 <= k < out@.len() ==> (#[trigger] out@[k]).physics.wf(),
                forall|k1: int, k2: int|
                    0 <= k1 < k2 < out@.len() ==> out@[k1].id.index < out@[k2].id.index,
                forall|k: int| 0 <= k < out@.len() ==> (#[trigger] out@[k]).id.index < i,
                forall|k: int| 0 <= k < out@.len() ==> self.alive((#[trigger] out@[k]).id),
            decreases n - i,
        {
            if let Some(id) = self.entities.id_at(i) {
                let ph = self.physics.get(id);
                let co = self.collision.get(id);
                if let (Some(p), Some(c)) = (ph, co) {
                    out.push(JoinedBody { id, physics: *p, collision: *c });
                }
            }
            i = i + 1;
        }
        out
    }
}

} // verus!
