//! Broad and narrow phase: every unordered pair of bodies from the joined
//! (kinematic, collision) view is filtered by the first body's collision
//! mask against the second body's type, canonically ordered by type bit,
//! and probed for contact; a touching pair records one collision event on
//! the lower-typed body. Finding an event already recorded there is a
//! fatal ordering bug and aborts the frame.

use vstd::prelude::*;

verus! {

use crate::contact::CollisionResData;
use crate::contact::contact;
use crate::contact::contact_of;
use crate::geom::Vec2;
use crate::geom::normalize;
use crate::geom::spec_normalize;
use crate::table::lemma_seq_insert_get;
use crate::table::seq_get;
use crate::table::seq_insert;
use crate::world::JoinedBody;
use crate::world::SimError;
use crate::world::World;
use crate::world::joined;
use crate::world::joined_upto;

/// The prediction margin within which narrow phase reports a contact, in
/// world units.
pub const PREDICTION: i64 = 1;

type EventSlots = Seq<Option<(u32, CollisionResData)>>;

/// What probing the pair at positions `i`, `j` of the joined view does to
/// the event table: nothing if the first body's mask ignores the second
/// body's type or the bodies are apart; otherwise one event on the
/// lower-typed body, or a duplicate-event fault.
pub open spec fn narrow_step(objs: Seq<JoinedBody>, ev: EventSlots, i: int, j: int) -> Result<
    EventSlots,
    (),
> {
    let oa = objs[i];
    let ob = objs[j];
    if !oa.collision.collides_with.spec_contains(ob.collision.my_collision_type) {
        Ok(ev)
    } else {
        let swap = oa.collision.my_collision_type.spec_bit()
            > ob.collision.my_collision_type.spec_bit();
        let a = if swap {
            ob
        } else {
            oa
        };
        let b = if swap {
            oa
        } else {
            ob
        };
        match contact_of(
            a.physics.shape,
            a.physics.world_space_position,
            b.physics.shape,
            b.physics.world_space_position,
            PREDICTION as int,
        ) {
            None => Ok(ev),
            Some(c) => {
                if seq_get(ev, a.id) is Some {
                    Err(())
                } else {
                    Ok(
                        seq_insert(
                            ev,
                            a.id,
                            CollisionResData {
                                other: b.id,
                                contact: c,
                                vec_to_other: spec_normalize(
                                    Vec2 {
                                        x: (b.physics.world_space_position.x
                                            - a.physics.world_space_position.x) as i64,
                                        y: (b.physics.world_space_position.y
                                            - a.physics.world_space_position.y) as i64,
                                    },
                                ),
                            },
                        ),
                    )
                }
            },
        }
    }
}

/// The event table after probing every remaining pair, starting at the
/// pair `(i, j)` and walking pairs in ascending lexicographic order.
pub open spec fn narrow_from(objs: Seq<JoinedBody>, ev: EventSlots, i: int, j: int) -> Result<
    EventSlots,
    (),
>
    decreases objs.len() - i, objs.len() + 1 - j,
{
    if i >= objs.len() - 1 {
        Ok(ev)
    } else if j >= objs.len() {
        narrow_from(objs, ev, i + 1, i + 2)
    } else {
        match narrow_step(objs, ev, i, j) {
            Err(e) => Err(e),
            Ok(ev2) => narrow_from(objs, ev2, i, j + 1),
        }
    }
}

/// The whole narrow-phase result for a world: the event table after
/// probing all pairs of its joined view.
pub open spec fn narrow_result(w: World) -> Result<EventSlots, ()> {
    narrow_from(joined(w), w.events.entries(), 0, 1)
}

impl World {
    /// Runs broad and narrow phase: materializes the joined view once, then
    /// probes every unordered pair in ascending order, recording at most
    /// one collision event per touching pair on the lower-typed body.
    /// Returns the duplicate-event fault if a body already holds an
    /// unresolved event, leaving the frame aborted.
    pub fn run_collision_detection(&mut self) -> (r: Result<(), SimError>)
        requires
            old(self).wf(),
        ensures
            final(self).wf(),
            final(self).entities == old(self).entities,
            final(self).physics == old(self).physics,
            final(self).collision == old(self).collision,
            final(self).drawables == old(self).drawables,
            final(self).keyboard == old(self).keyboard,
            final(self).spawn_props == old(self).spawn_props,
            r is Ok ==> narrow_result(*old(self)) == Ok::<EventSlots, ()>(
                final(self).events.entries(),
            ),
            r is Err ==> r == Err::<(), SimError>(SimError::DuplicateCollisionEvent)
                && narrow_result(*old(self)) is Err,
    {
        let objects = self.joined_bodies();
        let n = objects.len();
        let ghost objs = objects@;
        let ghost total = narrow_from(objs, old(self).events.entries(), 0, 1);
        let mut i: usize = 0;
        while i < n
            invariant
                self.wf(),
                objects@ == objs,
                n == objs.len(),
                0 <= i <= n,
                forall|k: int| 0 <= k < objs.len() ==> (#[trigger] objs[k]).physics.wf(),
                forall|k: int| 0 <= k < objs.len() ==> (#[trigger] objs[k]).id.index < usize::MAX,
                objs == joined(*old(self)),
                self.entities == old(self).entities,
                self.physics == old(self).physics,
                self.collision == old(self).collision,
                self.drawables == old(self).drawables,
                self.keyboard == old(self).keyboard,
                self.spawn_props == old(self).spawn_props,
                narrow_from(objs, self.events.entries(), i as int, i + 1) == total,
                total == narrow_from(objs, old(self).events.entries(), 0, 1),
            decreases n - i,
        {
            let mut j: usize = i + 1;
            while j < n
                invariant
                    self.wf(),
                    objects@ == objs,
                    n == objs.len(),
                    0 <= i < n,
                    i + 1 <= j <= n,
                    forall|k: int| 0 <= k < objs.len() ==> (#[trigger] objs[k]).physics.wf(),
                    forall|k: int| 0 <= k < objs.len() ==> (#[trigger] objs[k]).id.index < usize::MAX,
                    objs == joined(*old(self)),
                    self.entities == old(self).entities,
                    self.physics == old(self).physics,
                    self.collision == old(self).collision,
                    self.drawables == old(self).drawables,
                    self.keyboard == old(self).keyboard,
                    self.spawn_props == old(self).spawn_props,
                    narrow_from(objs, self.events.entries(), i as int, j as int) == total,
                    total == narrow_from(objs, old(self).events.entries(), 0, 1),
                decreases n - j,
            {
                let oa = objects[i];
                let ob = objects[j];
                let ghost pre_ev = self.events.entries();
                if oa.collision.collides_with.intersects(ob.collision.my_collision_type) {
                    let swap = oa.collision.my_collision_type.bit()
                        > ob.collision.my_collision_type.bit();
                    let a = if swap {
                        ob
                    } else {
                        oa
                    };
                    let b = if swap {
                        oa
                    } else {
                        ob
                    };
                    let found = contact(
                        a.physics.shape,
                        a.physics.world_space_position,
                        b.physics.shape,
                        b.physics.world_space_position,
                        PREDICTION,
                    );
                    if let Some(c) = found {
                        if self.events.get(a.id).is_some() {
                            proof {
                                assert(narrow_step(objs, pre_ev, i as int, j as int) is Err);
                                assert(narrow_from(objs, pre_ev, i as int, j as int) is Err);
                            }
                            return Err(SimError::DuplicateCollisionEvent);
                        }
                        let dvec = Vec2 {
                            x: b.physics.world_space_position.x - a.physics.world_space_position.x,
                            y: b.physics.world_space_position.y - a.physics.world_space_position.y,
                        };
                        let vto = normalize(dvec);
                        self.events.insert(
                            a.id,
                            CollisionResData { other: b.id, contact: c, vec_to_other: vto },
                        );
                        proof {
                            assert(self.events.entries() == seq_insert(
                                pre_ev,
                                a.id,
                                CollisionResData { other: b.id, contact: c, vec_to_other: vto },
                            ));
                            assert(narrow_step(objs, pre_ev, i as int, j as int) == Ok::<
                                EventSlots,
                                (),
                            >(self.events.entries()));
                        }
                    }
                }
                proof {
                    assert(narrow_from(objs, pre_ev, i as int, j as int) == narrow_from(
                        objs,
                        self.events.entries(),
                        i as int,
                        j + 1,
                    ));
                }
                j = j + 1;
            }
            proof {
                if (i as int) < n - 1 {
                    assert(narrow_from(objs, self.events.entries(), i as int, n as int)
                        == narrow_from(objs, self.events.entries(), i + 1, i + 2));
                }
            }
            i = i + 1;
        }
        Ok(())
    }
}

/// The joined view lists entities in strictly ascending slot order, so two
/// distinct rows never share a slot index.
pub proof fn lemma_joined_ascending(w: World, n: int)
    requires
        n <= usize::MAX,
    ensures
        forall|k1: int, k2: int|
            0 <= k1 < k2 < joined_upto(w, n).len() ==> (#[trigger] joined_upto(w, n)[k1]).id.index
                < (#[trigger] joined_upto(w, n)[k2]).id.index,
        forall|k: int|
            0 <= k < joined_upto(w, n).len() ==> (#[trigger] joined_upto(w, n)[k]).id.index < n,
    decreases n,
{
    if n > 0 {
        lemma_joined_ascending(w, n - 1);
        let prev = joined_upto(w, n - 1);
        let cur = joined_upto(w, n);
        assert forall|k1: int, k2: int| 0 <= k1 < k2 < cur.len() implies (#[trigger] cur[k1]).id.index
            < (#[trigger] cur[k2]).id.index by {
            if k2 < prev.len() {
                assert(cur[k1] == prev[k1]);
                assert(cur[k2] == prev[k2]);
            } else if k1 < prev.len() {
                assert(cur[k1] == prev[k1]);
                assert(cur[k2].id.index == n - 1);
            }
        }
        assert forall|k: int| 0 <= k < cur.len() implies (#[trigger] cur[k]).id.index < n by {
            if k < prev.len() {
                assert(cur[k] == prev[k]);
            }
        }
    }
}

/// Both rows of a pair keep ignoring each other in the event table: no
/// event on either names the other as its counterpart.
pub open spec fn no_link(objs: Seq<JoinedBody>, ev: EventSlots, pi: int, pj: int) -> bool {
    &&& (seq_get(ev, objs[pi].id) matches Some(e) ==> e.other != objs[pj].id)
    &&& (seq_get(ev, objs[pj].id) matches Some(e) ==> e.other != objs[pi].id)
}

/// Rows at distinct positions of an ascending joined view have distinct
/// slot indices.
pub open spec fn distinct_slots(objs: Seq<JoinedBody>) -> bool {
    forall|k1: int, k2: int|
        0 <= k1 < k2 < objs.len() ==> (#[trigger] objs[k1]).id.index < (#[trigger] objs[k2]).id.index
}

proof fn lemma_narrow_no_link(objs: Seq<JoinedBody>, ev: EventSlots, i: int, j: int, pi: int, pj: int)
    requires
        0 <= i < j,
        0 <= pi < objs.len(),
        0 <= pj < objs.len(),
        pi != pj,
        distinct_slots(objs),
        !objs[pi].collision.collides_with.spec_contains(objs[pj].collision.my_collision_type),
        !objs[pj].collision.collides_with.spec_contains(objs[pi].collision.my_collision_type),
        no_link(objs, ev, pi, pj),
    ensures
        narrow_from(objs, ev, i, j) matches Ok(evf) ==> no_link(objs, evf, pi, pj),
    decreases objs.len() - i, objs.len() + 1 - j,
{
    if i >= objs.len() - 1 {
    } else if j >= objs.len() {
        lemma_narrow_no_link(objs, ev, i + 1, i + 2, pi, pj);
    } else {
        match narrow_step(objs, ev, i, j) {
            Err(e) => {},
            Ok(ev2) => {
                lemma_step_no_link(objs, ev, i, j, pi, pj);
                lemma_narrow_no_link(objs, ev2, i, j + 1, pi, pj);
            },
        }
    }
}

proof fn lemma_step_no_link(objs: Seq<JoinedBody>, ev: EventSlots, i: int, j: int, pi: int, pj: int)
    requires
        0 <= i < objs.len(),
        0 <= j < objs.len(),
        0 <= pi < objs.len(),
        0 <= pj < objs.len(),
        pi != pj,
        distinct_slots(objs),
        !objs[pi].collision.collides_with.spec_contains(objs[pj].collision.my_collision_type),
        !objs[pj].collision.collides_with.spec_contains(objs[pi].collision.my_collision_type),
        no_link(objs, ev, pi, pj),
    ensures
        narrow_step(objs, ev, i, j) matches Ok(ev2) ==> no_link(objs, ev2, pi, pj),
{
    let oa = objs[i];
    let ob = objs[j];
    if oa.collision.collides_with.spec_contains(ob.collision.my_collision_type) {
        let swap = oa.collision.my_collision_type.spec_bit()
            > ob.collision.my_collision_type.spec_bit();
        let a = if swap { ob } else { oa };
        let b = if swap { oa } else { ob };
        match contact_of(
            a.physics.shape,
            a.physics.world_space_position,
            b.physics.shape,
            b.physics.world_space_position,
            PREDICTION as int,
        ) {
            None => {},
            Some(c) => {
                if seq_get(ev, a.id) is Some {
                } else {
                    let e = CollisionResData {
                        other: b.id,
                        contact: c,
                        vec_to_other: spec_normalize(
                            Vec2 {
                                x: (b.physics.world_space_position.x
                                    - a.physics.world_space_position.x) as i64,
                                y: (b.physics.world_space_position.y
                                    - a.physics.world_space_position.y) as i64,
                            },
                        ),
                    };
                    let ev2 = seq_insert(ev, a.id, e);
                    lemma_seq_insert_get(ev, a.id, e, objs[pi].id);
                    lemma_seq_insert_get(ev, a.id, e, objs[pj].id);
                    // The inserted event names the pair (i, j), which by
                    // the mask hypotheses is not {pi, pj}; slot indices are
                    // distinct, so ids at distinct positions differ.
                    lemma_distinct_ids(objs, i, pi);
                    lemma_distinct_ids(objs, i, pj);
                    lemma_distinct_ids(objs, j, pi);
                    lemma_distinct_ids(objs, j, pj);
                    assert(seq_get(ev2, objs[pi].id) matches Some(e2) ==> e2.other != objs[pj].id)
                        by {
                        if objs[pi].id.index == a.id.index {
                            if !swap {
                                assert(i == pi);
                                assert(j != pj);
                            } else {
                                assert(j == pi);
                                assert(i != pj);
                            }
                        }
                    }
                    assert(seq_get(ev2, objs[pj].id) matches Some(e2) ==> e2.other != objs[pi].id)
                        by {
                        if objs[pj].id.index == a.id.index {
                            if !swap {
                                assert(i == pj);
                                assert(j != pi);
                            } else {
                                assert(j == pj);
                                assert(i != pi);
                            }
                        }
                    }
                }
            },
        }
    }
}

proof fn lemma_distinct_ids(objs: Seq<JoinedBody>, k1: int, k2: int)
    requires
        distinct_slots(objs),
        0 <= k1 < objs.len(),
        0 <= k2 < objs.len(),
    ensures
        k1 != k2 ==> objs[k1].id.index != objs[k2].id.index,
{
    if k1 < k2 {
        assert(objs[k1].id.index < objs[k2].id.index);
    } else if k2 < k1 {
        assert(objs[k2].id.index < objs[k1].id.index);
    }
}

impl World {
    /// Law: two entities whose collision masks are mutually disjoint never
    /// produce a collision event between them — whatever narrow phase
    /// records, no event on either names the other.
    pub proof fn lemma_disjoint_masks_no_event(w: World, pi: int, pj: int, evf: EventSlots)
        requires
            0 <= pi < joined(w).len(),
            0 <= pj < joined(w).len(),
            pi != pj,
            !joined(w)[pi].collision.collides_with.spec_contains(
                joined(w)[pj].collision.my_collision_type,
            ),
            !joined(w)[pj].collision.collides_with.spec_contains(
                joined(w)[pi].collision.my_collision_type,
            ),
            no_link(joined(w), w.events.entries(), pi, pj),
            narrow_result(w) == Ok::<EventSlots, ()>(evf),
        ensures
            no_link(joined(w), evf, pi, pj),
            seq_get(evf, joined(w)[pi].id) matches Some(e) ==> e.other != joined(w)[pj].id,
            seq_get(evf, joined(w)[pj].id) matches Some(e) ==> e.other != joined(w)[pi].id,
    {
        w.entities.lemma_n_slots_bounded();
        lemma_joined_ascending(w, w.entities.n_slots());
        lemma_narrow_no_link(joined(w), w.events.entries(), 0, 1, pi, pj);
    }
}

} // verus!
