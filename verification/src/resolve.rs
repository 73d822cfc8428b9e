//! Resolution engine: consumes the collision events narrow phase recorded,
//! classifies each pair by entity type, and applies the reaction the type
//! table prescribes — positional de-penetration, destruction, or nothing.
//! Events are processed in ascending slot order; an entity deleted by an
//! earlier resolution in the same pass is silently skipped, never an error.

use vstd::prelude::*;

verus! {

use crate::arena::GenVec;
use crate::arena::Index;
use crate::components::CollisionComp;
use crate::components::EntityType;
use crate::components::Shape;
use crate::components::Physics;
use crate::contact::CollisionResData;
use crate::contact::contact_raw;
use crate::contact::iabs;
use crate::contact::isign;
use crate::contact::rect_rect_raw;
use crate::geom::UNIT;
use crate::geom::Vec2;
use crate::geom::clamp_pos;
use crate::geom::div_trunc;
use crate::geom::normalize;
use crate::geom::scale_by_unit;
use crate::geom::spec_clamp;
use crate::geom::spec_normalize;
use crate::geom::lemma_normalize_axis;
use crate::geom::lemma_normalize_axis_y;
use crate::geom::lemma_sqrt_floor_exists;
use crate::geom::sqrt_floor;
use vstd::arithmetic::div_mod::lemma_div_by_multiple;
use crate::table::seq_get;
use crate::table::seq_insert;
use crate::table::seq_remove;
use crate::world::SimError;
use crate::world::World;

/// The arena's slots as plain data: current generation and occupancy.
pub open spec fn arena_view(gv: GenVec<()>) -> Seq<(u32, bool)> {
    Seq::new(gv.n_slots() as nat, |i: int| (gv.generation_of(i), gv.occupied(i)))
}

/// The parts of the world the resolution engine may change.
pub struct ResView {
    pub slots: Seq<(u32, bool)>,
    pub physics: Seq<Option<(u32, Physics)>>,
    pub events: Seq<Option<(u32, CollisionResData)>>,
}

/// The resolution-relevant view of a world.
pub open spec fn res_view(w: World) -> ResView {
    ResView {
        slots: arena_view(w.entities),
        physics: w.physics.entries(),
        events: w.events.entries(),
    }
}

/// A kinematic record pushed back along `v` (a fixed-point unit vector) by
/// the magnitude of `dist`, clamped to the world bounds.
pub open spec fn moved_by(p: Physics, v: Vec2, dist: i64) -> Physics {
    Physics {
        world_space_position: Vec2 {
            x: spec_clamp(
                p.world_space_position.x - div_trunc(v.x * iabs(dist as int), UNIT as int),
            ) as i64,
            y: spec_clamp(
                p.world_space_position.y - div_trunc(v.y * iabs(dist as int), UNIT as int),
            ) as i64,
        },
        ..p
    }
}

/// Positional correction: entity `a` moves back along `v` by the contact
/// depth; an entity whose kinematics are gone is left alone.
pub open spec fn correct_position(st: ResView, a: Index, v: Vec2, dist: i64) -> ResView {
    match seq_get(st.physics, a) {
        None => st,
        Some(p) => ResView { physics: seq_insert(st.physics, a, moved_by(p, v, dist)), ..st },
    }
}

/// Destruction: entity `a`'s slot is freed (its generation moves on, or the
/// slot retires at the counter's ceiling), so the identity goes stale.
pub open spec fn delete_entity(st: ResView, a: Index) -> ResView {
    let g = st.slots[a.index as int].0;
    let g2 = if g < u32::MAX {
        (g + 1) as u32
    } else {
        g
    };
    ResView { slots: st.slots.update(a.index as int, (g2, false)), ..st }
}

/// The direction the player is pushed back along when squeezed against a
/// wall: from the wall's witness point toward the player's, with exactly
/// coincident points defaulting to the positive x axis.
pub open spec fn player_wall_offset(ev: CollisionResData) -> Vec2 {
    spec_normalize(
        Vec2 {
            x: (ev.contact.point1.x - ev.contact.point2.x) as i64,
            y: (ev.contact.point1.y - ev.contact.point2.y) as i64,
        },
    )
}

/// The reaction table, keyed by the pair of entity types in canonical
/// (lower bit first) order: walls stop what runs into them, bullets die
/// against walls and targets, and everything else is a no-op. Two walls in
/// contact is a fatal logic error.
pub open spec fn apply_reaction(
    st: ResView,
    a: Index,
    at: EntityType,
    bt: EntityType,
    ev: CollisionResData,
) -> Result<ResView, ()> {
    match (at, bt) {
        (EntityType::Enemy, EntityType::Wall) => Ok(
            correct_position(st, a, ev.vec_to_other, ev.contact.dist),
        ),
        (EntityType::EnemyBullet, EntityType::Player) => Ok(delete_entity(st, a)),
        (EntityType::EnemyBullet, EntityType::Wall) => Ok(delete_entity(st, a)),
        (EntityType::Player, EntityType::Wall) => Ok(
            correct_position(st, a, player_wall_offset(ev), ev.contact.dist),
        ),
        (EntityType::PlayerBullet, EntityType::Wall) => Ok(delete_entity(st, a)),
        (EntityType::Wall, EntityType::Wall) => Err(()),
        _ => Ok(st),
    }
}

/// Resolving slot `s`: if a live entity there holds an event, the event is
/// consumed unconditionally; the reaction applies only if both entities
/// still exist with collision data — anything stale is a silent no-op.
pub open spec fn resolve_step(
    col: Seq<Option<(u32, CollisionComp)>>,
    st: ResView,
    s: int,
) -> Result<ResView, ()> {
    if !st.slots[s].1 {
        Ok(st)
    } else {
        let id = Index { index: s as usize, generation: st.slots[s].0 };
        match seq_get(st.events, id) {
            None => Ok(st),
            Some(ev) => {
                let st1 = ResView { events: seq_remove(st.events, id), ..st };
                match seq_get(col, id) {
                    None => Ok(st1),
                    Some(acol) => {
                        let ob = ev.other;
                        let b_alive = 0 <= (ob.index as int) < st1.slots.len()
                            && st1.slots[ob.index as int].1 && st1.slots[ob.index as int].0
                            == ob.generation;
                        if !b_alive {
                            Ok(st1)
                        } else {
                            match seq_get(col, ob) {
                                None => Ok(st1),
                                Some(bcol) => apply_reaction(
                                    st1,
                                    id,
                                    acol.my_collision_type,
                                    bcol.my_collision_type,
                                    ev,
                                ),
                            }
                        }
                    },
                }
            },
        }
    }
}

/// The resolution-relevant state after resolving every slot from `s` up,
/// in ascending order.
pub open spec fn resolve_from(
    col: Seq<Option<(u32, CollisionComp)>>,
    st: ResView,
    s: int,
) -> Result<ResView, ()>
    decreases st.slots.len() - s,
{
    if s < 0 || s >= st.slots.len() {
        Ok(st)
    } else {
        match resolve_step(col, st, s) {
            Err(e) => Err(e),
            Ok(st2) => resolve_from(col, st2, s + 1),
        }
    }
}

/// The whole resolution result for a world.
pub open spec fn resolve_result(w: World) -> Result<ResView, ()> {
    resolve_from(w.collision.entries(), res_view(w), 0)
}

impl World {
    /// Applies the positional correction `apply_reaction` prescribes.
    fn do_correct_position(&mut self, a: Index, v: Vec2, dist: i64)
        requires
            old(self).wf(),
            a.index < usize::MAX,
            -UNIT <= v.x <= UNIT,
            -UNIT <= v.y <= UNIT,
            -crate::contact::DIST_BOUND <= dist <= crate::contact::DIST_BOUND,
        ensures
            final(self).wf(),
            final(self).entities == old(self).entities,
            final(self).collision == old(self).collision,
            final(self).events == old(self).events,
            final(self).drawables == old(self).drawables,
            final(self).keyboard == old(self).keyboard,
            final(self).spawn_props == old(self).spawn_props,
            res_view(*final(self)) == correct_position(res_view(*old(self)), a, v, dist),
    {
        let popt = self.physics.get(a);
        if let Some(p0) = popt {
            let p = *p0;
            let m: i64 = if dist >= 0 {
                dist
            } else {
                -dist
            };
            let ox = scale_by_unit(v.x, m);
            let oy = scale_by_unit(v.y, m);
            let np = Physics {
                world_space_position: Vec2 {
                    x: clamp_pos(p.world_space_position.x - ox),
                    y: clamp_pos(p.world_space_position.y - oy),
                },
                ..p
            };
            self.physics.insert(a, np);
            proof {
                assert(res_view(*self).slots =~= res_view(*old(self)).slots);
            }
        } else {
            proof {
                assert(res_view(*self).slots =~= res_view(*old(self)).slots);
            }
        }
    }

    /// Deletes an entity as a resolution effect.
    fn do_delete(&mut self, a: Index)
        requires
            old(self).wf(),
            old(self).alive(a),
        ensures
            final(self).wf(),
            final(self).physics == old(self).physics,
            final(self).collision == old(self).collision,
            final(self).events == old(self).events,
            final(self).drawables == old(self).drawables,
            final(self).keyboard == old(self).keyboard,
            final(self).spawn_props == old(self).spawn_props,
            res_view(*final(self)) == delete_entity(res_view(*old(self)), a),
            final(self).entities.n_slots() == old(self).entities.n_slots(),
            final(self).collision.entries() == old(self).collision.entries(),
    {
        self.despawn(a);
        proof {
            assert(res_view(*self).slots =~= delete_entity(res_view(*old(self)), a).slots);
            assert(res_view(*self) == delete_entity(res_view(*old(self)), a));
        }
    }

    /// Runs the resolution engine over all recorded collision events, in
    /// ascending slot order. A wall-against-wall contact is a fatal logic
    /// error and aborts the frame; everything else resolves locally.
    pub fn run_collision_resolution(&mut self) -> (r: Result<(), SimError>)
        requires
            old(self).wf(),
        ensures
            final(self).wf(),
            final(self).collision == old(self).collision,
            final(self).drawables == old(self).drawables,
            final(self).keyboard == old(self).keyboard,
            final(self).spawn_props == old(self).spawn_props,
            r is Ok ==> resolve_result(*old(self)) == Ok::<ResView, ()>(res_view(*final(self))),
            r is Err ==> r == Err::<(), SimError>(SimError::WallWallContact) && resolve_result(
                *old(self),
            ) is Err,
    {
        let n = self.entities.slot_count();
        let ghost col0 = self.collision.entries();
        let ghost total = resolve_from(col0, res_view(*old(self)), 0);
        let mut s: usize = 0;
        proof {
            assert(res_view(*self).slots.len() == n as int);
        }
        while s < n
            invariant
                self.wf(),
                n as int == self.entities.n_slots(),
                0 <= s <= n,
                self.collision == old(self).collision,
                self.drawables == old(self).drawables,
                self.keyboard == old(self).keyboard,
                self.spawn_props == old(self).spawn_props,
                col0 == self.collision.entries(),
                res_view(*self).slots.len() == n as int,
                resolve_from(col0, res_view(*self), s as int) == total,
                total == resolve_from(col0, res_view(*old(self)), 0),
            decreases n - s,
        {
            let ghost pre = res_view(*self);
            if let Some(id) = self.entities.id_at(s) {
                let evopt = self.events.get(id);
                if let Some(ev0) = evopt {
                    let ev = *ev0;
                    self.events.remove(id);
                    let ghost st1 = ResView { events: seq_remove(pre.events, id), ..pre };
                    proof {
                        assert(res_view(*self) =~= st1);
                    }
                    let acolopt = self.collision.get(id);
                    if let Some(acol0) = acolopt {
                        let acol = *acol0;
                        let ob = ev.other;
                        let b_alive: bool = if ob.index < n {
                            match self.entities.id_at(ob.index) {
                                Some(bid) => bid.generation == ob.generation,
                                None => false,
                            }
                        } else {
                            false
                        };
                        if b_alive {
                            let bcolopt = self.collision.get(ob);
                            if let Some(bcol0) = bcolopt {
                                let bcol = *bcol0;
                                match (acol.my_collision_type, bcol.my_collision_type) {
                                    (EntityType::Enemy, EntityType::Wall) => {
                                        self.do_correct_position(
                                            id,
                                            ev.vec_to_other,
                                            ev.contact.dist,
                                        );
                                    },
                                    (EntityType::EnemyBullet, EntityType::Player) => {
                                        self.do_delete(id);
                                    },
                                    (EntityType::EnemyBullet, EntityType::Wall) => {
                                        self.do_delete(id);
                                    },
                                    (EntityType::Player, EntityType::Wall) => {
                                        let dpt = Vec2 {
                                            x: ev.contact.point1.x - ev.contact.point2.x,
                                            y: ev.contact.point1.y - ev.contact.point2.y,
                                        };
                                        let off = normalize(dpt);
                                        self.do_correct_position(id, off, ev.contact.dist);
                                    },
                                    (EntityType::PlayerBullet, EntityType::Wall) => {
                                        self.do_delete(id);
                                    },
                                    (EntityType::Wall, EntityType::Wall) => {
                                        proof {
                                            assert(resolve_step(col0, pre, s as int) is Err);
                                        }
                                        return Err(SimError::WallWallContact);
                                    },
                                    _ => {
                                        proof {
                                            assert(apply_reaction(
                                                st1,
                                                id,
                                                acol.my_collision_type,
                                                bcol.my_collision_type,
                                                ev,
                                            ) == Ok::<ResView, ()>(st1));
                                        }
                                    },
                                }
                            }
                        }
                    }
                }
            }
            proof {
                assert(resolve_step(col0, pre, s as int) == Ok::<ResView, ()>(res_view(*self)));
                assert(resolve_from(col0, pre, s as int) == resolve_from(
                    col0,
                    res_view(*self),
                    s + 1,
                ));
            }
            s = s + 1;
        }
        Ok(())
    }
}

/// Law: resolving an enemy-bullet-against-wall contact always deletes the
/// bullet entity and leaves every kinematic record, including the wall's,
/// untouched; no other entity's slot changes.
pub proof fn lemma_enemy_bullet_wall(st: ResView, a: Index, b: Index, ev: CollisionResData)
    requires
        0 <= (a.index as int) < st.slots.len(),
        0 <= (b.index as int) < st.slots.len(),
        b.index != a.index,
    ensures
        apply_reaction(st, a, EntityType::EnemyBullet, EntityType::Wall, ev) matches Ok(st2)
            && st2.physics == st.physics && st2.events == st.events && !st2.slots[a.index as int].1
            && st2.slots[b.index as int] == st.slots[b.index as int] && (forall|i: int|
            0 <= i < st.slots.len() && i != a.index ==> st2.slots[i] == st.slots[i]),
{
}

/// Law: resolving a player-against-wall contact never deletes either
/// entity — the slots and events are untouched; only kinematics move.
pub proof fn lemma_player_wall_no_delete(st: ResView, a: Index, ev: CollisionResData)
    ensures
        apply_reaction(st, a, EntityType::Player, EntityType::Wall, ev) matches Ok(st2)
            && st2.slots == st.slots && st2.events == st.events,
{
}

/// Law: a rectangular body truly interpenetrating a rectangular wall, when
/// pushed back the way the resolution engine pushes the player (along the
/// witness-point axis by the penetration depth), ends exactly touching: the
/// interpenetration measured by the next contact check strictly decreases
/// to zero. Stated away from the world-bounds fringe, where clamping would
/// cut the correction short.
pub proof fn lemma_player_wall_depenetrates(p: Physics, q: Physics, ev: CollisionResData)
    requires
        p.shape matches Shape::Rectangle { width: aw, height: ah } && aw <= 500_000_000u32 && ah
            <= 500_000_000u32,
        q.shape matches Shape::Rectangle { width: bw, height: bh } && bw <= 500_000_000u32 && bh
            <= 500_000_000u32,
        -500_000_000 <= p.world_space_position.x <= 500_000_000,
        -500_000_000 <= p.world_space_position.y <= 500_000_000,
        -500_000_000 <= q.world_space_position.x <= 500_000_000,
        -500_000_000 <= q.world_space_position.y <= 500_000_000,
        ev.contact == contact_raw(p.shape, p.world_space_position, q.shape, q.world_space_position),
        ev.contact.dist < 0,
    ensures
        ({
            let p2 = moved_by(p, player_wall_offset(ev), ev.contact.dist);
            let c2 = contact_raw(p.shape, p2.world_space_position, q.shape, q.world_space_position);
            c2.dist == 0 && c2.dist > ev.contact.dist
        }),
{
    let pa = p.world_space_position;
    let pb = q.world_space_position;
    let aw = p.shape->Rectangle_width;
    let ah = p.shape->Rectangle_height;
    let bw = q.shape->Rectangle_width;
    let bh = q.shape->Rectangle_height;
    let ax = (aw / 2) as int;
    let ay = (ah / 2) as int;
    let bx = (bw / 2) as int;
    let by = (bh / 2) as int;
    let c = rect_rect_raw(pa, ax, ay, pb, bx, by);
    let dx = pb.x - pa.x;
    let dy = pb.y - pa.y;
    let gx = iabs(dx) - (ax + bx);
    let gy = iabs(dy) - (ay + by);
    assert(c == ev.contact);
    if gx >= 0 && gy >= 0 {
        let n = gx * gx + gy * gy;
        assert(n >= 0 && (gx + gy + 1) * (gx + gy + 1) > n) by (nonlinear_arith)
            requires
                gx >= 0,
                gy >= 0,
                n == gx * gx + gy * gy,
        ;
        lemma_sqrt_floor_exists(n);
        let rt = sqrt_floor(n);
        if rt > gx + gy {
            assert(rt * rt >= (gx + gy + 1) * (gx + gy + 1)) by (nonlinear_arith)
                requires
                    0 <= gx + gy + 1 <= rt,
            ;
        }
        assert(false);
    }
    let m = iabs(c.dist as int);
    let off = player_wall_offset(ev);
    let p2 = moved_by(p, off, ev.contact.dist);
    if gy < 0 && gx >= gy {
        // contact across the x faces: the witness points differ by the
        // penetration depth along x, so the offset is the x axis
        assert(m == -gx && m >= 1);
        if dx >= 0 {
            let sx = isign(dx);
            assert(sx == 1);
            assert(sx * ax == ax && sx * bx == bx && sx * UNIT == UNIT as int) by (nonlinear_arith)
                requires
                    sx == 1,
            ;
            assert(c.point1.x == pa.x + ax && c.point2.x == pb.x - bx);
            assert(c.point1.x - c.point2.x == m);
            assert(c.point1.y == c.point2.y);
            lemma_normalize_axis(Vec2 { x: m as i64, y: 0 });
            assert(off == (Vec2 { x: UNIT, y: 0 }));
            lemma_div_by_multiple(m, UNIT as int);
            assert(off.x * m == m * (UNIT as int)) by (nonlinear_arith)
                requires
                    off.x == UNIT as int,
            ;
            assert(off.y * m == 0) by (nonlinear_arith)
                requires
                    off.y == 0,
            ;
            assert(div_trunc(off.x * m, UNIT as int) == m);
            assert(div_trunc(off.y * m, UNIT as int) == 0);
            assert(p2.world_space_position.x == pa.x - m);
            assert(p2.world_space_position.y == pa.y);
            let dx2 = pb.x - p2.world_space_position.x;
            assert(iabs(dx2) - (ax + bx) == 0);
        } else {
            let sx = isign(dx);
            assert(sx == -1);
            assert(sx * ax == -ax && sx * bx == -bx && sx * UNIT == -(UNIT as int))
                by (nonlinear_arith)
                requires
                    sx == -1,
            ;
            assert(c.point1.x == pa.x - ax && c.point2.x == pb.x + bx);
            assert(c.point1.x - c.point2.x == -m);
            assert(c.point1.y == c.point2.y);
            lemma_normalize_axis(Vec2 { x: (-m) as i64, y: 0 });
            assert(off == (Vec2 { x: (-UNIT) as i64, y: 0 }));
            lemma_div_by_multiple(m, UNIT as int);
            assert(off.x * m == -(m * (UNIT as int))) by (nonlinear_arith)
                requires
                    off.x == -(UNIT as int),
            ;
            assert(off.y * m == 0) by (nonlinear_arith)
                requires
                    off.y == 0,
            ;
            assert(div_trunc(off.x * m, UNIT as int) == -m);
            assert(div_trunc(off.y * m, UNIT as int) == 0);
            assert(p2.world_space_position.x == pa.x + m);
            assert(p2.world_space_position.y == pa.y);
            let dx2 = pb.x - p2.world_space_position.x;
            assert(iabs(dx2) - (ax + bx) == 0);
        }
    } else {
        // contact across the y faces
        assert(gx < 0);
        assert(c.dist == gy as i64);
        assert(m == -gy && m >= 1);
        if dy >= 0 {
            let sy = isign(dy);
            assert(sy == 1);
            assert(sy * ay == ay && sy * by == by && sy * UNIT == UNIT as int) by (nonlinear_arith)
                requires
                    sy == 1,
            ;
            assert(c.point1.y == pa.y + ay && c.point2.y == pb.y - by);
            assert(c.point1.y - c.point2.y == m);
            assert(c.point1.x == c.point2.x);
            lemma_normalize_axis_y(Vec2 { x: 0, y: m as i64 });
            assert(off == (Vec2 { x: 0, y: UNIT }));
            lemma_div_by_multiple(m, UNIT as int);
            assert(off.y * m == m * (UNIT as int)) by (nonlinear_arith)
                requires
                    off.y == UNIT as int,
            ;
            assert(off.x * m == 0) by (nonlinear_arith)
                requires
                    off.x == 0,
            ;
            assert(div_trunc(off.y * m, UNIT as int) == m);
            assert(div_trunc(off.x * m, UNIT as int) == 0);
            assert(p2.world_space_position.y == pa.y - m);
            assert(p2.world_space_position.x == pa.x);
            let dy2 = pb.y - p2.world_space_position.y;
            assert(iabs(dy2) - (ay + by) == 0);
        } else {
            let sy = isign(dy);
            assert(sy == -1);
            assert(sy * ay == -ay && sy * by == -by && sy * UNIT == -(UNIT as int))
                by (nonlinear_arith)
                requires
                    sy == -1,
            ;
            assert(c.point1.y == pa.y - ay && c.point2.y == pb.y + by);
            assert(c.point1.y - c.point2.y == -m);
            assert(c.point1.x == c.point2.x);
            lemma_normalize_axis_y(Vec2 { x: 0, y: (-m) as i64 });
            assert(off == (Vec2 { x: 0, y: (-UNIT) as i64 }));
            lemma_div_by_multiple(m, UNIT as int);
            assert(off.y * m == -(m * (UNIT as int))) by (nonlinear_arith)
                requires
                    off.y == -(UNIT as int),
            ;
            assert(off.x * m == 0) by (nonlinear_arith)
                requires
                    off.x == 0,
            ;
            assert(div_trunc(off.y * m, UNIT as int) == -m);
            assert(div_trunc(off.x * m, UNIT as int) == 0);
            assert(p2.world_space_position.y == pa.y + m);
            assert(p2.world_space_position.x == pa.x);
            let dy2 = pb.y - p2.world_space_position.y;
            assert(iabs(dy2) - (ay + by) == 0);
        }
    }
}

} // verus!
