//! The component records stored per entity: kinematic state, collision
//! masks, drawing data, health and pending-spawn data.

use vstd::prelude::*;

verus! {

use crate::geom::DIM_LIMIT;
use crate::geom::POS_LIMIT;
use crate::geom::SPEED_LIMIT;
use crate::geom::UNIT;
use crate::geom::Vec2;

/// Half of `DIM_LIMIT`: bound on a shape's extent from its center.
pub const HALF_DIM: u32 = 500_000_000;

/// The closed universe of entity kinds the collision rules speak of. Each
/// kind owns one bit, so a mask can name any subset.
#[derive(Clone, Copy, PartialEq, Eq, Structural, Debug)]
pub enum EntityType {
    Enemy,
    EnemyBullet,
    Player,
    PlayerBullet,
    Wall,
}

impl EntityType {
    /// The single bit standing for this kind.
    pub open spec fn spec_bit(self) -> u32 {
        match self {
            EntityType::Enemy => 1u32,
            EntityType::EnemyBullet => 2u32,
            EntityType::Player => 4u32,
            EntityType::PlayerBullet => 8u32,
            EntityType::Wall => 16u32,
        }
    }

    /// The single bit standing for this kind.
    #[verifier::when_used_as_spec(spec_bit)]
    pub fn bit(self) -> (b: u32)
        ensures
            b == self.spec_bit(),
    {
        match self {
            EntityType::Enemy => 1,
            EntityType::EnemyBullet => 2,
            EntityType::Player => 4,
            EntityType::PlayerBullet => 8,
            EntityType::Wall => 16,
        }
    }
}

/// A set of entity kinds, as the union of their bits.
#[derive(Clone, Copy, PartialEq, Eq, Structural, Debug)]
pub struct TypeMask {
    pub bits: u32,
}

impl TypeMask {
    /// Whether the mask names kind `t`.
    pub open spec fn spec_contains(self, t: EntityType) -> bool {
        self.bits & t.spec_bit() != 0
    }

    /// The empty mask.
    pub fn none() -> (m: Self)
        ensures
            forall|t: EntityType| !m.spec_contains(t),
    {
        let m = TypeMask { bits: 0 };
        proof {
            assert forall|t: EntityType| !m.spec_contains(t) by {
                assert(0u32 & t.spec_bit() == 0) by (bit_vector);
            }
        }
        m
    }

    /// The mask naming every kind.
    pub fn all() -> (m: Self)
        ensures
            forall|t: EntityType| m.spec_contains(t),
    {
        let m = TypeMask { bits: 31 };
        proof {
            assert forall|t: EntityType| m.spec_contains(t) by {
                let b = t.spec_bit();
                assert(31u32 & b != 0) by (bit_vector)
                    requires
                        b == 1u32 || b == 2u32 || b == 4u32 || b == 8u32 || b == 16u32,
                ;
            }
        }
        m
    }

    /// The mask naming exactly `t`.
    pub fn single(t: EntityType) -> (m: Self)
        ensures
            m.bits == t.spec_bit(),
            m.spec_contains(t),
            forall|u: EntityType| u != t ==> !m.spec_contains(u),
    {
        let m = TypeMask { bits: t.bit() };
        proof {
            let b = t.spec_bit();
            assert(b & b != 0) by (bit_vector)
                requires
                    b == 1u32 || b == 2u32 || b == 4u32 || b == 8u32 || b == 16u32,
            ;
            assert forall|u: EntityType| u != t implies !m.spec_contains(u) by {
                let c = u.spec_bit();
                assert(b & c == 0) by (bit_vector)
                    requires
                        b == 1u32 || b == 2u32 || b == 4u32 || b == 8u32 || b == 16u32,
                        c == 1u32 || c == 2u32 || c == 4u32 || c == 8u32 || c == 16u32,
                        b != c,
                ;
            }
        }
        m
    }

    /// This mask with kind `t` added.
    pub fn with(self, t: EntityType) -> (m: Self)
        ensures
            m.spec_contains(t),
            forall|u: EntityType| self.spec_contains(u) ==> m.spec_contains(u),
            forall|u: EntityType| u != t && !self.spec_contains(u) ==> !m.spec_contains(u),
    {
        let m = TypeMask { bits: self.bits | t.bit() };
        proof {
            let s = self.bits;
            let b = t.spec_bit();
            assert((s | b) & b != 0) by (bit_vector)
                requires
                    b == 1u32 || b == 2u32 || b == 4u32 || b == 8u32 || b == 16u32,
            ;
            assert forall|u: EntityType| self.spec_contains(u) implies m.spec_contains(u) by {
                let c = u.spec_bit();
                assert((s | b) & c != 0) by (bit_vector)
                    requires
                        s & c != 0,
                ;
            }
            assert forall|u: EntityType| u != t && !self.spec_contains(u) implies !m.spec_contains(
                u,
            ) by {
                let c = u.spec_bit();
                assert(b & c == 0) by (bit_vector)
                    requires
                        b == 1u32 || b == 2u32 || b == 4u32 || b == 8u32 || b == 16u32,
                        c == 1u32 || c == 2u32 || c == 4u32 || c == 8u32 || c == 16u32,
                        b != c,
                ;
                assert((s | b) & c == 0) by (bit_vector)
                    requires
                        s & c == 0,
                        b & c == 0,
                ;
            }
        }
        m
    }

    /// Whether the mask names kind `t`; the broad-phase filter test.
    pub fn intersects(self, t: EntityType) -> (r: bool)
        ensures
            r == self.spec_contains(t),
    {
        self.bits & t.bit() != 0
    }
}

/// Which kinds this entity reacts to, and which single kind it is.
#[derive(Clone, Copy, PartialEq, Eq, Structural, Debug)]
pub struct CollisionComp {
    pub collides_with: TypeMask,
    pub my_collision_type: EntityType,
}

/// The closed set of collision shapes, dispatched by pattern match so no
/// "unknown shape" case can reach the geometry.
#[derive(Clone, Copy, PartialEq, Eq, Structural, Debug)]
pub enum Shape {
    Rectangle { width: u32, height: u32 },
    Circle { radius: u32 },
}

impl Shape {
    /// Dimension bounds under which contact arithmetic cannot overflow.
    pub open spec fn wf(self) -> bool {
        match self {
            Shape::Rectangle { width, height } => width <= DIM_LIMIT && height <= DIM_LIMIT,
            Shape::Circle { radius } => radius <= HALF_DIM,
        }
    }
}

/// A body's mass; `Infinite` marks an immovable body such as a wall.
#[derive(Clone, Copy, PartialEq, Eq, Structural, Debug)]
pub enum Mass {
    /// Thousandths of a mass unit.
    Finite(u32),
    Infinite,
}

/// Kinematic state: where a body is, which way it points, how fast it
/// moves, how heavy it is and what shape bounds it.
#[derive(Clone, Copy, PartialEq, Eq, Structural, Debug)]
pub struct Physics {
    /// World position of the shape's center, in plain world units.
    pub world_space_position: Vec2,
    /// Fixed-point direction; `UNIT` on one axis is a unit vector. It may
    /// be zero for a body that is not moving anywhere.
    pub direction: Vec2,
    /// Scalar speed in world units per second.
    pub speed: u32,
    pub mass: Mass,
    pub shape: Shape,
}

impl Physics {
    /// Bounds under which one tick of integration and contact arithmetic
    /// stays in range.
    pub open spec fn wf(self) -> bool {
        &&& -POS_LIMIT <= self.world_space_position.x <= POS_LIMIT
        &&& -POS_LIMIT <= self.world_space_position.y <= POS_LIMIT
        &&& -UNIT <= self.direction.x <= UNIT
        &&& -UNIT <= self.direction.y <= UNIT
        &&& self.speed <= SPEED_LIMIT
        &&& self.shape.wf()
    }
}

/// An R8G8B8A8 color for the drawing collaborator.
#[derive(Clone, Copy, PartialEq, Eq, Structural, Debug)]
pub struct Color {
    pub r: u8,
    pub g: u8,
    pub b: u8,
    pub a: u8,
}

impl Color {
    /// An opaque color from its three channels.
    pub fn rgb(r: u8, g: u8, b: u8) -> (c: Self)
        ensures
            c == (Color { r, g, b, a: 255u8 }),
    {
        Color { r, g, b, a: 255 }
    }
}

/// What the renderer needs to know about an entity.
#[derive(Clone, Copy, PartialEq, Eq, Structural, Debug)]
pub struct DrawableComp {
    pub shape: Shape,
    pub color: Color,
}

/// Hit points of a damageable entity.
#[derive(Clone, Copy, PartialEq, Eq, Structural, Debug)]
pub struct HealthComp {
    health: i32,
}

impl HealthComp {
    pub fn new(health: i32) -> (h: Self)
        ensures
            h.spec_health() == health,
    {
        HealthComp { health }
    }

    pub closed spec fn spec_health(self) -> i32 {
        self.health
    }

    pub fn health(&self) -> (h: i32)
        ensures
            h == self.spec_health(),
    {
        self.health
    }
}

/// Everything the spawner needs to create an entity at the next barrier
/// between ticks.
#[derive(Clone, Copy, PartialEq, Eq, Structural, Debug)]
pub struct SpawnInformation {
    pub entity_type: EntityType,
    pub physics: Option<Physics>,
    pub color: Option<Color>,
}

/// Component queueing a pending spawn on a fresh entity.
#[allow(non_camel_case_types)]
#[derive(Clone, Copy, PartialEq, Eq, Structural, Debug)]
pub struct SpawnProperties_comp {
    pub info: SpawnInformation,
}

impl SpawnProperties_comp {
    pub fn new(info: SpawnInformation) -> (s: Self)
        ensures
            s.info == info,
    {
        Self { info }
    }
}

} // verus!
