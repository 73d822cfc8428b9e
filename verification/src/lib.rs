//! A verified core for a small 2D rigid-body simulation: a generational
//! entity arena, per-kind component tables, all-pairs collision detection
//! with exact integer contact geometry, and a type-keyed resolution engine.
//!
//! Geometry is carried in plain integer world units; direction vectors are
//! fixed-point with `UNIT` (1000) standing for length one.

pub mod arena;
pub mod components;
pub mod contact;
pub mod geom;
pub mod input;
pub mod movement;
pub mod narrow;
pub mod render;
pub mod resolve;
pub mod system;
pub mod table;
pub mod tick;
pub mod world;
pub mod world_objects;

pub use arena::GenVec;
pub use arena::Index;
pub use components::CollisionComp;
pub use components::Color;
pub use components::DrawableComp;
pub use components::EntityType;
pub use components::HealthComp;
pub use components::Mass;
pub use components::Physics;
pub use components::Shape;
pub use components::SpawnInformation;
pub use components::SpawnProperties_comp;
pub use components::TypeMask;
pub use contact::CollisionResData;
pub use contact::Contact;
pub use geom::Vec2;
pub use input::InputEvent;
pub use input::Key;
pub use input::KeyboardHandling;
pub use input::PressedKeys;
pub use system::System;
pub use system::SystemType;
pub use world::SimError;
pub use world::World;
pub use world_objects::create_player;
pub use world_objects::create_rect;
