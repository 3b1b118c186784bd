//! The store itself: identifier kinds, per-type storages, the world traits and
//! the reference wrappers.

pub mod btree_storage;
pub mod geometry;
pub mod macros;
pub mod modifiers;
pub mod world;

pub use self::btree_storage::BTreeStorage;
pub use self::geometry::{
    Direction, Position, ALL_DIRECTIONS, DIAGONAL_DIRECTIONS, ORTHOGONAL_DIRECTIONS,
};
pub use self::world::{
    ActionError, ActionResult, Component, ComponentRef, ComponentStorage, EntityComponent,
    EntityMut, EntityRef, EntityStorage, Id, QueryResult, VisitComponentTypes,
    VisitComponentTypesMut, World,
};
