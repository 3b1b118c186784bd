//! A typed component store and a game that is built on it.
//!
//! `engine` is the store: components of many types attached to entity
//! identifiers and to grid positions, one ordered storage for each kind of
//! identifier and type of component, reference wrappers that bind one
//! identifier to the store, and attributes that are aggregated over the
//! components of an identifier.
//!
//! `game` is a small game of exploration on such a store: the map and how
//! it is made, what lies and lives on it, what the player sees, and the
//! turns that the player and the others take.

pub mod engine;
pub mod game;
