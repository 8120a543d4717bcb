//! Gameplay simulation core: gesture recognition, the spell stack machine,
//! cave generation, damage and status effects, and the bridge between
//! entities and the physics store.

pub mod controls;
pub mod hex;
pub mod world;
pub mod spells;
pub mod pattern;
pub mod casting;
pub mod procgen;
pub mod physics;
pub mod damage;
pub mod dazing;
pub mod timers;
pub mod systems;
