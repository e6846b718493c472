//! Rules of a small herding game: loose animals are picked up by the animals
//! under the player's control, led to a party zone and counted there, while a
//! kill boundary sends strays back to where they started.
//!
//! The crate holds the rules only. Rendering, physics, input devices and scene
//! files belong to the program around it, which feeds the rules with contacts
//! and signals and carries out the effects they return.

pub mod contact;
pub mod effect;
pub mod entity;
pub mod flow;
pub mod game;
pub mod herd;
pub mod input;
pub mod laws;
pub mod lifecycle;
pub mod model;
pub mod roster;
pub mod scene;
pub mod text;
pub mod world;
