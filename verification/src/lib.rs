//! The simulation core of a two-dimensional platformer.
//!
//! Each tick the core turns the inputs of the actors and what the physics
//! service found around them into their state: whether they stand or fall,
//! how fast they move and which way they face. It lets actors pick each
//! other up and carry each other, lays squash and stretch over their
//! sprites, and, once for each level, merges the wall tiles of the level
//! into a few collision rectangles.
//!
//! Nothing here reads a device, a file or a clock. What comes from outside is
//! handed in as plain values, and what is to happen outside is handed back.
//!
//! Quantities are whole numbers. Lengths, speeds, accelerations and scale
//! factors count thousandths of a unit, times count microseconds; see
//! [`fixed`]. Entities are known by their place in a [`scene::Scene`].

pub mod actions;
pub mod actor;
pub mod camera;
pub mod carry;
pub mod door;
pub mod fields;
pub mod fixed;
pub mod pickup;
pub mod player;
pub mod scene;
pub mod sprite_anim;
pub mod squash;
pub mod tick;
pub mod world;
