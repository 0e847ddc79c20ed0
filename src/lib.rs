//! A fixed-point simulation core for an Asteroids-style arcade game: a ship
//! that rotates, thrusts and fires, asteroids that drift and split, a toroidal
//! play field and a full reset when the ship is hit.
//!
//! All lengths are in millionths of a screen unit, so that the physics runs
//! on integers and every step of it is proved.

pub mod vector;
pub mod entity;
pub mod bounds;
pub mod input;
pub mod chance;
pub mod world;
pub mod laws;
