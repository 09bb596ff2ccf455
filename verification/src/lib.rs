//! The systems that update and draw a small two-dimensional game, with
//! their contracts proved.
//!
//! A [`stage::Stage`] holds the entities and their components. Each tick the
//! events of the input are mapped to at most one movement command
//! ([`input`]), the command sets the velocity of the controlled entities
//! ([`keyboard`]), the entities move ([`physics`]), the moving ones walk
//! through their frames ([`animator`]), and the frame to draw is composed
//! ([`renderer`]). [`tick`] runs the first four in that order. Each kind of
//! component has one system that writes it; the others only read it.

pub mod animator;
pub mod components;
pub mod geometry;
pub mod input;
pub mod keyboard;
pub mod physics;
pub mod renderer;
pub mod stage;
pub mod tick;
