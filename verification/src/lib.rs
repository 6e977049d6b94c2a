//! Verified core of a small maze ray caster: the pixel framebuffer and its
//! drawing primitives, maze parsing and cell lookup, procedural texture
//! layouts, the minimap overlay and the screen state machine that drives a
//! play session.

pub mod framebuffer;
pub mod maze;
pub mod texture;
pub mod minimap;
pub mod game;
pub mod screens;
