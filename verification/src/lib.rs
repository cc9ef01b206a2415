//! A grid-based first-person raycasting renderer on integer arithmetic.
//!
//! The renderer turns a tile grid, a camera and a set of point sprites
//! into a first-person view, a top-down view and a minimap, drawn into a
//! pixel surface that the caller owns.
//!
//! Nothing here computes in floating point. Positions are fixed-point
//! numbers with `trig::ONE` steps to the world unit. Angles count the
//! steps of a sine table that the caller hands in: `trig::TrigTable`
//! checks that table once, and every sine, cosine and bearing is read
//! from it.
//!
//! Every function states what it draws as a value of `canvas::Canvas`,
//! the model of a surface, and `laws` holds what follows for the renderer
//! as a whole.

pub mod canvas;
pub mod caster;
pub mod color;
pub mod effects;
pub mod framebuffer;
pub mod game;
pub mod key;
pub mod laws;
pub mod line;
pub mod math;
pub mod maze;
pub mod minimap;
pub mod player;
pub mod render;
pub mod screen;
pub mod sprite;
pub mod text;
pub mod textures;
pub mod topdown;
pub mod trig;
pub mod ui;
