//! Scene model and frame composition for a small grid-based roguelike.
//!
//! The crate turns a tile map, a roster of entities and a glyph atlas into an
//! ordered list of draw commands. Nothing here touches a window or a font
//! file: a front end renders the font strip, walks the command list and
//! issues each command to its display surface.
//!
//! - [`map_generator`] lays out the walled map.
//! - [`entity`] holds the entities and the roster that owns them.
//! - [`atlas`] maps each glyph to its slice of the rendered font strip.
//! - [`health`] measures the health bar.
//! - [`render`] composes a frame from all of these, pass by pass.
//! - [`scene`] is the game's own scene and its frame.
//! - [`geometry`], [`color`] and [`tile`] hold the plain data they share.
//!
//! Grid positions are `(row, col)` pairs throughout: the cell at `(r, c)` is
//! drawn `c` cell widths from the left and `r` cell heights from the top.

pub mod atlas;
pub mod color;
pub mod entity;
pub mod geometry;
pub mod health;
pub mod map_generator;
pub mod render;
pub mod scene;
pub mod tile;
