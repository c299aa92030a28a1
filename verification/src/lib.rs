//! A tile-world ray caster in 16.16 fixed-point arithmetic.
//!
//! The world is a square grid of tiles. A ray is cast by walking along the
//! gridlines that it crosses, the horizontal ones in one pass and the
//! vertical ones in another, until a tile is solid; a fan of rays across a
//! field of view gives the distances from which the first-person view is
//! drawn. The library computes in integers only: lengths and angles are
//! fixed-point numbers, and the trigonometry is a function that the caller
//! hands in. It draws nothing and reads nothing: a frame is a list of
//! shapes, a level file a slice of bytes.

pub mod fixed;
pub mod binary32;
pub mod world;
pub mod level;
pub mod my_ray;
pub mod laws;
pub mod render;
pub mod projection;
pub mod player;
pub mod state;
