//! Sprite-stack tile rendering core.
//!
//! A 2D tile map is drawn with the "sprite-stack" technique: every tile is a
//! vertical pile of thin slices, each slice offset along screen Y and keyed to
//! its own render pass, which makes a flat top-down map read as pseudo-3D
//! relief.  This crate holds the engine-independent core: the oblique grid
//! transform and its approximate inverse, the level-description data model,
//! the sprite-stack builder, row-major level instantiation, and the bootstrap
//! state machine that orders asset loading before instantiation.  The hosting
//! engine (windowing, asset decoding, entity storage, input devices) stays
//! outside and consumes the plain descriptors produced here.

pub mod boot;
pub mod grid;
pub mod level;
pub mod motion;
pub mod player;
pub mod stack;

use vstd::prelude::*;

verus! {

} // verus!
