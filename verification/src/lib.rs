//! An entity-component data store paired with a text-layout engine.
//!
//! The crate has three parts:
//! - [`ecs`]: a `World` that stores one column of optional component values
//!   per component kind, all columns kept in lock-step with the entity count;
//! - [`layout`]: a pure paragraph-layout function that turns a run of shaped
//!   glyphs into baseline placements, with line wrapping and kerning;
//! - [`quads`]: a mapper from placed glyphs and atlas rectangles to
//!   normalized-device-coordinate quads, two triangles per glyph.
//!
//! All pixel geometry is integer valued: a host that works in fractional
//! pixels chooses a fixed-point unit (say 1/64 pixel) and scales on the way
//! in and out.
#![verifier::loop_isolation(false)]

pub mod ecs;
pub mod layout;
pub mod quads;
pub mod text;
pub mod transform;
