//! Red/cyan-style stereo anaglyphs from a single photograph.
//!
//! One image is sampled twice per output byte, at two positions that lie a
//! requested number of pixels apart, and the two samples are blended through
//! a pair of filter colours.

pub mod blend;
pub mod buffer;
pub mod color;
pub mod compositor;
pub mod geometry;

pub use crate::buffer::PixelBuffer;
pub use crate::color::{Color, ColorPair, Coloring};
pub use crate::compositor::{compose, Anaglyph};
pub use crate::geometry::{Direction, GeometryError, ShiftGeometry};
