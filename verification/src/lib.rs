//! Frame-geometry and image-transform core of a sprite-flipbook packer.
//!
//! The library turns an ordered set of RGBA frame images, or a single
//! rows-by-columns grid sheet, into one fixed 1024x1024 packed atlas, or back
//! into individual full-resolution frame images.  All geometry (tier
//! selection, aspect-preserving sizing, grid addressing, centering) is
//! verified; the two resampling and compositing primitives of the `image`
//! crate are called through trusted wrappers.

pub mod composer;
pub mod exporter;
pub mod frame;
pub mod naming;
pub mod resize;
pub mod sequence;
pub mod slicer;
pub mod tier;
