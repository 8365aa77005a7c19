//! Pairwise difference images for a folder of photographs.
//!
//! For each consecutive pair of images in a folder listing, the second
//! image's colour channels are inverted and the result is averaged 50/50
//! with the first image; the blend is written out as a PNG. This crate
//! holds the verified core: the pixel blend, the extension filter, the
//! sliding-window pairing and the output naming. Reading and writing
//! files is left to the surrounding program.

pub mod blend;
pub mod bytes;
pub mod codec;
pub mod diff;
pub mod names;
pub mod raster;
pub mod scan;
