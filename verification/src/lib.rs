//! Decoding of a QR symbol from a luminance raster.
//!
//! The pipeline runs one way. `img` thresholds pixels and votes on modules,
//! `rle` run-length encodes a scan, `finder` locates the three finder
//! patterns by their run-length signature, `timing` counts the modules along
//! a timing pattern, `grid` and `qr` hold the located symbol, `alignment`
//! finds its alignment patterns, `regions` walks its timing and format
//! modules, `traversal` walks its data modules in zig-zag order, `mask`
//! removes the mask, `bytes` assembles the bits into bytes and `decode` puts
//! the stages together. `walk_laws` states what holds of every walk.
//!
//! Coordinates that fall between pixels are kept as whole numbers of half or
//! quarter pixels; the library holds no floating-point number.

pub mod alignment;
pub mod bytes;
pub mod decode;
pub mod error;
pub mod finder;
pub mod grid;
pub mod img;
pub mod mask;
pub mod qr;
pub mod regions;
pub mod rle;
pub mod timing;
pub mod traversal;
pub mod util;
pub mod walk_laws;
