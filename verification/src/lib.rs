//! A small 3D tuple-algebra and raster-canvas library.
//!
//! Coordinates and color channels are fixed-point values: a signed count of
//! units, `tuple::SCALE` of which make one whole. Every operation carries an
//! exact contract over that integer model, so the arithmetic, the canvas
//! bookkeeping and the plain-text pixmap export are all verified.

pub mod canvas;
pub mod sim;
pub mod tuple;
