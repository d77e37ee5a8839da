//! Span-band geometry: builds the closed vertex loops that join consecutive
//! band descriptors into trapezoidal "stitch" polygons, plus the vertical
//! mirror applied before display.

pub mod geometry;
pub mod state;
