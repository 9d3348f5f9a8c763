//! Verified core of a four-way traffic intersection: lane geometry, the
//! fair traffic-light controller, vehicle bookkeeping, sprite-sheet frame
//! selection, side-panel layout and raster spans for the drawing helpers.

pub mod controls;
pub mod drawing;
pub mod fairness;
pub mod geometry;
pub mod lights;
pub mod render;
pub mod sprites;
pub mod vehicle;
