//! A small software renderer over fixed-point numbers.
//!
//! A scene of 3D polygons is brought into camera space, projected with a
//! perspective divide onto the screen and filled, triangle by triangle, into
//! a row-major buffer of packed RGB pixels. Every number is a Q16.16
//! fixed-point value, so each step is exact integer arithmetic with a
//! stated result.

pub mod fixed;
pub mod vector;
pub mod color;
pub mod raster;
pub mod camera;
pub mod render;
