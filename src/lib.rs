//! Pairwise intersection testing of axis-aligned rectangles, on exact integer geometry.
//!
//! Points have `i32` coordinates, displacement vectors `i64` components, and cross products
//! are computed in `i128`, so every quantity is exact: the parallel test compares an exact
//! cross product with zero, and the crossing parameter is compared with `[0, 1]` as a
//! fraction, without division or square roots.
pub mod geometry;
pub mod polygon;
pub mod scan;
pub mod segment;
