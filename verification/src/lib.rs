//! Axis-aligned geometry on an exact fixed-point grid, and a world of
//! rectangular rooms that grows as it is explored.
//!
//! Every coordinate is an integer count of grid steps, `UNIT` steps to one
//! world unit, so that comparisons, cuts and push-out vectors are exact.

pub mod vector;
pub mod ray;
pub mod rectangle;
pub mod bounding_box;
pub mod room;
pub mod world;
pub mod particle;
pub mod player;
pub mod stopwatch;
pub mod game;
