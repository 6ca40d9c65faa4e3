//! Rasterizes axis-aligned rectangles and circles on an integer world plane
//! into a fixed-size character grid seen through a movable camera.
pub mod error;
pub mod renderer;
pub mod shape;
pub mod vector2;
