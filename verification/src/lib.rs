//! Naval gunnery simulation: exterior ballistics, armor-mesh ray
//! intersection, and armor-penetration resolution, over fixed-point
//! integer arithmetic.

pub mod fixed;
pub mod geometry;
pub mod rng;
pub mod ballistics;
pub mod gun;
pub mod ship;
pub mod sim;
pub mod shiplist;
pub mod download;
pub mod series;
