//! A cook-and-serve kitchen simulation on fixed-point numbers.
//!
//! Every quantity (a position, a size, a duration, a cook level, a colour
//! component) is an `i64` that counts millionths: see [`fixed::ONE`].
pub mod board;
pub mod bread;
pub mod chance;
pub mod colour;
pub mod cookable;
pub mod customer;
pub mod entity;
pub mod fixed;
pub mod geometry;
pub mod hotplate;
pub mod ingredient;
pub mod kinds;
pub mod onion;
pub mod paint;
pub mod path;
pub mod queue;
pub mod scene;
pub mod scoring;
pub mod smoke;
pub mod squirt;
