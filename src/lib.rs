//! Moving-body physics and tile-collision engine for a 2D platformer.
//!
//! World geometry is kept in integer world units, time steps in
//! milliseconds, speeds in units per second and accelerations in units per
//! second squared.
pub mod geometry;
pub mod aabb;
pub mod animator;
pub mod config;
pub mod map;
pub mod sweep;
pub mod moving_object;
pub mod collider;
pub mod camera;
pub mod character;
pub mod landing;
pub mod map_loader;
pub mod texture_loader;
pub mod textwriter;
