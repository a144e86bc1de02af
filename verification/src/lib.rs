//! Rendering and collision core for small 2D tile-based games: a pixel
//! framebuffer compositor, a tile-map/sprite drawing pipeline, and an
//! axis-aligned collision/restitution engine.

pub mod animation;
pub mod collision;
pub mod health;
pub mod screen;
pub mod shared;
pub mod sprite;
pub mod texture;
pub mod tiles;
pub mod types;
