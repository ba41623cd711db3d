//! A ray-casting engine over fixed-point coordinates.
//!
//! Every length, coordinate and colour channel in this crate is a signed
//! integer counting thousandths of a unit, so that the geometry of the
//! renderer (ray/shape intersection, displacement resolution, hit scanning
//! and the frame pipeline) can be stated and proved exactly.

pub mod any_shape;
pub mod color;
pub mod element;
pub mod expr;
pub mod fixed;
pub mod gui;
pub mod light;
pub mod material;
pub mod pipeline;
pub mod plane;
pub mod projection;
pub mod ray;
pub mod rectangle;
pub mod render;
pub mod scene;
pub mod shape;
pub mod sphere;
pub mod texture;
pub mod vec2;
pub mod vec3;

pub use fixed::SCALE;
