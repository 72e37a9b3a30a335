//! The verified core of a small ray tracer: scalars read as IEEE-754
//! bit patterns, tuples and colors, matrix layouts, materials, bodies,
//! rays and hit selection, the scene graph and the pixel canvas.
pub mod error;
pub mod scalar;
pub mod tuple;
pub mod color;
pub mod matrix;
pub mod material;
pub mod light;
pub mod ray;
pub mod body;
pub mod intersection;
pub mod world;
pub mod canvas;
