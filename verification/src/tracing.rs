//! The tracing pipeline: rays, primitives, shapes, materials, patterns,
//! intersections, the world and the camera.

pub mod camera;
pub mod intersection;
pub mod material;
pub mod patterns;
pub mod point_light;
pub mod ray;
pub mod shapes;
pub mod world;
