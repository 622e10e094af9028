//! Integer and decision logic of a small path tracer: image geometry and
//! scan order, PPM text encoding, ray/sphere root selection, closest-hit
//! search over a scene, and the depth-bounded control of the integrator.
pub mod image;
pub mod sphere;
pub mod hittable_list;
pub mod color;
pub mod integrator;
pub mod material;
