//! The order logic of a path tracer: bounding boxes, the bounding-volume
//! hierarchy, nearest-hit search, pivoting, and the decisions of scattering and
//! of the integrator, over doubles held as ranks.
pub mod algebra;
pub mod background;
pub mod color;
pub mod emittable;
pub mod hittable;
pub mod integrator;
pub mod material;
pub mod opt;
pub mod output;
pub mod pdf;
pub mod random;
pub mod scalar;
pub mod texture;
pub mod vec3;

pub use color::Color;
pub use emittable::EmittableEnum;
pub use hittable::{Aabb, BvhNode, HitRecord, HittableList};
pub use material::Material;
pub use opt::Opt;
pub use random::Random;
pub use scalar::Scalar;
pub use vec3::{Onb, Point3, Vec3};
