//! The core of a path tracer for scenes of spheres, in fixed-point
//! arithmetic: rays and their intersections with spheres, the materials that
//! scatter them, and the colour that arrives along a ray.

pub mod accuracy;
pub mod bounds;
pub mod camera;
pub mod hit_record;
pub mod hittable;
pub mod incidence;
pub mod hittable_list;
pub mod material;
pub mod random;
pub mod ray;
pub mod render;
pub mod scalar;
pub mod sphere;
pub mod sqrt;
pub mod vec3;

pub use camera::Camera;
pub use hit_record::HitRecord;
pub use hittable::Hittable;
pub use hittable_list::HittableList;
pub use material::{scatter, scatter_with, Material, Sample};
pub use random::{_random_double, random_in_unit_sphere};
pub use ray::Ray;
pub use render::{clamp, hit_sphere, pixel_rgb, ray_color, ray_color_with};
pub use scalar::Scalar;
pub use sphere::Sphere;
pub use vec3::Vec3;
