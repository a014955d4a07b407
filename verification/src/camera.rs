//! The pinhole camera.

use vstd::prelude::*;
use crate::ray::Ray;
use crate::scalar::{sc, Scalar, ONE_RAW};
use crate::vec3::Vec3;

verus! {

/// A camera at the origin that looks along the negative z axis at a viewport
/// one unit away.
#[derive(Clone, Copy, Debug, PartialEq, Eq, Structural)]
pub struct Camera {
    pub origin: Vec3,
    pub lower_left_corner: Vec3,
    pub horizontal: Vec3,
    pub vertical: Vec3,
}

impl Camera {
    /// The camera whose viewport has the height `2 * half_height` and the
    /// width `aspect_ratio` times that: `horizontal` and `vertical` span the
    /// viewport, and `lower_left_corner` is
    /// `origin - horizontal / 2 - vertical / 2 - (0, 0, 1)`.
    pub open spec fn spec_new(half_height: Scalar, aspect_ratio: Scalar) -> Camera {
        let two = sc(2_000_000_000);
        let viewport_height = two.spec_mul(half_height);
        let viewport_width = aspect_ratio.spec_mul(viewport_height);
        let origin = Vec3 { x: sc(0), y: sc(0), z: sc(0) };
        let horizontal = Vec3 { x: viewport_width, y: sc(0), z: sc(0) };
        let vertical = Vec3 { x: sc(0), y: viewport_height, z: sc(0) };
        Camera {
            origin,
            lower_left_corner: origin.spec_sub(horizontal.spec_div(two)).spec_sub(
                vertical.spec_div(two),
            ).spec_sub(Vec3 { x: sc(0), y: sc(0), z: sc(ONE_RAW) }),
            horizontal,
            vertical,
        }
    }

    /// The ray from the camera through the point of the viewport at the
    /// share `u` of its width and the share `v` of its height.
    pub open spec fn spec_get_ray(self, u: Scalar, v: Scalar) -> Ray {
        Ray {
            origin: self.origin,
            direction: self.lower_left_corner.spec_add(self.horizontal.spec_scale(u)).spec_add(
                self.vertical.spec_scale(v),
            ).spec_sub(self.origin),
        }
    }

    /// The camera for a vertical field of view whose half has the tangent
    /// `half_height`, and for a viewport `aspect_ratio` times as wide as it
    /// is high.
    pub fn new(half_height: Scalar, aspect_ratio: Scalar) -> (camera: Camera)
        ensures
            camera == Camera::spec_new(half_height, aspect_ratio),
    {
        let zero = Scalar { raw: 0 };
        let two = Scalar { raw: 2_000_000_000 };
        let viewport_height = two * half_height;
        let viewport_width = aspect_ratio * viewport_height;
        let focal_length = Scalar { raw: ONE_RAW };
        let horizontal = Vec3::new(viewport_width, zero, zero);
        let origin = Vec3::new(zero, zero, zero);
        let vertical = Vec3::new(zero, viewport_height, zero);
        Camera {
            origin,
            horizontal,
            vertical,
            lower_left_corner: origin - horizontal / two - vertical / two - Vec3::new(
                zero,
                zero,
                focal_length,
            ),
        }
    }

    /// The ray through the point of the viewport at the share `u` of its
    /// width, from the left, and the share `v` of its height, from below.
    pub fn get_ray(&self, u: Scalar, v: Scalar) -> (r: Ray)
        ensures
            r == self.spec_get_ray(u, v),
    {
        Ray::new(
            self.origin,
            self.lower_left_corner + u * self.horizontal + v * self.vertical - self.origin,
        )
    }
}

} // verus!
