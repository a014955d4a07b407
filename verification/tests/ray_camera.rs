use raytracer::scalar::ONE_RAW;
use raytracer::{Camera, Ray, Scalar, Vec3};

const ONE: i64 = ONE_RAW;

fn s(raw: i64) -> Scalar {
    Scalar::from_raw(raw)
}

fn v(x: i64, y: i64, z: i64) -> Vec3 {
    Vec3::new(s(x), s(y), s(z))
}

#[test]
fn ray_keeps_origin_and_direction() {
    let ray = Ray::new(v(1, 2, 3), v(4, 5, 6));
    assert_eq!(*ray.origin(), v(1, 2, 3));
    assert_eq!(*ray.direction(), v(4, 5, 6));
    assert_eq!(Ray::default(), Ray::new(v(0, 0, 0), v(0, 0, 0)));
}

#[test]
fn ray_at_is_origin_plus_t_times_direction() {
    let ray = Ray::new(v(ONE, 2 * ONE, 3 * ONE), v(ONE / 2, 0, -ONE));
    assert_eq!(ray.at(s(2_500_000_000)), v(2_250_000_000, 2 * ONE, ONE / 2));
    assert_eq!(ray.at(s(0)), v(ONE, 2 * ONE, 3 * ONE));
    assert_eq!(ray.at(s(-ONE)), v(ONE / 2, 2 * ONE, 4 * ONE));
}

#[test]
fn camera_spans_the_viewport() {
    let camera = Camera::new(s(ONE), s(2 * ONE));
    assert_eq!(camera.origin, v(0, 0, 0));
    assert_eq!(camera.horizontal, v(4 * ONE, 0, 0));
    assert_eq!(camera.vertical, v(0, 2 * ONE, 0));
    assert_eq!(camera.lower_left_corner, v(-2 * ONE, -ONE, -ONE));
}

#[test]
fn camera_rays_go_through_the_viewport() {
    let camera = Camera::new(s(ONE), s(2 * ONE));
    let centre = camera.get_ray(s(ONE / 2), s(ONE / 2));
    assert_eq!(centre, Ray::new(v(0, 0, 0), v(0, 0, -ONE)));
    let corner = camera.get_ray(s(0), s(0));
    assert_eq!(corner, Ray::new(v(0, 0, 0), v(-2 * ONE, -ONE, -ONE)));
    let opposite = camera.get_ray(s(ONE), s(ONE));
    assert_eq!(opposite, Ray::new(v(0, 0, 0), v(2 * ONE, ONE, -ONE)));
    let between = camera.get_ray(s(ONE / 4), s(3 * ONE / 4));
    assert_eq!(between, Ray::new(v(0, 0, 0), v(-ONE, ONE / 2, -ONE)));
}

#[test]
fn camera_with_a_wide_screen() {
    let aspect = Scalar::from_ratio(16, 9);
    assert_eq!(aspect, s(1_777_777_777));
    let camera = Camera::new(s(ONE), aspect);
    assert_eq!(camera.horizontal, v(3_555_555_554, 0, 0));
    assert_eq!(camera.lower_left_corner, v(-1_777_777_777, -ONE, -ONE));
}
