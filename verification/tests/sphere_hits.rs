use raytracer::scalar::ONE_RAW;
use raytracer::{Hittable, Material, Ray, Scalar, Sphere, Vec3};

const ONE: i64 = ONE_RAW;
const T_MIN: i64 = 1_000_000;

fn s(raw: i64) -> Scalar {
    Scalar::from_raw(raw)
}

fn v(x: i64, y: i64, z: i64) -> Vec3 {
    Vec3::new(s(x), s(y), s(z))
}

fn grey() -> Material {
    Material::Lambertian { albedo: v(ONE / 2, ONE / 2, ONE / 2) }
}

fn small_sphere() -> Sphere {
    Sphere { center: v(0, 0, -ONE), radius: s(ONE / 2), mat_ptr: grey() }
}

#[test]
fn ray_toward_sphere_hits_at_half() {
    let ray = Ray::new(v(0, 0, 0), v(0, 0, -ONE));
    let rec = small_sphere().hit(&ray, s(T_MIN), Scalar::max_value()).unwrap();
    assert_eq!(rec.t, s(ONE / 2));
    assert_eq!(rec.p, v(0, 0, -ONE / 2));
    assert_eq!(rec.normal, v(0, 0, ONE));
    assert!(rec.front_face);
    assert_eq!(rec.mat_ptr, grey());
    assert_eq!(rec.t(), s(ONE / 2));
    assert_eq!(rec.p(), v(0, 0, -ONE / 2));
    assert_eq!(rec.normal(), v(0, 0, ONE));
}

#[test]
fn direction_need_not_have_length_one() {
    let ray = Ray::new(v(0, 0, 0), v(0, 0, -2 * ONE));
    let rec = small_sphere().hit(&ray, s(T_MIN), Scalar::max_value()).unwrap();
    assert_eq!(rec.t, s(ONE / 4));
    assert_eq!(rec.p, v(0, 0, -ONE / 2));
    assert_eq!(rec.normal, v(0, 0, ONE));
    assert!(rec.front_face);
}

#[test]
fn ray_past_the_sphere_misses() {
    let ray = Ray::new(v(0, 0, 0), v(0, ONE, 0));
    assert!(small_sphere().hit(&ray, s(T_MIN), Scalar::max_value()).is_none());
    let away = Ray::new(v(0, 0, 0), v(0, 0, ONE));
    assert!(small_sphere().hit(&away, s(T_MIN), Scalar::max_value()).is_none());
}

#[test]
fn ray_that_touches_the_sphere_hits() {
    let ray = Ray::new(v(0, ONE / 2, 0), v(0, 0, -ONE));
    let rec = small_sphere().hit(&ray, s(T_MIN), Scalar::max_value()).unwrap();
    assert_eq!(rec.t, s(ONE));
    assert_eq!(rec.p, v(0, ONE / 2, -ONE));
    assert!(!rec.front_face);
    assert_eq!(rec.normal, v(0, -ONE, 0));
}

#[test]
fn ray_from_inside_hits_the_far_side_from_behind() {
    let ray = Ray::new(v(0, 0, -ONE), v(0, 0, -ONE));
    let rec = small_sphere().hit(&ray, s(T_MIN), Scalar::max_value()).unwrap();
    assert_eq!(rec.t, s(ONE / 2));
    assert_eq!(rec.p, v(0, 0, -3 * ONE / 2));
    assert!(!rec.front_face);
    assert_eq!(rec.normal, v(0, 0, ONE));
}

#[test]
fn interval_is_open_at_both_ends() {
    let ray = Ray::new(v(0, 0, 0), v(0, 0, -ONE));
    let sphere = small_sphere();
    let far = sphere.hit(&ray, s(ONE / 2), Scalar::max_value()).unwrap();
    assert_eq!(far.t, s(3 * ONE / 2));
    assert!(!far.front_face);
    assert!(sphere.hit(&ray, s(T_MIN), s(ONE / 2)).is_none());
    let near = sphere.hit(&ray, s(T_MIN), s(ONE / 2 + 1)).unwrap();
    assert_eq!(near.t, s(ONE / 2));
    assert!(sphere.hit(&ray, s(ONE / 2), s(3 * ONE / 2)).is_none());
    let between = sphere.hit(&ray, s(ONE / 2), s(3 * ONE / 2 + 1)).unwrap();
    assert_eq!(between.t, s(3 * ONE / 2));
}

#[test]
fn ray_from_the_surface_does_not_hit_it_again() {
    let sphere = small_sphere();
    let leaving = Ray::new(v(0, 0, -ONE / 2), v(0, 0, ONE));
    assert!(sphere.hit(&leaving, s(T_MIN), Scalar::max_value()).is_none());
    let just_outside = Ray::new(v(0, 0, -499_500_000), v(0, 0, -ONE));
    let rec = sphere.hit(&just_outside, s(T_MIN), Scalar::max_value()).unwrap();
    assert_eq!(rec.t, s(1_000_500_000));
    assert!(!rec.front_face);
    let seen = sphere.hit(&just_outside, s(0), Scalar::max_value()).unwrap();
    assert_eq!(seen.t, s(500_000));
    assert!(seen.front_face);
}

#[test]
fn ray_without_direction_hits_nothing() {
    let ray = Ray::new(v(0, 0, 0), v(0, 0, 0));
    assert!(small_sphere().hit(&ray, s(-ONE), Scalar::max_value()).is_none());
    let inside = Ray::new(v(0, 0, -ONE), v(0, 0, 0));
    assert!(small_sphere().hit(&inside, s(-ONE), Scalar::max_value()).is_none());
}

#[test]
fn oblique_ray_hits_with_a_unit_normal() {
    let ray = Ray::new(v(0, 0, 0), v(ONE / 10, ONE / 5, -ONE));
    let rec = small_sphere().hit(&ray, s(T_MIN), Scalar::max_value()).unwrap();
    assert_eq!(rec.t, s(513_355_026));
    assert_eq!(rec.p, v(51_335_502, 102_671_005, -513_355_026));
    assert_eq!(rec.normal, v(102_671_004, 205_342_010, 973_289_948));
    assert!(rec.front_face);
    assert!((rec.normal.length().raw - ONE).abs() <= 10);
}

#[test]
fn negative_radius_gives_the_same_point_and_the_opposite_normal() {
    let hollow = Sphere { center: v(0, 0, -ONE), radius: s(-ONE / 2), mat_ptr: grey() };
    let solid = small_sphere();
    let rays = [
        Ray::new(v(0, 0, 0), v(0, 0, -ONE)),
        Ray::new(v(0, 0, 0), v(ONE / 10, ONE / 5, -ONE)),
        Ray::new(v(0, 0, -ONE), v(ONE, ONE, ONE)),
        Ray::new(v(0, ONE / 4, ONE), v(0, 0, -3 * ONE)),
    ];
    for ray in rays {
        let a = solid.hit(&ray, s(T_MIN), Scalar::max_value()).unwrap();
        let b = hollow.hit(&ray, s(T_MIN), Scalar::max_value()).unwrap();
        assert_eq!(a.t, b.t);
        assert_eq!(a.p, b.p);
        let outward_a = Vec3::unit_vector(&((a.p - solid.center) / solid.radius));
        let outward_b = Vec3::unit_vector(&((b.p - hollow.center) / hollow.radius));
        assert_eq!(outward_b, -outward_a);
        assert_eq!(if a.front_face { a.normal } else { -a.normal }, outward_a);
        assert_eq!(if b.front_face { b.normal } else { -b.normal }, outward_b);
        assert_eq!(a.front_face, !b.front_face);
        assert_eq!(a.normal, b.normal);
    }
    let ray = Ray::new(v(0, 0, 0), v(0, 0, -ONE));
    let rec = hollow.hit(&ray, s(T_MIN), Scalar::max_value()).unwrap();
    assert_eq!(rec.t, s(ONE / 2));
    assert_eq!(rec.p, v(0, 0, -ONE / 2));
    assert!(!rec.front_face);
    assert_eq!(rec.normal, v(0, 0, ONE));
}

#[test]
fn normals_of_opposite_radii_may_differ_where_the_quotient_saturates() {
    let far = v(4_611_686_018_427_387_904, 644_314_868_239_259_278, 0);
    let outward = Vec3::unit_vector(&(far / s(ONE / 2)));
    let inward = Vec3::unit_vector(&(far / s(-ONE / 2)));
    assert_eq!(far / s(ONE / 2), v(i64::MAX, 1_288_629_736_478_518_556, 0));
    assert_eq!(far / s(-ONE / 2), v(i64::MIN, -1_288_629_736_478_518_556, 0));
    assert_eq!(outward, v(990_380_665, 138_369_565, 0));
    assert_eq!(inward, v(-990_380_665, -138_369_564, 0));
}

#[test]
fn negative_radius_misses_what_the_positive_one_misses() {
    let hollow = Sphere { center: v(0, 0, -ONE), radius: s(-ONE / 2), mat_ptr: grey() };
    let ray = Ray::new(v(0, 0, 0), v(0, ONE, 0));
    assert!(hollow.hit(&ray, s(T_MIN), Scalar::max_value()).is_none());
}

#[test]
fn normals_have_length_one() {
    let spheres = [
        small_sphere(),
        Sphere { center: v(0, -100_500_000_000, -ONE), radius: s(100 * ONE), mat_ptr: grey() },
        Sphere { center: v(3 * ONE, ONE, -700 * ONE), radius: s(-ONE / 3), mat_ptr: grey() },
        Sphere { center: v(0, 0, -ONE), radius: s(100_000), mat_ptr: grey() },
    ];
    let rays = [
        Ray::new(v(0, 0, 0), v(0, 0, -ONE)),
        Ray::new(v(0, 0, 0), v(ONE / 10, ONE / 5, -ONE)),
        Ray::new(v(0, 0, 0), v(0, -ONE, -ONE)),
        Ray::new(v(0, 0, 0), v(4_285_714, 1_428_571, -ONE)),
        Ray::new(v(0, 0, 0), v(3, 1, -700)),
        Ray::new(v(0, 0, 0), v(0, 0, -1)),
    ];
    let mut hits = 0;
    for sphere in spheres {
        for ray in rays {
            if let Some(rec) = sphere.hit(&ray, s(T_MIN), Scalar::max_value()) {
                hits += 1;
                let n = rec.normal;
                let squared: i128 =
                    [n.x.raw, n.y.raw, n.z.raw].iter().map(|c| *c as i128 * *c as i128).sum();
                let one_squared = ONE as i128 * ONE as i128;
                assert!((squared - one_squared).abs() <= 6 * ONE as i128);
                assert!(Vec3::dot(ray.direction(), &n).raw <= 0);
            }
        }
    }
    assert!(hits >= 6);
}

#[test]
fn sphere_too_small_for_its_square_is_a_point() {
    let speck = Sphere { center: v(0, 0, -ONE), radius: s(1_000), mat_ptr: grey() };
    let ray = Ray::new(v(0, 0, 0), v(0, 0, -ONE));
    let rec = speck.hit(&ray, s(T_MIN), Scalar::max_value()).unwrap();
    assert_eq!(rec.t, s(ONE));
    assert_eq!(rec.p, v(0, 0, -ONE));
    assert_eq!(rec.normal, v(0, 0, 0));
    assert!(!rec.front_face);
}

#[test]
fn large_sphere_below_is_hit_from_above() {
    let ground = Sphere { center: v(0, -100_500_000_000, -ONE), radius: s(100 * ONE), mat_ptr: grey() };
    let ray = Ray::new(v(0, 0, 0), v(0, -ONE, -ONE));
    let rec = ground.hit(&ray, s(T_MIN), Scalar::max_value()).unwrap();
    assert_eq!(rec.t, s(501_243_796));
    assert_eq!(rec.p, v(0, -501_243_796, -501_243_796));
    assert_eq!(rec.normal, v(0, 999_987_562, 4_987_562));
    assert!(rec.front_face);
}

#[test]
fn set_face_normal_turns_the_normal_against_the_ray() {
    let ray = Ray::new(v(0, 0, 0), v(0, 0, -ONE));
    let mut rec = small_sphere().hit(&ray, s(T_MIN), Scalar::max_value()).unwrap();
    rec.set_face_normal(&ray, &v(0, 0, -ONE));
    assert!(!rec.front_face);
    assert_eq!(rec.normal, v(0, 0, ONE));
    rec.set_face_normal(&ray, &v(0, ONE / 2, ONE));
    assert!(rec.front_face);
    assert_eq!(rec.normal, v(0, ONE / 2, ONE));
    rec.set_face_normal(&ray, &v(ONE, 0, 0));
    assert!(!rec.front_face);
    assert_eq!(rec.normal, v(-ONE, 0, 0));
    assert_eq!(rec.t, s(ONE / 2));
    assert_eq!(rec.p, v(0, 0, -ONE / 2));
}

#[test]
fn setters_replace_one_field() {
    let ray = Ray::new(v(0, 0, 0), v(0, 0, -ONE));
    let mut rec = small_sphere().hit(&ray, s(T_MIN), Scalar::max_value()).unwrap();
    rec.set_p(v(1, 2, 3));
    rec.set_t(s(7));
    rec.set_normal(v(4, 5, 6));
    assert_eq!(rec.p(), v(1, 2, 3));
    assert_eq!(rec.t(), s(7));
    assert_eq!(rec.normal(), v(4, 5, 6));
    assert!(rec.front_face);
    assert_eq!(rec.mat_ptr, grey());
}
