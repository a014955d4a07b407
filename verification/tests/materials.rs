use raytracer::material::{draw_sample, reflectance};
use raytracer::scalar::ONE_RAW;
use raytracer::{scatter, scatter_with, HitRecord, Hittable, Material, Ray, Sample, Scalar, Sphere, Vec3};

const ONE: i64 = ONE_RAW;
const T_MIN: i64 = 1_000_000;

fn s(raw: i64) -> Scalar {
    Scalar::from_raw(raw)
}

fn v(x: i64, y: i64, z: i64) -> Vec3 {
    Vec3::new(s(x), s(y), s(z))
}

fn sample(x: i64, y: i64, z: i64, coin: i64) -> Sample {
    Sample { in_sphere: v(x, y, z), coin: s(coin) }
}

fn head_on() -> Ray {
    Ray::new(v(0, 0, 0), v(0, 0, -2 * ONE))
}

fn hit_head_on(material: Material) -> HitRecord {
    let sphere = Sphere { center: v(0, 0, -ONE), radius: s(ONE / 2), mat_ptr: material };
    sphere.hit(&head_on(), s(T_MIN), Scalar::max_value()).unwrap()
}

fn flat(front_face: bool, material: Material) -> HitRecord {
    HitRecord { p: v(0, 0, 0), normal: v(0, 0, ONE), t: s(ONE), front_face, mat_ptr: material }
}

fn matt() -> Material {
    Material::Lambertian { albedo: v(100_000_000, 200_000_000, 500_000_000) }
}

fn mirror(fuzz: i64) -> Material {
    Material::Metal { albedo: v(800_000_000, 600_000_000, 200_000_000), fuzz: s(fuzz) }
}

fn glass() -> Material {
    Material::Dielectric { ir: s(1_500_000_000) }
}

#[test]
fn lambertian_scatters_along_normal_plus_random_direction() {
    let rec = hit_head_on(matt());
    let (attenuation, out) = scatter_with(&matt(), &head_on(), &rec, &sample(0, ONE / 2, 0, 0)).unwrap();
    assert_eq!(attenuation, v(100_000_000, 200_000_000, 500_000_000));
    assert_eq!(out, Ray::new(v(0, 0, -ONE / 2), v(0, ONE, ONE)));
    let (_, out) = scatter_with(&matt(), &head_on(), &rec, &sample(300_000_000, -400_000_000, 0, 0)).unwrap();
    assert_eq!(out, Ray::new(v(0, 0, -ONE / 2), v(600_000_000, -800_000_000, ONE)));
}

#[test]
fn lambertian_takes_the_direction_of_a_tiny_sample() {
    let rec = hit_head_on(matt());
    let (_, out) = scatter_with(&matt(), &head_on(), &rec, &sample(0, 1, -1, 0)).unwrap();
    assert_eq!(out, Ray::new(v(0, 0, -ONE / 2), v(0, 707_106_781, 292_893_219)));
}

#[test]
fn lambertian_takes_the_normal_where_the_sum_is_near_zero() {
    let rec = hit_head_on(matt());
    let (attenuation, out) = scatter_with(&matt(), &head_on(), &rec, &sample(0, 0, -ONE / 3, 0)).unwrap();
    assert_eq!(attenuation, v(100_000_000, 200_000_000, 500_000_000));
    assert_eq!(out, Ray::new(v(0, 0, -ONE / 2), v(0, 0, ONE)));
}

#[test]
fn lambertian_direction_never_points_into_the_surface() {
    let rays = [
        Ray::new(v(0, 0, 0), v(0, 0, -ONE)),
        Ray::new(v(0, 0, 0), v(ONE / 10, ONE / 5, -ONE)),
        Ray::new(v(ONE / 4, -ONE / 4, ONE), v(0, 0, -3 * ONE)),
    ];
    let sphere = Sphere { center: v(0, 0, -ONE), radius: s(ONE / 2), mat_ptr: matt() };
    for ray in rays {
        let rec = sphere.hit(&ray, s(T_MIN), Scalar::max_value()).unwrap();
        for _ in 0..500 {
            let (attenuation, out) = scatter(&matt(), &ray, &rec).unwrap();
            assert_eq!(attenuation, v(100_000_000, 200_000_000, 500_000_000));
            assert_eq!(out.origin, rec.p);
            assert!(Vec3::dot(&out.direction, &rec.normal).raw >= -1_000);
            assert!(!out.direction.near_zero());
        }
        let opposite = Sample { in_sphere: -rec.normal, coin: s(0) };
        let (_, out) = scatter_with(&matt(), &ray, &rec, &opposite).unwrap();
        assert!(Vec3::dot(&out.direction, &rec.normal).raw >= -1_000);
    }
}

#[test]
fn metal_without_fuzz_reflects_a_perpendicular_ray_straight_back() {
    let rec = hit_head_on(mirror(0));
    let (attenuation, out) = scatter(&mirror(0), &head_on(), &rec).unwrap();
    assert_eq!(attenuation, v(800_000_000, 600_000_000, 200_000_000));
    assert_eq!(out.origin, v(0, 0, -ONE / 2));
    assert_eq!(out.direction, v(0, 0, ONE));
    assert_eq!(out.direction, -Vec3::unit_vector(head_on().direction()));
    let with = scatter_with(&mirror(0), &head_on(), &rec, &sample(123, 456, -789, 0)).unwrap();
    assert_eq!(with, (attenuation, out));
}

#[test]
fn metal_without_fuzz_ignores_the_sample() {
    let ray = Ray::new(v(0, 0, 0), v(ONE / 10, ONE / 5, -ONE));
    let sphere = Sphere { center: v(0, 0, -ONE), radius: s(ONE / 2), mat_ptr: mirror(0) };
    let rec = sphere.hit(&ray, s(T_MIN), Scalar::max_value()).unwrap();
    let expected = Ray::new(v(51_335_502, 102_671_005, -513_355_026), v(282_343_482, 564_686_969, 775_506_790));
    for _ in 0..50 {
        let (_, out) = scatter(&mirror(0), &ray, &rec).unwrap();
        assert_eq!(out, expected);
    }
    let (_, out) = scatter_with(&mirror(0), &ray, &rec, &sample(ONE / 2, ONE / 2, ONE / 2, 0)).unwrap();
    assert_eq!(out, expected);
}

#[test]
fn metal_with_fuzz_moves_the_reflection_by_the_sample() {
    let rec = hit_head_on(mirror(300_000_000));
    let (attenuation, out) =
        scatter_with(&mirror(300_000_000), &head_on(), &rec, &sample(ONE / 2, -ONE / 4, ONE / 10, 0)).unwrap();
    assert_eq!(attenuation, v(800_000_000, 600_000_000, 200_000_000));
    assert_eq!(out, Ray::new(v(0, 0, -ONE / 2), v(150_000_000, -75_000_000, 1_030_000_000)));
}

#[test]
fn metal_absorbs_a_reflection_that_does_not_leave_the_surface() {
    let rough = Material::Metal { albedo: v(ONE, ONE, ONE), fuzz: s(ONE) };
    let grazing = Ray::new(v(-ONE, 0, 0), v(ONE, 0, -ONE / 1000));
    let rec = flat(true, rough);
    assert!(scatter_with(&rough, &grazing, &rec, &sample(0, 0, -ONE / 2, 0)).is_none());
    let (_, out) = scatter_with(&rough, &grazing, &rec, &sample(0, 0, ONE / 2, 0)).unwrap();
    assert_eq!(out, Ray::new(v(0, 0, 0), v(999_999_500, 0, 500_999_999)));
}

#[test]
fn metal_absorbs_a_ray_that_only_touches() {
    let sphere = Sphere { center: v(0, 0, -ONE), radius: s(ONE / 2), mat_ptr: mirror(0) };
    let touching = Ray::new(v(0, ONE / 2, 0), v(0, 0, -ONE));
    let rec = sphere.hit(&touching, s(T_MIN), Scalar::max_value()).unwrap();
    assert!(scatter(&mirror(0), &touching, &rec).is_none());
}

#[test]
fn reflectance_follows_schlick() {
    let into_glass = s(ONE) / s(1_500_000_000);
    assert_eq!(into_glass, s(666_666_666));
    assert_eq!(reflectance(s(ONE), into_glass), s(40_000_000));
    assert_eq!(reflectance(s(ONE), s(1_500_000_000)), s(40_000_000));
    assert_eq!(reflectance(s(0), s(1_500_000_000)), s(ONE));
    assert_eq!(reflectance(s(ONE / 2), into_glass), s(70_000_000));
    assert_eq!(reflectance(s(ONE / 4), s(ONE)), s(237_304_687));
    assert_eq!(reflectance(s(707_106_781), into_glass), s(42_069_272));
}

#[test]
fn dielectric_refracts_a_perpendicular_ray_straight_on() {
    let rec = hit_head_on(glass());
    assert!(rec.front_face);
    for coin in [40_000_000, ONE / 2, ONE - 1] {
        let (attenuation, out) = scatter_with(&glass(), &head_on(), &rec, &sample(0, 0, 0, coin)).unwrap();
        assert_eq!(attenuation, v(ONE, ONE, ONE));
        assert_eq!(out, Ray::new(v(0, 0, -ONE / 2), v(0, 0, -ONE)));
        let incoming = Vec3::unit_vector(head_on().direction());
        assert_eq!(out.direction, incoming);
        assert_eq!(out.direction.x, s(0));
        assert_eq!(out.direction.y, s(0));
    }
}

#[test]
fn dielectric_reflects_where_the_coin_is_below_the_reflectance() {
    let rec = hit_head_on(glass());
    for coin in [0, 39_999_999] {
        let (attenuation, out) = scatter_with(&glass(), &head_on(), &rec, &sample(0, 0, 0, coin)).unwrap();
        assert_eq!(attenuation, v(ONE, ONE, ONE));
        assert_eq!(out, Ray::new(v(0, 0, -ONE / 2), v(0, 0, ONE)));
    }
}

#[test]
fn dielectric_mostly_refracts_a_perpendicular_ray() {
    let rec = hit_head_on(glass());
    let mut refracted = 0;
    let mut reflected = 0;
    for _ in 0..2000 {
        let (attenuation, out) = scatter(&glass(), &head_on(), &rec).unwrap();
        assert_eq!(attenuation, v(ONE, ONE, ONE));
        assert_eq!(out.origin, v(0, 0, -ONE / 2));
        if out.direction == v(0, 0, -ONE) {
            refracted += 1;
        } else {
            assert_eq!(out.direction, v(0, 0, ONE));
            reflected += 1;
        }
    }
    assert_eq!(refracted + reflected, 2000);
    assert!(refracted >= 1800);
}

#[test]
fn dielectric_bends_an_oblique_ray_on_the_way_in() {
    let ray = Ray::new(v(0, 0, ONE), v(ONE, 0, -ONE));
    let rec = flat(true, glass());
    let (_, out) = scatter_with(&glass(), &ray, &rec, &sample(0, 0, 0, ONE / 2)).unwrap();
    assert_eq!(out, Ray::new(v(0, 0, 0), v(471_404_520, 0, -881_917_104)));
    let (_, out) = scatter_with(&glass(), &ray, &rec, &sample(0, 0, 0, 0)).unwrap();
    assert_eq!(out, Ray::new(v(0, 0, 0), v(707_106_781, 0, 707_106_781)));
}

#[test]
fn dielectric_reflects_all_light_beyond_the_critical_angle() {
    let ray = Ray::new(v(0, 0, ONE), v(ONE, 0, -ONE));
    let rec = flat(false, glass());
    for coin in [0, ONE / 2, ONE - 1] {
        let (attenuation, out) = scatter_with(&glass(), &ray, &rec, &sample(0, 0, 0, coin)).unwrap();
        assert_eq!(attenuation, v(ONE, ONE, ONE));
        assert_eq!(out, Ray::new(v(0, 0, 0), v(707_106_781, 0, 707_106_781)));
    }
    for _ in 0..50 {
        let (_, out) = scatter(&glass(), &ray, &rec).unwrap();
        assert_eq!(out.direction, v(707_106_781, 0, 707_106_781));
    }
}

#[test]
fn lambertian_and_dielectric_always_scatter() {
    let ray = Ray::new(v(0, 0, 0), v(ONE / 10, ONE / 5, -ONE));
    for material in [matt(), glass()] {
        let sphere = Sphere { center: v(0, 0, -ONE), radius: s(ONE / 2), mat_ptr: material };
        let rec = sphere.hit(&ray, s(T_MIN), Scalar::max_value()).unwrap();
        for _ in 0..200 {
            assert!(scatter(&material, &ray, &rec).is_some());
        }
    }
}

#[test]
fn samples_are_drawn_for_the_material() {
    for _ in 0..200 {
        let for_glass = draw_sample(&glass());
        assert_eq!(for_glass.in_sphere, v(0, 0, 0));
        assert!(0 <= for_glass.coin.raw && for_glass.coin.raw < ONE);
        for material in [matt(), mirror(ONE / 2)] {
            let drawn = draw_sample(&material);
            assert_eq!(drawn.coin, s(0));
            assert!(drawn.in_sphere.squared_length().raw < ONE);
        }
    }
}

#[test]
fn origin_sample_is_the_centre_and_zero() {
    assert_eq!(Sample::origin(), sample(0, 0, 0, 0));
}
