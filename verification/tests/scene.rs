use raytracer::scalar::ONE_RAW;
use raytracer::{Hittable, HittableList, Material, Ray, Scalar, Sphere, Vec3};

const ONE: i64 = ONE_RAW;
const T_MIN: i64 = 1_000_000;

fn s(raw: i64) -> Scalar {
    Scalar::from_raw(raw)
}

fn v(x: i64, y: i64, z: i64) -> Vec3 {
    Vec3::new(s(x), s(y), s(z))
}

fn tinted(shade: i64) -> Material {
    Material::Lambertian { albedo: v(shade, shade, shade) }
}

fn near_sphere() -> Sphere {
    Sphere { center: v(0, 0, -3 * ONE), radius: s(ONE), mat_ptr: tinted(1) }
}

fn far_sphere() -> Sphere {
    Sphere { center: v(0, 0, -6 * ONE), radius: s(2 * ONE), mat_ptr: tinted(2) }
}

fn aside_sphere() -> Sphere {
    Sphere { center: v(10 * ONE, 0, -3 * ONE), radius: s(ONE), mat_ptr: tinted(3) }
}

fn forward() -> Ray {
    Ray::new(v(0, 0, 0), v(0, 0, -ONE))
}

#[test]
fn empty_scene_is_never_hit() {
    let world: HittableList<Sphere> = HittableList::new();
    assert!(world.objects.is_empty());
    assert!(world.hit(&forward(), s(T_MIN), Scalar::max_value()).is_none());
    let other: HittableList<Sphere> = HittableList::default();
    assert!(other.hit(&forward(), s(T_MIN), Scalar::max_value()).is_none());
}

#[test]
fn nearest_sphere_wins_in_any_order() {
    let orders = [
        [near_sphere(), far_sphere(), aside_sphere()],
        [far_sphere(), near_sphere(), aside_sphere()],
        [aside_sphere(), far_sphere(), near_sphere()],
        [far_sphere(), aside_sphere(), near_sphere()],
    ];
    for order in orders {
        let mut world = HittableList::new();
        for sphere in order {
            world.objects.push(sphere);
        }
        let rec = world.hit(&forward(), s(T_MIN), Scalar::max_value()).unwrap();
        assert_eq!(rec.t, s(2 * ONE));
        assert_eq!(rec.p, v(0, 0, -2 * ONE));
        assert_eq!(rec.normal, v(0, 0, ONE));
        assert!(rec.front_face);
        assert_eq!(rec.mat_ptr, tinted(1));
    }
}

#[test]
fn scene_hit_is_the_hit_of_the_sphere() {
    let mut world = HittableList::new();
    world.objects.push(far_sphere());
    world.objects.push(aside_sphere());
    let rec = world.hit(&forward(), s(T_MIN), Scalar::max_value()).unwrap();
    let alone = far_sphere().hit(&forward(), s(T_MIN), Scalar::max_value()).unwrap();
    assert_eq!(rec, alone);
    assert_eq!(rec.t, s(4 * ONE));
}

#[test]
fn first_of_two_equally_near_spheres_wins() {
    let first = Sphere { center: v(0, 0, -3 * ONE), radius: s(ONE), mat_ptr: tinted(7) };
    let second = Sphere { center: v(0, 0, -3 * ONE), radius: s(ONE), mat_ptr: tinted(8) };
    let mut world = HittableList::new();
    world.objects.push(first);
    world.objects.push(second);
    let rec = world.hit(&forward(), s(T_MIN), Scalar::max_value()).unwrap();
    assert_eq!(rec.mat_ptr, tinted(7));
    let mut swapped = HittableList::new();
    swapped.objects.push(second);
    swapped.objects.push(first);
    let rec = swapped.hit(&forward(), s(T_MIN), Scalar::max_value()).unwrap();
    assert_eq!(rec.mat_ptr, tinted(8));
}

#[test]
fn scene_respects_the_interval() {
    let mut world = HittableList::new();
    world.objects.push(near_sphere());
    world.objects.push(far_sphere());
    let rec = world.hit(&forward(), s(2 * ONE), Scalar::max_value()).unwrap();
    assert_eq!(rec.t, s(4 * ONE));
    assert_eq!(rec.mat_ptr, tinted(1));
    assert!(!rec.front_face);
    let rec = world.hit(&forward(), s(2 * ONE + 1), s(4 * ONE + 1)).unwrap();
    assert_eq!(rec.t, s(4 * ONE));
    assert!(world.hit(&forward(), s(2 * ONE), s(4 * ONE)).is_none());
    let rec = world.hit(&forward(), s(4 * ONE), Scalar::max_value()).unwrap();
    assert_eq!(rec.t, s(8 * ONE));
    assert!(!rec.front_face);
    assert!(world.hit(&forward(), s(T_MIN), s(2 * ONE)).is_none());
    assert!(world.hit(&forward(), s(8 * ONE), Scalar::max_value()).is_none());
}

#[test]
fn scene_of_scenes_finds_the_nearest_of_all() {
    let mut front = HittableList::new();
    front.objects.push(aside_sphere());
    front.objects.push(far_sphere());
    let mut back = HittableList::new();
    back.objects.push(near_sphere());
    let mut world = HittableList::new();
    world.objects.push(front);
    world.objects.push(back);
    world.objects.push(HittableList::new());
    let rec = world.hit(&forward(), s(T_MIN), Scalar::max_value()).unwrap();
    assert_eq!(rec.t, s(2 * ONE));
    assert_eq!(rec.mat_ptr, tinted(1));
}

#[test]
fn ray_that_misses_every_sphere_hits_nothing() {
    let mut world = HittableList::new();
    world.objects.push(near_sphere());
    world.objects.push(far_sphere());
    world.objects.push(aside_sphere());
    let up = Ray::new(v(0, 0, 0), v(0, ONE, 0));
    assert!(world.hit(&up, s(T_MIN), Scalar::max_value()).is_none());
}
