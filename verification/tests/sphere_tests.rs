use raytracer::hitable::HitRecord;
use raytracer::hitable::Hitable;
use raytracer::material::Lambertian;
use raytracer::material::Material;
use raytracer::scalar::Scalar;
use raytracer::sphere::Root;
use raytracer::sphere::Roots;
use raytracer::sphere::Sphere;
use raytracer::vec3::Vec3;

fn s(x: f32) -> Scalar {
    Scalar::from_bits(x.to_bits())
}

fn f(x: Scalar) -> f32 {
    f32::from_bits(x.to_bits())
}

fn v(a: [f32; 3]) -> Vec3 {
    Vec3::new(s(a[0]), s(a[1]), s(a[2]))
}

fn a3(v: Vec3) -> [f32; 3] {
    [f(v.x()), f(v.y()), f(v.z())]
}

fn dot(a: [f32; 3], b: [f32; 3]) -> f32 {
    a[0] * b[0] + a[1] * b[1] + a[2] * b[2]
}

fn sub(a: [f32; 3], b: [f32; 3]) -> [f32; 3] {
    [a[0] - b[0], a[1] - b[1], a[2] - b[2]]
}

fn at(origin: [f32; 3], direction: [f32; 3], t: f32) -> [f32; 3] {
    [origin[0] + direction[0] * t, origin[1] + direction[1] * t, origin[2] + direction[2] * t]
}

fn root(center: [f32; 3], radius: f32, origin: [f32; 3], direction: [f32; 3], t: f32) -> Root {
    let p = at(origin, direction, t);
    let n = sub(p, center);
    Root::new(s(t), v(p), v([n[0] / radius, n[1] / radius, n[2] / radius]))
}

fn roots(center: [f32; 3], radius: f32, origin: [f32; 3], direction: [f32; 3]) -> Roots {
    let oc = sub(origin, center);
    let a = dot(direction, direction);
    let b = dot(oc, direction);
    let c = dot(oc, oc) - radius * radius;
    let discriminant = b * b - a * c;
    let near = (-b - discriminant.sqrt()) / a;
    let far = (-b + discriminant.sqrt()) / a;
    Roots::new(
        s(discriminant),
        root(center, radius, origin, direction, near),
        root(center, radius, origin, direction, far),
    )
}

fn grey() -> Material {
    Material::Lambertian(Lambertian::new(v([0.5, 0.5, 0.5])))
}

fn sphere(center: [f32; 3], radius: f32) -> Sphere {
    Sphere::new(v(center), s(radius), grey())
}

fn unwrap(h: Option<HitRecord>) -> HitRecord {
    match h {
        Some(h) => h,
        None => panic!("no hit"),
    }
}

#[test]
fn sphere_new_keeps_its_parts() {
    let sp = sphere([1.0, 2.0, 3.0], -0.45);
    assert_eq!(a3(sp.center), [1.0, 2.0, 3.0]);
    assert_eq!(f(sp.radius), -0.45);
    assert!(matches!(sp.material, Material::Lambertian(_)));
}

#[test]
fn unit_sphere_is_hit_from_its_centre_at_distance_one() {
    let center = [0.0, 0.0, 0.0];
    let origin = [0.0, 0.0, 0.0];
    let direction = [0.0, 0.0, -1.0];
    let rs = roots(center, 1.0, origin, direction);
    let h = unwrap(sphere(center, 1.0).hit(&rs, s(0.001), s(f32::MAX)));
    assert_eq!(f(h.t), 1.0);
    let p = a3(h.p);
    let from_center = sub(p, center);
    assert!((dot(from_center, from_center) - 1.0).abs() < 1e-6);
    assert_eq!(p, at(origin, direction, f(h.t)));
    let n = a3(h.normal);
    assert!((dot(n, n) - 1.0).abs() < 1e-6);
    let cross = [
        n[1] * from_center[2] - n[2] * from_center[1],
        n[2] * from_center[0] - n[0] * from_center[2],
        n[0] * from_center[1] - n[1] * from_center[0],
    ];
    assert!(dot(cross, cross) < 1e-12);
    assert!(dot(n, from_center) > 0.0);
}

#[test]
fn negative_radius_gives_the_same_distance_and_the_opposite_normal() {
    let center = [0.0, 0.0, 0.0];
    let origin = [0.0, 0.0, 0.0];
    let direction = [0.0, 0.0, -1.0];
    let out = unwrap(sphere(center, 1.0).hit(
        &roots(center, 1.0, origin, direction),
        s(0.001),
        s(f32::MAX),
    ));
    let inw = unwrap(sphere(center, -1.0).hit(
        &roots(center, -1.0, origin, direction),
        s(0.001),
        s(f32::MAX),
    ));
    assert_eq!(f(inw.t), f(out.t));
    assert_eq!(a3(inw.p), a3(out.p));
    assert_eq!(inw.normal, out.normal.neg());
    assert_eq!(a3(inw.normal), [0.0, 0.0, 1.0]);
}

#[test]
fn negative_radius_turns_the_normal_of_a_sphere_seen_from_outside() {
    let center = [-1.0, 0.0, -1.0];
    let origin = [0.0, 0.0, 0.0];
    let direction = [-1.0, 0.1, -1.0];
    let out = unwrap(sphere(center, 0.45).hit(
        &roots(center, 0.45, origin, direction),
        s(0.001),
        s(f32::MAX),
    ));
    let inw = unwrap(sphere(center, -0.45).hit(
        &roots(center, -0.45, origin, direction),
        s(0.001),
        s(f32::MAX),
    ));
    assert_eq!(f(inw.t), f(out.t));
    assert_eq!(inw.normal, out.normal.neg());
}

#[test]
fn the_near_root_counts_when_it_lies_between_the_bounds() {
    let center = [0.0, 0.0, -1.0];
    let rs = roots(center, 0.5, [0.0, 0.0, 0.0], [0.0, 0.0, -1.0]);
    assert_eq!(f(rs.near.t), 0.5);
    assert_eq!(f(rs.far.t), 1.5);
    let h = unwrap(sphere(center, 0.5).hit(&rs, s(0.001), s(f32::MAX)));
    assert_eq!(f(h.t), 0.5);
    assert_eq!(a3(h.p), [0.0, 0.0, -0.5]);
    assert_eq!(a3(h.normal), [0.0, 0.0, 1.0]);
}

#[test]
fn the_far_root_counts_when_the_near_one_is_too_near() {
    let center = [0.0, 0.0, -1.0];
    let rs = roots(center, 0.5, [0.0, 0.0, 0.0], [0.0, 0.0, -1.0]);
    let h = unwrap(sphere(center, 0.5).hit(&rs, s(0.5), s(f32::MAX)));
    assert_eq!(f(h.t), 1.5);
    assert_eq!(a3(h.p), [0.0, 0.0, -1.5]);
    assert_eq!(a3(h.normal), [0.0, 0.0, -1.0]);
}

#[test]
fn no_root_counts_outside_the_bounds() {
    let center = [0.0, 0.0, -1.0];
    let sp = sphere(center, 0.5);
    let rs = roots(center, 0.5, [0.0, 0.0, 0.0], [0.0, 0.0, -1.0]);
    assert!(sp.hit(&rs, s(0.001), s(0.5)).is_none());
    assert!(sp.hit(&rs, s(1.5), s(f32::MAX)).is_none());
    assert!(sp.hit(&rs, s(0.5), s(1.5)).is_none());
    assert!(sp.hit(&rs, s(0.6), s(1.4)).is_none());
    assert!(sp.hit(&rs, s(f32::NAN), s(f32::MAX)).is_none());
    assert!(sp.hit(&rs, s(0.001), s(f32::NAN)).is_none());
}

#[test]
fn a_ray_that_passes_by_does_not_hit() {
    let center = [0.0, 0.0, -1.0];
    let rs = roots(center, 0.5, [0.0, 0.0, 0.0], [0.0, 1.0, 0.0]);
    assert!(f(rs.discriminant) < 0.0);
    assert!(sphere(center, 0.5).hit(&rs, s(0.001), s(f32::MAX)).is_none());
}

#[test]
fn a_ray_that_touches_does_not_hit() {
    let center = [0.0, 1.0, -1.0];
    let rs = roots(center, 1.0, [0.0, 0.0, 0.0], [0.0, 0.0, -1.0]);
    assert_eq!(f(rs.discriminant), 0.0);
    assert!(sphere(center, 1.0).hit(&rs, s(0.001), s(f32::MAX)).is_none());
}

#[test]
fn a_sphere_behind_the_ray_does_not_hit() {
    let center = [0.0, 0.0, 1.0];
    let rs = roots(center, 0.5, [0.0, 0.0, 0.0], [0.0, 0.0, -1.0]);
    assert!(f(rs.discriminant) > 0.0);
    assert!(sphere(center, 0.5).hit(&rs, s(0.001), s(f32::MAX)).is_none());
}

#[test]
fn the_hit_carries_the_material_of_the_sphere() {
    let center = [0.0, 0.0, -1.0];
    let rs = roots(center, 0.5, [0.0, 0.0, 0.0], [0.0, 0.0, -1.0]);
    let red = Material::Lambertian(Lambertian::new(v([0.9, 0.1, 0.1])));
    let h = unwrap(Sphere::new(v(center), s(0.5), red).hit(&rs, s(0.001), s(f32::MAX)));
    match h.material {
        Material::Lambertian(l) => assert_eq!(a3(l.albedo), [0.9, 0.1, 0.1]),
        _ => panic!("another material"),
    }
}

#[test]
fn hit_record_new_keeps_its_parts() {
    let h = HitRecord::new(s(2.5), v([1.0, 2.0, 3.0]), v([0.0, 1.0, 0.0]), grey());
    assert_eq!(f(h.t), 2.5);
    assert_eq!(a3(h.p), [1.0, 2.0, 3.0]);
    assert_eq!(a3(h.normal), [0.0, 1.0, 0.0]);
    assert!(matches!(h.material, Material::Lambertian(_)));
}

#[test]
fn a_hitable_answers_as_its_sphere_does() {
    let center = [0.0, 0.0, -1.0];
    let rs = roots(center, 0.5, [0.0, 0.0, 0.0], [0.0, 0.0, -1.0]);
    let h = Hitable::new(sphere(center, 0.5), rs);
    assert_eq!(f(unwrap(h.hit(s(0.001), s(f32::MAX))).t), 0.5);
    assert_eq!(f(unwrap(h.hit(s(0.5), s(f32::MAX))).t), 1.5);
    assert!(h.hit(s(0.001), s(0.5)).is_none());
}
