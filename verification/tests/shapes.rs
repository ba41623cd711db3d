// Ray/shape intersection behaviour on concrete geometry, in
// fixed-point thousandths (1.0 unit == 1000).

use raytrace::plane::Plane;
use raytrace::ray::Ray;
use raytrace::rectangle::Rectangle;
use raytrace::sphere::Sphere;
use raytrace::vec3::Vec3;

#[test]
fn test_intersect() {
    let s1 = Sphere::new(Vec3::new(0, 0, 0), Vec3::new(0, 0, 0), 1000);
    let r1 = Ray::new(Vec3::new(-5000, 0, 0), Vec3::new(1000, 0, 0), 5);
    assert_eq!(s1.intersect(&r1), Some(vec![4000, 6000]));
}

#[test]
fn test_intersect2() {
    let s1 = Sphere::new(Vec3::new(0, 0, 2000), Vec3::new(0, 0, 0), 1000);
    let r1 = Ray::new(Vec3::new(0, 0, 0), Vec3::new(0, 0, 1000), 5);
    assert_eq!(s1.intersect(&r1), Some(vec![1000, 3000]));
}

#[test]
fn test_intersect3() {
    let s1 = Sphere::new(Vec3::new(0, 0, 2000), Vec3::new(0, 0, 0), 1000);
    let r1 = Ray::new(Vec3::new(0, 0, 0), Vec3::new(1000, 0, 0), 5);
    assert_eq!(s1.intersect(&r1), None);
}

#[test]
fn test_rectangle_intersect() {
    let r = Rectangle::new(
        Vec3::new(0, 0, 1000),
        2000,
        2000,
        Vec3::new(1000, 0, 0),
        Vec3::new(0, 1000, 0),
    );
    let ray = Ray::new(Vec3::new(-100, 0, 0), Vec3::new(0, 0, 1000), 5);
    let intersections = r.intersect(&ray);
    assert_eq!(intersections, Some(vec![1000]));
}

// A ray starting inside the sphere never reports a root below the
// self-intersection threshold: the near root would be negative, so the
// intersection reports nothing rather than a distance behind the origin.
#[test]
fn sphere_ray_from_inside_reports_nothing() {
    let s = Sphere::new(Vec3::new(0, 0, 0), Vec3::new(0, 0, 0), 1000);
    let r = Ray::new(Vec3::new(0, 0, 0), Vec3::new(1000, 0, 0), 5);
    assert_eq!(s.intersect(&r), None);
}

#[test]
fn sphere_grazing_miss() {
    let s = Sphere::new(Vec3::new(0, 0, 0), Vec3::new(0, 0, 0), 1000);
    let r = Ray::new(Vec3::new(-5000, 2000, 0), Vec3::new(1000, 0, 0), 5);
    assert_eq!(s.intersect(&r), None);
}

#[test]
fn plane_head_on_hit() {
    let p = Plane::new(Vec3::new(0, 0, 3000), Vec3::new(0, 0, 1000));
    let r = Ray::new(Vec3::new(0, 0, 0), Vec3::new(0, 0, 1000), 5);
    assert_eq!(p.intersect(&r), Some(vec![3000]));
}

#[test]
fn plane_parallel_ray_misses() {
    let p = Plane::new(Vec3::new(0, 0, 3000), Vec3::new(0, 0, 1000));
    let r = Ray::new(Vec3::new(0, 0, 0), Vec3::new(1000, 0, 0), 5);
    assert_eq!(p.intersect(&r), None);
}

#[test]
fn plane_normal_faces_incoming_ray() {
    let p = Plane::new(Vec3::new(0, 0, 3000), Vec3::new(0, 0, 1000));
    let down = p.norm(&Vec3::new(0, 0, 3000), &Vec3::new(0, 0, 1000));
    assert_eq!(down, Vec3::new(0, 0, -1000));
    let up = p.norm(&Vec3::new(0, 0, 3000), &Vec3::new(0, 0, -1000));
    assert_eq!(up, Vec3::new(0, 0, 1000));
}

#[test]
fn rectangle_hit_outside_extent_misses() {
    let r = Rectangle::new(
        Vec3::new(0, 0, 1000),
        2000,
        2000,
        Vec3::new(1000, 0, 0),
        Vec3::new(0, 1000, 0),
    );
    let ray = Ray::new(Vec3::new(-3000, 0, 0), Vec3::new(0, 0, 1000), 5);
    assert_eq!(r.intersect(&ray), None);
}

#[test]
fn sphere_normal_points_outward() {
    let s = Sphere::new(Vec3::new(0, 0, 0), Vec3::new(0, 0, 0), 1000);
    let n = s.norm(&Vec3::new(1000, 0, 0), &Vec3::new(-1000, 0, 0));
    assert_eq!(n, Vec3::new(1000, 0, 0));
}

#[test]
fn vector_algebra_basics() {
    let v = Vec3::new(3000, 4000, 0);
    assert_eq!(v.length(), 5000);
    assert_eq!(v.normalize(), Vec3::new(600, 800, 0));
    let a = Vec3::new(1000, 0, 0);
    let b = Vec3::new(0, 1000, 0);
    assert_eq!(a.cross(&b), Vec3::new(0, 0, 1_000_000));
    assert_eq!(a.dot(&b), 0);
    assert_eq!(a.plus(&b), Vec3::new(1000, 1000, 0));
    assert_eq!(a.minus(&b), Vec3::new(1000, -1000, 0));
    assert_eq!(Vec3::new(2000, 0, 0).scaled(1500), Vec3::new(3000, 0, 0));
}
