// The displacement resolver: degeneration on a flat map, saturation on
// a full map, and height-field sampling.

use raytrace::ray::Ray;
use raytrace::sphere::Sphere;
use raytrace::texture::DispMap;
use raytrace::vec3::Vec3;

// With an all-zero displacement map the resolver must degenerate to the
// plain, undisplaced intersection: identical distances.
#[test]
fn flat_map_degenerates_to_plain_intersection() {
    let s = Sphere::new(Vec3::new(0, 0, 0), Vec3::new(0, 0, 0), 10_000);
    let r = Ray::new(Vec3::new(-50_000, 0, 0), Vec3::new(1000, 0, 0), 5);
    let flat = DispMap::flat(8, 8);
    let displaced = s.intersect_displacement(&r, &flat);
    let plain = s.intersect(&r);
    assert_eq!(displaced, plain);
    assert_eq!(displaced, Some(vec![40_000, 60_000]));
}

// With a map at full height everywhere, the resolver settles on the
// fully inflated sphere: radius grows by a tenth.
#[test]
fn full_map_resolves_to_outer_bound() {
    let s = Sphere::new(Vec3::new(0, 0, 0), Vec3::new(0, 0, 0), 10_000);
    let r = Ray::new(Vec3::new(-50_000, 0, 0), Vec3::new(1000, 0, 0), 5);
    let full = DispMap::from_values(4, 4, vec![1000; 16]);
    let displaced = s.intersect_displacement(&r, &full);
    assert_eq!(displaced, Some(vec![39_000, 61_000]));
}

// A ray that misses even the inflated sphere reports nothing.
#[test]
fn displaced_miss_is_still_a_miss() {
    let s = Sphere::new(Vec3::new(0, 0, 0), Vec3::new(0, 0, 0), 10_000);
    let r = Ray::new(Vec3::new(-50_000, 20_000, 0), Vec3::new(1000, 0, 0), 5);
    let flat = DispMap::flat(4, 4);
    assert_eq!(s.intersect_displacement(&r, &flat), None);
}

#[test]
fn height_field_sampling_and_clamping() {
    let m = DispMap::from_values(2, 2, vec![-50, 250, 500, 2000]);
    // entries clamp into [0, 1000]
    assert_eq!(m.sample(0, 0), 0);
    assert_eq!(m.sample(999, 0), 250);
    assert_eq!(m.sample(0, 999), 500);
    assert_eq!(m.sample(999, 999), 1000);
}

#[test]
fn flat_map_samples_zero_everywhere() {
    let m = DispMap::flat(3, 3);
    assert_eq!(m.sample(0, 0), 0);
    assert_eq!(m.sample(500, 500), 0);
    assert_eq!(m.sample(999, 999), 0);
}
