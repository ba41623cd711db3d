// Texture frames and (u, v) coordinates: the diamond-angle azimuth,
// the sphere's axial frame, and the shared linear frame.

use raytrace::element::Element;
use raytrace::material::Material;
use raytrace::projection::{diamond_angle_exec, linear_projection, Projection};
use raytrace::ray::Ray;
use raytrace::render::get_closest_hit;
use raytrace::scene::Scene;
use raytrace::shape::Shape;
use raytrace::sphere::Sphere;
use raytrace::texture::DispMap;
use raytrace::vec3::Vec3;

#[test]
fn diamond_angle_walks_the_quadrants() {
    assert_eq!(diamond_angle_exec(1000, 0), 0);
    assert_eq!(diamond_angle_exec(1000, 1000), 500);
    assert_eq!(diamond_angle_exec(0, 1000), 1000);
    assert_eq!(diamond_angle_exec(-1000, 0), 2000);
    assert_eq!(diamond_angle_exec(0, -1000), 3000);
    assert_eq!(diamond_angle_exec(0, 0), 0);
}

#[test]
fn sphere_projection_equator_and_pole() {
    let s = Sphere::new(Vec3::new(0, 0, 0), Vec3::new(0, 0, 1000), 1000);
    let equator = s.projection(&Vec3::new(1000, 0, 0));
    assert_eq!(equator.v, 500, "the equator sits halfway up the polar range");
    assert_eq!(equator.u, 750);
    assert_eq!(equator.k, Vec3::new(1000, 0, 0));
    // the frame is spanned from the normal: i = unit(n x axis), j = unit(n x i)
    assert_eq!(equator.i, Vec3::new(0, -1000, 0));
    assert_eq!(equator.j, Vec3::new(0, 0, -1000));
    let dot_ik = equator.i.x * equator.k.x + equator.i.y * equator.k.y + equator.i.z * equator.k.z;
    let dot_jk = equator.j.x * equator.k.x + equator.j.y * equator.k.y + equator.j.z * equator.k.z;
    let dot_ij = equator.i.x * equator.j.x + equator.i.y * equator.j.y + equator.i.z * equator.j.z;
    assert_eq!((dot_ik, dot_jk, dot_ij), (0, 0, 0), "the frame is orthogonal");
    let pole = s.projection(&Vec3::new(0, 0, 1000));
    assert_eq!(pole.v, 1000, "the axis end maps to the top of the polar range");
}

#[test]
fn linear_projection_wraps_offsets_into_tiles() {
    let p = linear_projection(
        &Vec3::new(0, 0, 0),
        &Vec3::new(1000, 2000, 0),
        &Vec3::new(0, 0, 1000),
    );
    assert_eq!(p.u, 750);
    assert_eq!(p.v, 500);
    assert_eq!(p.k, Vec3::new(0, 0, 1000));
}

#[test]
fn default_projection_is_the_canonical_frame() {
    let d = Projection::default();
    assert_eq!(d.i, Vec3::new(1000, 0, 0));
    assert_eq!(d.j, Vec3::new(0, 1000, 0));
    assert_eq!(d.k, Vec3::new(0, 0, 1000));
    assert_eq!((d.u, d.v), (0, 0));
}

// An element whose material names a flat height map resolves through
// the displacement search and still lands on the undisplaced surface.
#[test]
fn displaced_element_with_flat_map_hits_plain_surface() {
    let mut scene = Scene::new();
    let tex = scene.add_texture(DispMap::flat(8, 8));
    let mut mat = Material::new(raytrace::color::Color::new(1000, 1000, 1000));
    mat.set_displacement(Some(tex as u32));
    scene.add_element(Element::new(
        Shape::Sphere(Sphere::new(Vec3::new(10_000, 0, 0), Vec3::new(0, 0, 1000), 2000)),
        mat,
    ));
    let r = Ray::new(Vec3::new(0, 0, 0), Vec3::new(1000, 0, 0), 5);
    let hit = get_closest_hit(&scene, &r).expect("the displaced sphere is dead ahead");
    assert_eq!(hit.dist(), 8000);
}
