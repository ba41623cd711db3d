// Hit resolution, shading and scene bookkeeping.

use raytrace::color::Color;
use raytrace::element::{ComposedElement, ComposedShape, Element};
use raytrace::light::Light;
use raytrace::material::Material;
use raytrace::ray::Ray;
use raytrace::render::{cast_ray, get_closest_hit};
use raytrace::scene::Scene;
use raytrace::shape::Shape;
use raytrace::sphere::Sphere;
use raytrace::vec3::Vec3;

fn white() -> Color {
    Color::new(1000, 1000, 1000)
}

fn sphere_at(x: i64, radius: i64) -> Shape {
    Shape::Sphere(Sphere::new(Vec3::new(x, 0, 0), Vec3::new(0, 0, 0), radius))
}

#[test]
fn closest_element_wins() {
    let mut scene = Scene::new();
    let far = scene.add_element(Element::new(sphere_at(20_000, 1000), Material::new(white())));
    let near = scene.add_element(Element::new(sphere_at(10_000, 1000), Material::new(white())));
    let r = Ray::new(Vec3::new(0, 0, 0), Vec3::new(1000, 0, 0), 5);
    let hit = get_closest_hit(&scene, &r).expect("the ray runs through both spheres");
    assert_eq!(hit.dist(), 9000);
    assert_eq!(hit.element_id(), near);
    assert_ne!(hit.element_id(), far);
    assert_eq!(*hit.pos(), Vec3::new(9000, 0, 0));
    assert_eq!(*hit.norm(), Vec3::new(-1000, 0, 0));
}

#[test]
fn equal_distances_resolve_to_first_element() {
    let mut scene = Scene::new();
    let first = scene.add_element(Element::new(sphere_at(10_000, 1000), Material::new(white())));
    let _second = scene.add_element(Element::new(sphere_at(10_000, 1000), Material::new(white())));
    let r = Ray::new(Vec3::new(0, 0, 0), Vec3::new(1000, 0, 0), 5);
    let hit = get_closest_hit(&scene, &r).expect("both spheres sit in the ray's path");
    assert_eq!(hit.element_id(), first);
}

#[test]
fn empty_scene_has_no_hit_and_black_pixels() {
    let scene = Scene::new();
    let r = Ray::new(Vec3::new(0, 0, 0), Vec3::new(1000, 0, 0), 5);
    assert!(get_closest_hit(&scene, &r).is_none());
    let c = cast_ray(&scene, &r);
    assert_eq!((c.r(), c.g(), c.b()), (0, 0, 0));
}

// Default ambient light is white at half strength, so an unlit white
// sphere shades to exactly half intensity.
#[test]
fn ambient_only_shading_is_half_white() {
    let mut scene = Scene::new();
    scene.add_element(Element::new(sphere_at(10_000, 1000), Material::new(white())));
    let r = Ray::new(Vec3::new(0, 0, 0), Vec3::new(1000, 0, 0), 5);
    let c = cast_ray(&scene, &r);
    assert_eq!((c.r(), c.g(), c.b()), (500, 500, 500));
}

#[test]
fn point_light_diffuse_follows_inverse_square() {
    let l = Light::new(Vec3::new(0, 0, 2000), 1000, white());
    let c = l.get_diffuse(&Vec3::new(0, 0, 0), &Vec3::new(0, 0, 1000));
    assert_eq!((c.r(), c.g(), c.b()), (250, 250, 250));
}

#[test]
fn light_behind_surface_contributes_nothing() {
    let l = Light::new(Vec3::new(0, 0, -2000), 1000, white());
    let c = l.get_diffuse(&Vec3::new(0, 0, 0), &Vec3::new(0, 0, 1000));
    assert_eq!((c.r(), c.g(), c.b()), (0, 0, 0));
}

#[test]
fn scene_hands_out_unique_increasing_ids() {
    let mut scene = Scene::new();
    let a = scene.add_element(Element::new(sphere_at(10_000, 1000), Material::new(white())));
    let b = scene.add_element(Element::new(sphere_at(20_000, 1000), Material::new(white())));
    let c = scene.add_element(Element::new(sphere_at(30_000, 1000), Material::new(white())));
    assert_eq!((a, b, c), (0, 1, 2));
    assert_eq!(scene.elements().len(), 3);
}

#[test]
fn composed_group_pushes_material_to_members() {
    let e1 = Element::new(sphere_at(10_000, 1000), Material::default());
    let e2 = Element::new(sphere_at(20_000, 1000), Material::default());
    let group_material = Material::new(white());
    let mut composed = ComposedElement::new(ComposedShape::new(vec![e1, e2], group_material));
    composed.set_id(7);
    composed.update();
    assert_eq!(composed.id(), 7);
    assert_eq!(*composed.material(), group_material);
    for member in composed.composed_shape().elements.iter() {
        assert_eq!(*member.material(), group_material);
    }
}

#[test]
fn color_conversions_round_values() {
    let c = Color::new(1000, 500, 0);
    assert_eq!(c.to_rgba(), [255, 127, 0, 255]);
    let back = Color::from_rgba(&[255, 0, 51, 255]);
    assert_eq!((back.r(), back.g(), back.b()), (1000, 0, 200));
    let mut g = Color::new(250, 1000, 0);
    g.apply_gamma();
    assert_eq!((g.r(), g.g(), g.b()), (500, 1000, 0));
    assert_eq!(Color::new(100, 200, 300).as_weight(), 600);
    let clamped = Color::new(-50, 1200, 400).clamp(0, 1000);
    assert_eq!((clamped.r(), clamped.g(), clamped.b()), (0, 1000, 400));
}
