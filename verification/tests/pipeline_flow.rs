// The coordinator state machine: coalescing, frame counting and
// freshness; plus a full frame fill.

use raytrace::element::Element;
use raytrace::material::Material;
use raytrace::pipeline::Pipeline;
use raytrace::ray::Ray;
use raytrace::render::render_frame;
use raytrace::scene::Scene;
use raytrace::shape::Shape;
use raytrace::sphere::Sphere;
use raytrace::vec3::Vec3;

// A burst of redraw signals while the worker is mid-render yields
// exactly one follow-up frame: no fewer than one, no more than the
// number of signals, and the last frame reflects the newest state.
#[test]
fn redraw_burst_coalesces_to_one_followup_frame() {
    let mut p = Pipeline::new();
    assert!(p.signal(), "an idle coordinator starts a pass at once");
    let frames_before = p.frames_delivered;

    let n = 5;
    for _ in 0..n {
        assert!(!p.signal(), "signals during a pass never interrupt it");
    }

    assert!(p.finish_frame(), "pending state schedules one follow-up pass");
    assert!(!p.finish_frame(), "after the follow-up the pipeline settles");

    let extra = p.frames_delivered - frames_before - 1;
    assert_eq!(extra, 1);
    assert!(extra >= 1 && extra <= n);
    assert_eq!(p.delivered_gen, p.scene_gen, "no stale output once redraws settle");
    assert_eq!(p.scene_gen, 1 + n);
    assert!(!p.worker_busy);
}

#[test]
fn single_signal_single_frame() {
    let mut p = Pipeline::new();
    assert!(p.signal());
    assert!(!p.finish_frame());
    assert_eq!(p.frames_delivered, 1);
    assert_eq!(p.delivered_gen, 1);
    assert_eq!(p.scene_gen, 1);
}

#[test]
fn render_pass_generation_is_stable_during_burst() {
    let mut p = Pipeline::new();
    p.signal();
    let g = p.current_generation();
    p.signal();
    p.signal();
    assert_eq!(p.current_generation(), g, "the in-flight pass keeps its generation");
}

#[test]
fn frame_fill_covers_every_pixel() {
    let mut scene = Scene::new();
    scene.add_element(Element::new(
        Shape::Sphere(Sphere::new(Vec3::new(10_000, 0, 0), Vec3::new(0, 0, 0), 1000)),
        Material::new(raytrace::color::Color::new(1000, 1000, 1000)),
    ));
    let mut rays: Vec<Vec<Ray>> = Vec::new();
    for _x in 0..2 {
        let mut column: Vec<Ray> = Vec::new();
        for y in 0..2 {
            // one ray straight down the x axis, the rest angled away
            let dir = if y == 0 { Vec3::new(1000, 0, 0) } else { Vec3::new(0, 1000, 0) };
            column.push(Ray::new(Vec3::new(0, 0, 0), dir, 5));
        }
        rays.push(column);
    }
    let f = render_frame(&scene, &rays, 2, 2, 9);
    assert_eq!(f.width, 2);
    assert_eq!(f.height, 2);
    assert_eq!(f.generation, 9);
    assert_eq!(f.data.len(), 16);
    // row 0 (y == 0): both rays hit the sphere and shade to half white
    let half = 500 * 255 / 1000;
    assert_eq!(&f.data[0..4], &[half as u8, half as u8, half as u8, 255]);
    // row 1 (y == 1): both rays miss; black with opaque alpha
    assert_eq!(&f.data[8..12], &[0, 0, 0, 255]);
}
