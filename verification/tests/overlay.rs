// The overlay bookkeeping and fixed-point scalar helpers.

use raytrace::fixed::{div_trunc_i64, emod_i64, isqrt};
use raytrace::gui::{get_line_position, gui_clicked, hitbox_contains, Editing, Gui, Statistics};
use raytrace::vec2::Vec2;

#[test]
fn line_positions_stack_downward() {
    let size = Vec2::new(200_000, 26_000);
    let p0 = get_line_position(0, &size);
    let p3 = get_line_position(3, &size);
    assert_eq!((p0.x(), p0.y()), (1_400_000, 0));
    assert_eq!((p3.x(), p3.y()), (1_400_000, 78_000));
}

#[test]
fn clicks_inside_the_overlay_region() {
    let mut gui = Gui::new();
    // a fresh overlay absorbs nothing
    assert!(!gui_clicked((1_500_000, 100_000), &gui));
    gui.keys.push(String::from("radius"));
    gui.values.push(String::from("1.0"));
    gui.hitboxes.push((Vec2::new(0, 0), Vec2::new(10_000, 10_000)));
    assert!(gui_clicked((1_500_000, 100_000), &gui));
    assert!(!gui_clicked((100_000, 100_000), &gui));
    assert!(!gui_clicked((1_500_000, 700_000), &gui));
}

#[test]
fn hitboxes_contain_their_interior() {
    let hb = (Vec2::new(10_000, 20_000), Vec2::new(30_000, 40_000));
    assert!(hitbox_contains(&hb, (20_000, 30_000)));
    assert!(hitbox_contains(&hb, (10_000, 40_000)));
    assert!(!hitbox_contains(&hb, (9_999, 30_000)));
    assert!(!hitbox_contains(&hb, (20_000, 40_001)));
}

#[test]
fn overlay_state_updates() {
    let mut gui = Gui::new();
    gui.keys.push(String::from("radius"));
    gui.values.push(String::from("1.0"));
    gui.hitboxes.push((Vec2::new(0, 0), Vec2::new(1, 1)));
    gui.set_element_index(4);
    gui.set_updating(true);
    gui.set_updating_index(2);
    assert_eq!(gui.element_index(), 4);
    assert!(gui.updating());
    assert_eq!(gui.updating_index(), 2);
    let new_box = (Vec2::new(5, 5), Vec2::new(6, 6));
    gui.set_updates(0, &String::from("2.0"), &new_box);
    assert_eq!(gui.values()[0], "2.0");
    assert_eq!(gui.hitboxes()[0], new_box);
    assert_eq!(gui.keys()[0], "radius");
}

#[test]
fn editing_and_statistics_hold_their_fields() {
    let e = Editing { reference: String::from("sphere.radius"), value: String::from("2.5") };
    assert_eq!(e.reference, "sphere.radius");
    assert_eq!(e.value, "2.5");
    let s = Statistics { fps: 60 };
    assert_eq!(s.fps, 60);
}

#[test]
fn fixed_point_helpers_are_exact() {
    assert_eq!(isqrt(0), 0);
    assert_eq!(isqrt(15), 3);
    assert_eq!(isqrt(16), 4);
    assert_eq!(isqrt(1_000_000_000_000), 1_000_000);
    assert_eq!(div_trunc_i64(7, 2), 3);
    assert_eq!(div_trunc_i64(-7, 2), -3);
    assert_eq!(div_trunc_i64(7, -2), -3);
    assert_eq!(emod_i64(7, 3), 1);
    assert_eq!(emod_i64(-7, 3), 2);
}
