// The implicit surface: the expression grammar, the fixed-point
// evaluator, and root finding along a ray.

use raytrace::any_shape::Any;
use raytrace::expr::{eval, parse_equation, Expr};
use raytrace::ray::Ray;
use raytrace::vec3::Vec3;

#[test]
fn evaluator_computes_fixed_point_values() {
    // x*x + y*y + z*z - 1, at (1, 0, 0): exactly on the unit sphere
    let e = parse_equation("x*x + y*y + z*z - 1").expect("well-formed equation");
    assert_eq!(eval(&e, 1000, 0, 0), Some(0));
    assert_eq!(eval(&e, 0, 0, 0), Some(-1000));
    assert_eq!(eval(&e, 2000, 0, 0), Some(3000));
}

#[test]
fn parser_handles_literals_parentheses_and_negation() {
    let e = parse_equation("-(x - 2.5)").expect("well-formed equation");
    assert_eq!(eval(&e, 1000, 0, 0), Some(1500));
    let two_digit = parse_equation("0.25").expect("fractions up to thousandths parse");
    assert_eq!(eval(&two_digit, 0, 0, 0), Some(250));
}

#[test]
fn parser_rejects_malformed_text() {
    assert!(parse_equation("x +").is_none());
    assert!(parse_equation("(x").is_none());
    assert!(parse_equation("x / y").is_none());
    assert!(parse_equation("").is_none());
    assert!(parse_equation("1.2345").is_none());
}

#[test]
fn evaluator_reports_overflow_instead_of_wrapping() {
    // (big * big) overflows the machine range: the sample is undefined
    let big = Expr::Const(4_000_000_000);
    let e = Expr::Mul(Box::new(big), Box::new(Expr::Const(4_000_000_000)));
    assert_eq!(eval(&e, 0, 0, 0), None);
}

// The plane x = 5: root finding lands exactly on t = 5 for a ray from
// the origin of the x axis.
#[test]
fn implicit_plane_root_is_found_exactly() {
    let a = Any::new(String::from("x - 5"));
    let r = Ray::new(Vec3::new(0, 0, 0), Vec3::new(1000, 0, 0), 5);
    assert_eq!(a.intersect(&r), Some(vec![5000]));
}

#[test]
fn unparsable_equation_never_hits() {
    let a = Any::new(String::from("q + 1"));
    let r = Ray::new(Vec3::new(0, 0, 0), Vec3::new(1000, 0, 0), 5);
    assert_eq!(a.intersect(&r), None);
    assert_eq!(a.equation(), "q + 1");
}

#[test]
fn equation_accessors_round_trip() {
    let mut a = Any::new(String::from("x"));
    assert_eq!(a.equation(), "x");
    a.set_equation(String::from("y"));
    assert_eq!(a.equation(), "y");
    let copy = a.clone();
    assert_eq!(copy.equation(), "y");
}

// Gradient normal of the unit sphere field at a surface point on the
// x axis points along x.
#[test]
fn gradient_normal_points_along_axis() {
    let a = Any::new(String::from("x*x + y*y + z*z - 1"));
    let n = a.norm(&Vec3::new(1000, 0, 0), &Vec3::new(-1000, 0, 0));
    assert_eq!(n, Vec3::new(1000, 0, 0));
}
