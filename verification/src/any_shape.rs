//! The free-form implicit surface: `f(x, y, z) = 0` for an equation
//! evaluated in fixed point, intersected by damped root finding.

use vstd::prelude::*;
use crate::expr::{eval, eval_ok, eval_spec, parse_equation, parse_equation_spec, Expr};
use crate::fixed::{absi, div_trunc, SCALE};
use crate::projection::{linear_projection, linear_projection_spec, Projection};
use crate::ray::{point_at, Ray, HIT_EPSILON, MAX_T};
use crate::vec3::{bounded, lemma_norm_sq_nonneg, norm_sq, Vec3, MAX_POS};

verus! {

/// Residual threshold below which a point counts as on the surface.
pub const ROOT_TOLERANCE: i64 = 10;

/// An implicit surface: the equation text, its parsed field (absent
/// when the text does not parse; such a surface is never hit), and an
/// anchor point for texturing.
#[derive(Debug)]
pub struct Any {
    pub equation: String,
    pub pos: Vec3,
    pub expr: Option<Expr>,
}

/// The field an equation text denotes: its parse under the crate's
/// grammar, over the text's byte encoding.
pub open spec fn parsed_equation(s: Seq<char>) -> Option<Expr> {
    parse_equation_spec(vstd::utf8::encode_utf8(s))
}

impl Any {
    // Accessors
    pub fn equation(&self) -> (r: &String)
        ensures
            r@ == self.equation@,
    {
        &self.equation
    }

    // Mutators
    pub fn set_equation(&mut self, equation: String)
        ensures
            final(self).equation@ == equation@,
            final(self).expr == parsed_equation(equation@),
            final(self).pos == old(self).pos,
    {
        self.expr = parse_equation(equation.as_str());
        self.equation = equation;
    }

    // Constructor
    pub fn new(equation: String) -> (r: Any)
        ensures
            r.equation@ == equation@,
            r.expr == parsed_equation(equation@),
            r.pos == (Vec3 { x: 0i64, y: 0i64, z: 0i64 }),
    {
        let expr = parse_equation(equation.as_str());
        Any { equation, pos: Vec3 { x: 0, y: 0, z: 0 }, expr }
    }

    // Methods
    pub fn clone(&self) -> (r: Any)
        ensures
            r.equation@ == self.equation@,
            r.pos == self.pos,
            r.expr == self.expr,
    {
        Any { equation: clone_string(&self.equation), pos: self.pos, expr: clone_expr_opt(&self.expr) }
    }

    /// The field value at the ray's point at distance `t`, when defined.
    pub open spec fn field_at(self, r: Ray, t: int) -> int {
        let p = point_at(r, t);
        eval_spec(self.expr->Some_0, p.x as int, p.y as int, p.z as int)
    }

    /// Whether that value is defined (parses and evaluates in range).
    pub open spec fn field_ok(self, r: Ray, t: int) -> bool {
        &&& self.expr is Some
        &&& {
            let p = point_at(r, t);
            eval_ok(self.expr->Some_0, p.x as int, p.y as int, p.z as int)
        }
    }

    /// Ray/surface intersection by a bounded damped secant search from a
    /// fixed initial guess.  A returned distance is a certified root:
    /// positive, within range, and with a field residual at most
    /// `ROOT_TOLERANCE`.  An unparsable equation, an undefined sample or
    /// a search that fails to converge yields no hit; a surface already
    /// within tolerance at the initial guess is always reported.
    pub fn intersect(&self, r: &Ray) -> (res: Option<Vec<i64>>)
        requires
            r.valid(),
        ensures
            match res {
                Some(v) => {
                    &&& v@.len() == 1
                    &&& HIT_EPSILON < v@[0] <= MAX_T
                    &&& self.field_ok(*r, v@[0] as int)
                    &&& absi(self.field_at(*r, v@[0] as int)) <= ROOT_TOLERANCE
                },
                None => true,
            },
            self.expr is None ==> res is None,
            (self.field_ok(*r, 500) && absi(self.field_at(*r, 500)) <= ROOT_TOLERANCE) ==> (
            res matches Some(v) && v@[0] == 500),
    {
        let e = match &self.expr {
            Some(e) => e,
            None => {
                return None;
            },
        };
        let p_start = r.at(500);
        match eval(e, p_start.x, p_start.y, p_start.z) {
            Some(f) => {
                if f > -ROOT_TOLERANCE - 1 && f < ROOT_TOLERANCE + 1 {
                    let mut v: Vec<i64> = Vec::new();
                    v.push(500);
                    return Some(v);
                }
            },
            None => {
                return None;
            },
        }
        let mut t: i64 = 500;
        let mut fuel: u32 = 48;
        while fuel > 0
            invariant
                r.valid(),
                self.expr is Some,
                self.expr->Some_0 == *e,
                0 < t <= MAX_T,
                !(self.field_ok(*r, 500) && absi(self.field_at(*r, 500)) <= ROOT_TOLERANCE),
            decreases fuel,
        {
            fuel = fuel - 1;
            let p = r.at(t);
            let f = match eval(e, p.x, p.y, p.z) {
                Some(f) => f,
                None => {
                    return None;
                },
            };
            if f > -ROOT_TOLERANCE - 1 && f < ROOT_TOLERANCE + 1 {
                if t > HIT_EPSILON {
                    let mut v: Vec<i64> = Vec::new();
                    v.push(t);
                    return Some(v);
                }
                return None;
            }
            if t + 1 > MAX_T || t - 1 < 1 {
                return None;
            }
            let p1 = r.at(t + 1);
            let p2 = r.at(t - 1);
            let f1 = match eval(e, p1.x, p1.y, p1.z) {
                Some(f) => f,
                None => {
                    return None;
                },
            };
            let f2 = match eval(e, p2.x, p2.y, p2.z) {
                Some(f) => f,
                None => {
                    return None;
                },
            };
            let dnum: i128 = (f1 as i128) - (f2 as i128);
            if dnum == 0 {
                return None;
            }
            let step_wide: i128 = 2 * (f as i128);
            let q = div_trunc_i128(step_wide, dnum);
            let q_clamped: i64 = if q > 1_000_000_000 {
                1_000_000_000
            } else if q < -1_000_000_000 {
                -1_000_000_000
            } else {
                q as i64
            };
            let t_next_wide: i128 = (t as i128) - (q_clamped as i128);
            if t_next_wide < 1 || t_next_wide > (MAX_T as i128) {
                return None;
            }
            t = t_next_wide as i64;
        }
        None
    }

    /// Whether the central-difference gradient at a point is defined:
    /// all three axis slopes evaluate in range.
    pub open spec fn gradient_defined(e: Expr, hp: Vec3) -> bool {
        &&& slope_defined(e, hp.x + 1, hp.y as int, hp.z as int, hp.x - 1, hp.y as int,
            hp.z as int)
        &&& slope_defined(e, hp.x as int, hp.y + 1, hp.z as int, hp.x as int, hp.y - 1,
            hp.z as int)
        &&& slope_defined(e, hp.x as int, hp.y as int, hp.z + 1, hp.x as int, hp.y as int,
            hp.z - 1)
    }

    /// The central-difference gradient at a point, as a vector.
    pub open spec fn gradient_v(e: Expr, hp: Vec3) -> Vec3 {
        Vec3 {
            x: slope_of(e, hp.x + 1, hp.y as int, hp.z as int, hp.x - 1, hp.y as int,
                hp.z as int) as i64,
            y: slope_of(e, hp.x as int, hp.y + 1, hp.z as int, hp.x as int, hp.y - 1,
                hp.z as int) as i64,
            z: slope_of(e, hp.x as int, hp.y as int, hp.z + 1, hp.x as int, hp.y as int,
                hp.z - 1) as i64,
        }
    }

    /// The value `norm` returns: the normalized central-difference
    /// gradient, or the canonical axis when the equation is unparsed or
    /// the gradient is undefined, vanishing, or out of range.
    pub open spec fn norm_spec(self, hp: Vec3) -> Vec3 {
        if self.expr is Some {
            let e = self.expr->Some_0;
            if Self::gradient_defined(e, hp) {
                let g = Self::gradient_v(e, hp);
                if (g.x != 0 || g.y != 0 || g.z != 0) && bounded(g, 1_000_000_000_000) {
                    crate::vec3::unit_v(g)
                } else {
                    Vec3 { x: 0, y: 0, z: SCALE }
                }
            } else {
                Vec3 { x: 0, y: 0, z: SCALE }
            }
        } else {
            Vec3 { x: 0, y: 0, z: SCALE }
        }
    }

    /// Outward normal at a point: the normalized central-difference
    /// gradient of the field, or the canonical axis when the gradient is
    /// undefined, vanishing, or out of range.
    pub fn norm(&self, hit_position: &Vec3, _ray_dir: &Vec3) -> (n: Vec3)
        requires
            bounded(*hit_position, 1_100_000_000_000_000),
        ensures
            n == self.norm_spec(*hit_position),
            bounded(n, SCALE as int),
    {
        let e = match &self.expr {
            Some(e) => e,
            None => {
                return Vec3 { x: 0, y: 0, z: SCALE };
            },
        };
        let x = hit_position.x;
        let y = hit_position.y;
        let z = hit_position.z;
        let gx = gradient_component(e, x + 1, y, z, x - 1, y, z);
        let gy = gradient_component(e, x, y + 1, z, x, y - 1, z);
        let gz = gradient_component(e, x, y, z + 1, x, y, z - 1);
        match (gx, gy, gz) {
            (Some(gx), Some(gy), Some(gz)) => {
                let g = Vec3 { x: gx, y: gy, z: gz };
                proof {
                    lemma_norm_sq_nonneg(g);
                }
                if (gx != 0 || gy != 0 || gz != 0) && gx <= 1_000_000_000_000 && gx
                    >= -1_000_000_000_000 && gy <= 1_000_000_000_000 && gy >= -1_000_000_000_000
                    && gz <= 1_000_000_000_000 && gz >= -1_000_000_000_000 {
                    proof {
                        assert(norm_sq(g) != 0) by (nonlinear_arith)
                            requires
                                norm_sq(g) == g.x * g.x + g.y * g.y + g.z * g.z,
                                g.x != 0 || g.y != 0 || g.z != 0,
                        ;
                    }
                    g.normalize()
                } else {
                    Vec3 { x: 0, y: 0, z: SCALE }
                }
            },
            _ => Vec3 { x: 0, y: 0, z: SCALE },
        }
    }

    /// Texture projection at a hit: the linear frame anchored at the
    /// surface's anchor point.
    pub fn projection(&self, hit_pos: &Vec3, hit_norm: &Vec3) -> (p: Projection)
        requires
            bounded(self.pos, 2 * MAX_POS as int),
            bounded(*hit_pos, 2_000_000_000_000_000),
            bounded(*hit_norm, SCALE as int),
            norm_sq(*hit_norm) > 0,
        ensures
            p == linear_projection_spec(self.pos, *hit_pos, *hit_norm),
            0 <= p.u < SCALE,
            0 <= p.v < SCALE,
    {
        linear_projection(&self.pos, hit_pos, hit_norm)
    }
}

/// The central-difference slope between two sample points: half the
/// difference of the field values, truncated.
pub open spec fn slope_of(e: Expr, x1: int, y1: int, z1: int, x2: int, y2: int, z2: int) -> int {
    div_trunc(eval_spec(e, x1, y1, z1) - eval_spec(e, x2, y2, z2), 2)
}

/// Whether that slope is defined: both samples evaluate in range and
/// the slope itself fits the machine range.
pub open spec fn slope_defined(
    e: Expr,
    x1: int,
    y1: int,
    z1: int,
    x2: int,
    y2: int,
    z2: int,
) -> bool {
    &&& eval_ok(e, x1, y1, z1)
    &&& eval_ok(e, x2, y2, z2)
    &&& i64::MIN <= slope_of(e, x1, y1, z1, x2, y2, z2) <= i64::MAX
}

/// One central-difference slope sample, when both field values exist
/// and their difference fits the machine range.
fn gradient_component(
    e: &Expr,
    x1: i64,
    y1: i64,
    z1: i64,
    x2: i64,
    y2: i64,
    z2: i64,
) -> (r: Option<i64>)
    ensures
        r is Some <==> slope_defined(*e, x1 as int, y1 as int, z1 as int, x2 as int, y2 as int,
            z2 as int),
        r matches Some(v) ==> v == slope_of(*e, x1 as int, y1 as int, z1 as int, x2 as int,
            y2 as int, z2 as int),
{
    let f1 = eval(e, x1, y1, z1);
    let f2 = eval(e, x2, y2, z2);
    match (f1, f2) {
        (Some(f1), Some(f2)) => {
            let d: i128 = (f1 as i128) - (f2 as i128);
            let half: i128 = div_trunc_i128(d, 2);
            if half > i64::MAX as i128 || half < i64::MIN as i128 {
                None
            } else {
                Some(half as i64)
            }
        },
        _ => None,
    }
}

/// Clones a string by content.
fn clone_string(s: &String) -> (r: String)
    ensures
        r@ == s@,
{
    s.clone()
}

/// Clones a parsed field.
fn clone_expr_opt(e: &Option<Expr>) -> (r: Option<Expr>)
    ensures
        r == *e,
{
    match e {
        Some(e) => Some(clone_expr(e)),
        None => None,
    }
}

fn clone_expr(e: &Expr) -> (r: Expr)
    ensures
        r == *e,
    decreases *e,
{
    match e {
        Expr::Const(c) => Expr::Const(*c),
        Expr::X => Expr::X,
        Expr::Y => Expr::Y,
        Expr::Z => Expr::Z,
        Expr::Add(a, b) => Expr::Add(Box::new(clone_expr(a)), Box::new(clone_expr(b))),
        Expr::Sub(a, b) => Expr::Sub(Box::new(clone_expr(a)), Box::new(clone_expr(b))),
        Expr::Mul(a, b) => Expr::Mul(Box::new(clone_expr(a)), Box::new(clone_expr(b))),
        Expr::Neg(a) => Expr::Neg(Box::new(clone_expr(a))),
    }
}

/// Truncating division on wide machine integers.
fn div_trunc_i128(a: i128, b: i128) -> (r: i128)
    requires
        b != 0,
        i128::MIN < a,
        i128::MIN < b,
    ensures
        r == div_trunc(a as int, b as int),
{
    let am: u128 = if a >= 0 {
        a as u128
    } else {
        (-a) as u128
    };
    let bm: u128 = if b >= 0 {
        b as u128
    } else {
        (-b) as u128
    };
    let q = am / bm;
    proof {
        crate::fixed::lemma_div_trunc_bound(a as int, b as int);
    }
    if (a >= 0) == (b >= 0) {
        q as i128
    } else {
        -(q as i128)
    }
}

} // verus!
