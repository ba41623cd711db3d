//! Scalar fields over space: a closed expression grammar in `x`, `y`,
//! `z`, evaluated in fixed point with overflow reported rather than
//! wrapped.

use vstd::prelude::*;
use vstd::string::StringSliceAdditionalSpecFns;
use crate::fixed::{div_trunc, div_trunc_i64, fmul, SCALE};

verus! {

/// An implicit-surface equation `f(x, y, z)`; constants and coordinates
/// are fixed-point scalars.
#[derive(Debug)]
pub enum Expr {
    Const(i64),
    X,
    Y,
    Z,
    Add(Box<Expr>, Box<Expr>),
    Sub(Box<Expr>, Box<Expr>),
    Mul(Box<Expr>, Box<Expr>),
    Neg(Box<Expr>),
}

/// The mathematical value of the expression at a point, over unbounded
/// integers; products are fixed-point (`a * b / SCALE`, truncated).
pub open spec fn eval_spec(e: Expr, x: int, y: int, z: int) -> int
    decreases e,
{
    match e {
        Expr::Const(c) => c as int,
        Expr::X => x,
        Expr::Y => y,
        Expr::Z => z,
        Expr::Add(a, b) => eval_spec(*a, x, y, z) + eval_spec(*b, x, y, z),
        Expr::Sub(a, b) => eval_spec(*a, x, y, z) - eval_spec(*b, x, y, z),
        Expr::Mul(a, b) => fmul(eval_spec(*a, x, y, z), eval_spec(*b, x, y, z)),
        Expr::Neg(a) => -eval_spec(*a, x, y, z),
    }
}

/// Whether the whole evaluation stays within machine range, mirroring
/// exactly the checks the executable evaluator performs.
pub open spec fn eval_ok(e: Expr, x: int, y: int, z: int) -> bool
    decreases e,
{
    match e {
        Expr::Const(_) => true,
        Expr::X => true,
        Expr::Y => true,
        Expr::Z => true,
        Expr::Add(a, b) => {
            &&& eval_ok(*a, x, y, z)
            &&& eval_ok(*b, x, y, z)
            &&& i64::MIN <= eval_spec(*a, x, y, z) + eval_spec(*b, x, y, z) <= i64::MAX
        },
        Expr::Sub(a, b) => {
            &&& eval_ok(*a, x, y, z)
            &&& eval_ok(*b, x, y, z)
            &&& i64::MIN <= eval_spec(*a, x, y, z) - eval_spec(*b, x, y, z) <= i64::MAX
        },
        Expr::Mul(a, b) => {
            &&& eval_ok(*a, x, y, z)
            &&& eval_ok(*b, x, y, z)
            &&& i64::MIN < eval_spec(*a, x, y, z) * eval_spec(*b, x, y, z) <= i64::MAX
        },
        Expr::Neg(a) => {
            &&& eval_ok(*a, x, y, z)
            &&& eval_spec(*a, x, y, z) != i64::MIN
        },
    }
}

/// Evaluates the field at a point.  Returns the exact fixed-point value,
/// or nothing when an intermediate result leaves the machine range (the
/// caller treats that as an undefined sample, never as a root).
pub fn eval(e: &Expr, x: i64, y: i64, z: i64) -> (r: Option<i64>)
    ensures
        r is Some <==> eval_ok(*e, x as int, y as int, z as int),
        r matches Some(v) ==> v == eval_spec(*e, x as int, y as int, z as int),
    decreases *e,
{
    match e {
        Expr::Const(c) => Some(*c),
        Expr::X => Some(x),
        Expr::Y => Some(y),
        Expr::Z => Some(z),
        Expr::Add(a, b) => {
            let va = eval(a, x, y, z);
            let vb = eval(b, x, y, z);
            match (va, vb) {
                (Some(va), Some(vb)) => va.checked_add(vb),
                _ => None,
            }
        },
        Expr::Sub(a, b) => {
            let va = eval(a, x, y, z);
            let vb = eval(b, x, y, z);
            match (va, vb) {
                (Some(va), Some(vb)) => va.checked_sub(vb),
                _ => None,
            }
        },
        Expr::Mul(a, b) => {
            let va = eval(a, x, y, z);
            let vb = eval(b, x, y, z);
            match (va, vb) {
                (Some(va), Some(vb)) => match va.checked_mul(vb) {
                    Some(p) => if p == i64::MIN {
                        None
                    } else {
                        Some(div_trunc_i64(p, SCALE))
                    },
                    None => None,
                },
                _ => None,
            }
        },
        Expr::Neg(a) => {
            let va = eval(a, x, y, z);
            match va {
                Some(va) => if va == i64::MIN {
                    None
                } else {
                    Some(-va)
                },
                None => None,
            }
        },
    }
}

/// An ASCII decimal digit.
pub open spec fn is_digit(c: u8) -> bool {
    48 <= c <= 57
}

/// How many blanks sit at position `i`.
pub open spec fn spaces_from(s: Seq<u8>, i: int) -> nat
    decreases s.len() - i,
{
    if i < s.len() && s[i] == 32 {
        (1 + spaces_from(s, i + 1)) as nat
    } else {
        0
    }
}

/// Input remaining at position `i`, clamped so it can serve as a
/// termination measure.
pub open spec fn rem(s: Seq<u8>, i: int) -> int {
    if i <= s.len() {
        s.len() - i
    } else {
        0
    }
}

/// Nesting budget remaining below the depth cap, clamped likewise.
pub open spec fn depth_rem(depth: int) -> int {
    if depth <= 64 {
        64 - depth
    } else {
        0
    }
}

/// The integer-part scan: the accumulated value and the digits
/// consumed, stopping at a non-digit or once the value is saturated.
pub open spec fn whole_spec(s: Seq<u8>, i: int, w: int) -> (int, nat)
    decreases s.len() - i,
{
    if i < s.len() && is_digit(s[i]) && w < 1_000_000_000 {
        let n = whole_spec(s, i + 1, w * 10 + (s[i] - 48));
        (n.0, (1 + n.1) as nat)
    } else {
        (w, 0)
    }
}

/// The fraction scan: thousandths accumulated onto `value`, at most
/// three digits.
pub open spec fn frac_spec(s: Seq<u8>, i: int, place: int, digits: int, value: int) -> (
    int,
    nat,
)
    decreases s.len() - i,
{
    if i < s.len() && is_digit(s[i]) && digits < 3 {
        let n = frac_spec(
            s,
            i + 1,
            if place >= 10 {
                place / 10
            } else {
                1
            },
            digits + 1,
            value + place * (s[i] - 48),
        );
        (n.0, (1 + n.1) as nat)
    } else {
        (value, 0)
    }
}

/// The parse of `digits` or `digits.digits` into thousandths: more
/// than three fractional digits, or a value over a million units, is
/// rejected.
pub open spec fn parse_number_spec(s: Seq<u8>, i: int) -> (Option<Expr>, nat) {
    let w = whole_spec(s, i, 0);
    if w.1 == 0 || w.0 >= 1_000_000_000 {
        (None, w.1)
    } else {
        let j = i + w.1;
        if j < s.len() && s[j] == 46 {
            let f = frac_spec(s, j + 1, 100, 0, w.0 * 1000);
            let k = j + 1 + f.1;
            if f.1 == 0 {
                (None, (w.1 + 1) as nat)
            } else if k < s.len() && is_digit(s[k]) {
                (None, (w.1 + 1 + f.1) as nat)
            } else {
                (Some(Expr::Const(f.0 as i64)), (w.1 + 1 + f.1) as nat)
            }
        } else {
            (Some(Expr::Const((w.0 * 1000) as i64)), w.1)
        }
    }
}

/// The parse of a sum of terms at `i`: the expression (if the input is
/// well-formed there) and the bytes consumed.
pub open spec fn parse_sum_spec(s: Seq<u8>, i: int, depth: int) -> (Option<Expr>, nat)
    decreases depth_rem(depth), rem(s, i), 5int,
{
    if depth >= 64 {
        (None, 0)
    } else {
        let first = parse_term_spec(s, i, depth);
        match first.0 {
            None => (None, first.1),
            Some(e) => {
                let tail = parse_sum_tail_spec(s, i + first.1, depth, e);
                (tail.0, (first.1 + tail.1) as nat)
            },
        }
    }
}

/// The parse of the `+ term` / `- term` continuations onto `acc`.
pub open spec fn parse_sum_tail_spec(s: Seq<u8>, i: int, depth: int, acc: Expr) -> (
    Option<Expr>,
    nat,
)
    decreases depth_rem(depth), rem(s, i), 4int,
{
    let sp = spaces_from(s, i);
    let k = i + sp;
    if k < s.len() && (s[k] == 43 || s[k] == 45) {
        let rhs = parse_term_spec(s, k + 1, depth);
        match rhs.0 {
            None => (None, (sp + 1 + rhs.1) as nat),
            Some(e) => {
                let acc2 = if s[k] == 43 {
                    Expr::Add(Box::new(acc), Box::new(e))
                } else {
                    Expr::Sub(Box::new(acc), Box::new(e))
                };
                let tail = parse_sum_tail_spec(s, k + 1 + rhs.1, depth, acc2);
                (tail.0, (sp + 1 + rhs.1 + tail.1) as nat)
            },
        }
    } else {
        (Some(acc), sp)
    }
}

/// The parse of a product of factors at `i`.
pub open spec fn parse_term_spec(s: Seq<u8>, i: int, depth: int) -> (Option<Expr>, nat)
    decreases depth_rem(depth), rem(s, i), 3int,
{
    let first = parse_factor_spec(s, i, depth);
    match first.0 {
        None => (None, first.1),
        Some(e) => {
            let tail = parse_term_tail_spec(s, i + first.1, depth, e);
            (tail.0, (first.1 + tail.1) as nat)
        },
    }
}

/// The parse of the `* factor` continuations onto `acc`.
pub open spec fn parse_term_tail_spec(s: Seq<u8>, i: int, depth: int, acc: Expr) -> (
    Option<Expr>,
    nat,
)
    decreases depth_rem(depth), rem(s, i), 2int,
{
    let sp = spaces_from(s, i);
    let k = i + sp;
    if k < s.len() && s[k] == 42 {
        let rhs = parse_factor_spec(s, k + 1, depth);
        match rhs.0 {
            None => (None, (sp + 1 + rhs.1) as nat),
            Some(e) => {
                let tail = parse_term_tail_spec(
                    s,
                    k + 1 + rhs.1,
                    depth,
                    Expr::Mul(Box::new(acc), Box::new(e)),
                );
                (tail.0, (sp + 1 + rhs.1 + tail.1) as nat)
            },
        }
    } else {
        (Some(acc), sp)
    }
}

/// The parse of a possibly negated atom at `i`.
pub open spec fn parse_factor_spec(s: Seq<u8>, i: int, depth: int) -> (Option<Expr>, nat)
    decreases depth_rem(depth), rem(s, i), 1int,
{
    let sp = spaces_from(s, i);
    let k = i + sp;
    if k < s.len() && s[k] == 45 {
        let inner = parse_factor_spec(s, k + 1, depth);
        match inner.0 {
            Some(e) => (Some(Expr::Neg(Box::new(e))), (sp + 1 + inner.1) as nat),
            None => (None, (sp + 1 + inner.1) as nat),
        }
    } else {
        let a = parse_atom_spec(s, k, depth);
        (a.0, (sp + a.1) as nat)
    }
}

/// The parse of a literal, a coordinate, or a parenthesized sum at `i`.
pub open spec fn parse_atom_spec(s: Seq<u8>, i: int, depth: int) -> (Option<Expr>, nat)
    decreases depth_rem(depth), rem(s, i), 0int,
{
    let sp = spaces_from(s, i);
    let k = i + sp;
    if k >= s.len() {
        (None, sp)
    } else if s[k] == 120 {
        (Some(Expr::X), (sp + 1) as nat)
    } else if s[k] == 121 {
        (Some(Expr::Y), (sp + 1) as nat)
    } else if s[k] == 122 {
        (Some(Expr::Z), (sp + 1) as nat)
    } else if s[k] == 40 {
        let inner = parse_sum_spec(s, k + 1, depth + 1);
        match inner.0 {
            Some(e) => {
                let sp2 = spaces_from(s, k + 1 + inner.1);
                let k2 = k + 1 + inner.1 + sp2;
                if k2 < s.len() && s[k2] == 41 {
                    (Some(e), (sp + 1 + inner.1 + sp2 + 1) as nat)
                } else {
                    (None, (sp + 1 + inner.1 + sp2) as nat)
                }
            },
            None => (None, (sp + 1 + inner.1) as nat),
        }
    } else if is_digit(s[k]) {
        let num = parse_number_spec(s, k);
        (num.0, (sp + num.1) as nat)
    } else {
        (None, sp)
    }
}

/// The parse of a whole equation: a sum followed, up to blanks, by the
/// end of the input.
pub open spec fn parse_equation_spec(s: Seq<u8>) -> Option<Expr> {
    let p = parse_sum_spec(s, 0, 0);
    match p.0 {
        Some(e) => if p.1 + spaces_from(s, p.1 as int) == s.len() {
            Some(e)
        } else {
            None
        },
        None => None,
    }
}

/// Parses an equation over `x`, `y`, `z`: sums and differences of
/// products, unary minus, parentheses, and decimal literals with up to
/// three fractional digits.  Whitespace is skipped.  Anything else is
/// rejected, and the caller degrades to "no surface".
pub fn parse_equation(s: &str) -> (r: Option<Expr>)
    ensures
        r == parse_equation_spec(s.spec_bytes()),
{
    let bytes = s.as_bytes();
    let n = bytes.len();
    let mut i: usize = 0;
    let e = parse_sum(bytes, &mut i, 0);
    match e {
        Some(e) => {
            skip_spaces(bytes, &mut i);
            if i == n {
                Some(e)
            } else {
                None
            }
        },
        None => None,
    }
}

/// Advances past blanks.
fn skip_spaces(bytes: &[u8], i: &mut usize)
    requires
        *old(i) <= bytes@.len(),
    ensures
        *old(i) <= *final(i) <= bytes@.len(),
        *final(i) == *old(i) + spaces_from(bytes@, *old(i) as int),
{
    while *i < bytes.len() && bytes[*i] == 32u8
        invariant
            *i <= bytes@.len(),
            *old(i) <= *i,
            spaces_from(bytes@, *old(i) as int) == (*i - *old(i)) + spaces_from(
                bytes@,
                *i as int,
            ),
        decreases bytes@.len() - *i,
    {
        *i = *i + 1;
    }
}

/// Parses a sum of terms.
fn parse_sum(bytes: &[u8], i: &mut usize, depth: u32) -> (r: Option<Expr>)
    requires
        *old(i) <= bytes@.len(),
        depth <= 64,
    ensures
        *old(i) <= *final(i) <= bytes@.len(),
        r == parse_sum_spec(bytes@, *old(i) as int, depth as int).0,
        *final(i) == *old(i) + parse_sum_spec(bytes@, *old(i) as int, depth as int).1,
    decreases 64 - depth, bytes@.len() - *old(i), 5int,
{
    if depth >= 64 {
        return None;
    }
    let ghost i0 = *i;
    let first = parse_term(bytes, i, depth);
    let mut acc = match first {
        Some(e) => e,
        None => {
            return None;
        },
    };
    let ghost gi = *i;
    let ghost ga = acc;
    loop
        invariant
            *i <= bytes@.len(),
            gi <= *i,
            depth < 64,
            i0 == *old(i),
            i0 <= gi,
            parse_term_spec(bytes@, i0 as int, depth as int).0 == Some(ga),
            gi == i0 + parse_term_spec(bytes@, i0 as int, depth as int).1,
            parse_sum_tail_spec(bytes@, gi as int, depth as int, ga).0 == parse_sum_tail_spec(
                bytes@,
                *i as int,
                depth as int,
                acc,
            ).0,
            gi + parse_sum_tail_spec(bytes@, gi as int, depth as int, ga).1 == *i
                + parse_sum_tail_spec(bytes@, *i as int, depth as int, acc).1,
        ensures
            true,
        decreases bytes@.len() - *i,
    {
        let ghost ib = *i;
        let ghost accb = acc;
        skip_spaces(bytes, i);
        if *i < bytes.len() && (bytes[*i] == 43u8 || bytes[*i] == 45u8) {
            let op = bytes[*i];
            *i = *i + 1;
            let rhs = parse_term(bytes, i, depth);
            match rhs {
                Some(e) => {
                    if op == 43u8 {
                        acc = Expr::Add(Box::new(acc), Box::new(e));
                    } else {
                        acc = Expr::Sub(Box::new(acc), Box::new(e));
                    }
                },
                None => {
                    proof {
                        assert(parse_sum_tail_spec(bytes@, ib as int, depth as int, accb).0
                            is None);
                    }
                    return None;
                },
            }
        } else {
            proof {
                assert(parse_sum_tail_spec(bytes@, ib as int, depth as int, accb) == (
                    Some(accb),
                    spaces_from(bytes@, ib as int),
                ));
            }
            return Some(acc);
        }
    }
}

/// Parses a product of factors.
fn parse_term(bytes: &[u8], i: &mut usize, depth: u32) -> (r: Option<Expr>)
    requires
        *old(i) <= bytes@.len(),
        depth < 64,
    ensures
        *old(i) <= *final(i) <= bytes@.len(),
        r == parse_term_spec(bytes@, *old(i) as int, depth as int).0,
        *final(i) == *old(i) + parse_term_spec(bytes@, *old(i) as int, depth as int).1,
    decreases 64 - depth, bytes@.len() - *old(i), 3int,
{
    let ghost i0 = *i;
    let first = parse_factor(bytes, i, depth);
    let mut acc = match first {
        Some(e) => e,
        None => {
            return None;
        },
    };
    let ghost gi = *i;
    let ghost ga = acc;
    loop
        invariant
            *i <= bytes@.len(),
            gi <= *i,
            depth < 64,
            i0 == *old(i),
            i0 <= gi,
            parse_factor_spec(bytes@, i0 as int, depth as int).0 == Some(ga),
            gi == i0 + parse_factor_spec(bytes@, i0 as int, depth as int).1,
            parse_term_tail_spec(bytes@, gi as int, depth as int, ga).0
                == parse_term_tail_spec(bytes@, *i as int, depth as int, acc).0,
            gi + parse_term_tail_spec(bytes@, gi as int, depth as int, ga).1 == *i
                + parse_term_tail_spec(bytes@, *i as int, depth as int, acc).1,
        ensures
            true,
        decreases bytes@.len() - *i,
    {
        let ghost ib = *i;
        let ghost accb = acc;
        skip_spaces(bytes, i);
        if *i < bytes.len() && bytes[*i] == 42u8 {
            *i = *i + 1;
            let rhs = parse_factor(bytes, i, depth);
            match rhs {
                Some(e) => {
                    acc = Expr::Mul(Box::new(acc), Box::new(e));
                },
                None => {
                    proof {
                        assert(parse_term_tail_spec(bytes@, ib as int, depth as int, accb).0
                            is None);
                    }
                    return None;
                },
            }
        } else {
            proof {
                assert(parse_term_tail_spec(bytes@, ib as int, depth as int, accb) == (
                    Some(accb),
                    spaces_from(bytes@, ib as int),
                ));
            }
            return Some(acc);
        }
    }
}

/// Parses a possibly negated atom.
fn parse_factor(bytes: &[u8], i: &mut usize, depth: u32) -> (r: Option<Expr>)
    requires
        *old(i) <= bytes@.len(),
        depth < 64,
    ensures
        *old(i) <= *final(i) <= bytes@.len(),
        r == parse_factor_spec(bytes@, *old(i) as int, depth as int).0,
        *final(i) == *old(i) + parse_factor_spec(bytes@, *old(i) as int, depth as int).1,
    decreases 64 - depth, bytes@.len() - *old(i), 1int,
{
    skip_spaces(bytes, i);
    if *i < bytes.len() && bytes[*i] == 45u8 {
        *i = *i + 1;
        let inner = parse_factor(bytes, i, depth);
        match inner {
            Some(e) => Some(Expr::Neg(Box::new(e))),
            None => None,
        }
    } else {
        parse_atom(bytes, i, depth)
    }
}

/// Parses a literal, a coordinate, or a parenthesized sum.
fn parse_atom(bytes: &[u8], i: &mut usize, depth: u32) -> (r: Option<Expr>)
    requires
        *old(i) <= bytes@.len(),
        depth < 64,
    ensures
        *old(i) <= *final(i) <= bytes@.len(),
        r == parse_atom_spec(bytes@, *old(i) as int, depth as int).0,
        *final(i) == *old(i) + parse_atom_spec(bytes@, *old(i) as int, depth as int).1,
    decreases 64 - depth, bytes@.len() - *old(i), 0int,
{
    skip_spaces(bytes, i);
    if *i >= bytes.len() {
        return None;
    }
    let c = bytes[*i];
    if c == 120u8 {
        *i = *i + 1;
        Some(Expr::X)
    } else if c == 121u8 {
        *i = *i + 1;
        Some(Expr::Y)
    } else if c == 122u8 {
        *i = *i + 1;
        Some(Expr::Z)
    } else if c == 40u8 {
        *i = *i + 1;
        let inner = parse_sum(bytes, i, depth + 1);
        match inner {
            Some(e) => {
                skip_spaces(bytes, i);
                if *i < bytes.len() && bytes[*i] == 41u8 {
                    *i = *i + 1;
                    Some(e)
                } else {
                    None
                }
            },
            None => None,
        }
    } else if 48u8 <= c && c <= 57u8 {
        parse_number(bytes, i)
    } else {
        None
    }
}

/// Parses `digits` or `digits.digits` into thousandths; more than three
/// fractional digits, or a value over a million units, is rejected.
fn parse_number(bytes: &[u8], i: &mut usize) -> (r: Option<Expr>)
    requires
        *old(i) <= bytes@.len(),
    ensures
        *old(i) <= *final(i) <= bytes@.len(),
        r == parse_number_spec(bytes@, *old(i) as int).0,
        *final(i) == *old(i) + parse_number_spec(bytes@, *old(i) as int).1,
{
    let ghost i0 = *i;
    let mut whole: i64 = 0;
    let mut any: bool = false;
    while *i < bytes.len() && 48u8 <= bytes[*i] && bytes[*i] <= 57u8 && whole < 1_000_000_000
        invariant
            *i <= bytes@.len(),
            i0 <= *i,
            0 <= whole <= 10_000_000_008,
            any <==> *i > i0,
            whole_spec(bytes@, i0 as int, 0).0 == whole_spec(bytes@, *i as int, whole as int).0,
            i0 + whole_spec(bytes@, i0 as int, 0).1 == *i + whole_spec(
                bytes@,
                *i as int,
                whole as int,
            ).1,
        decreases bytes@.len() - *i,
    {
        whole = whole * 10 + ((bytes[*i] - 48u8) as i64);
        *i = *i + 1;
        any = true;
    }
    if !any || whole >= 1_000_000_000 {
        return None;
    }
    let value0 = whole * 1000;
    let mut value = value0;
    if *i < bytes.len() && bytes[*i] == 46u8 {
        *i = *i + 1;
        let ghost fi = *i;
        let mut place: i64 = 100;
        let mut digits: u32 = 0;
        while *i < bytes.len() && 48u8 <= bytes[*i] && bytes[*i] <= 57u8 && digits < 3
            invariant
                *i <= bytes@.len(),
                fi <= *i,
                digits <= 3,
                1 <= place <= 100,
                value0 <= value <= value0 + 900 * digits,
                0 <= value0 <= 1_000_000_000_000,
                digits == *i - fi,
                frac_spec(bytes@, fi as int, 100, 0, value0 as int).0 == frac_spec(
                    bytes@,
                    *i as int,
                    place as int,
                    digits as int,
                    value as int,
                ).0,
                fi + frac_spec(bytes@, fi as int, 100, 0, value0 as int).1 == *i + frac_spec(
                    bytes@,
                    *i as int,
                    place as int,
                    digits as int,
                    value as int,
                ).1,
            decreases bytes@.len() - *i,
        {
            let dig = (bytes[*i] - 48u8) as i64;
            proof {
                assert(0 <= place * dig <= 900) by (nonlinear_arith)
                    requires
                        1 <= place <= 100,
                        0 <= dig <= 9,
                ;
            }
            value = value + place * dig;
            place = if place >= 10 {
                place / 10
            } else {
                1
            };
            *i = *i + 1;
            digits = digits + 1;
        }
        if digits == 0 {
            return None;
        }
        if *i < bytes.len() && 48u8 <= bytes[*i] && bytes[*i] <= 57u8 {
            return None;
        }
    }
    Some(Expr::Const(value))
}

} // verus!
