//! Rate curves applied to linear progress before interpolation.
//!
//! Every curve maps the fixed-point interval `[0, UNIT]` onto itself and is
//! exact at both endpoints, so an animation always starts from its captured
//! state and lands exactly on its target.  The table is limited to curves
//! that integer arithmetic can state exactly: the polynomial families and
//! the piecewise-quadratic bounce family.

use vstd::prelude::*;

use crate::units::UNIT;

verus! {

/// Selector for the rate curve of an animation.
#[derive(Debug, Clone, Copy, PartialEq, Eq, Structural)]
pub enum EaseType {
    /// Identity: progress is used unchanged.
    Linear,
    /// Quadratic ease-in-out.
    Quad,
    QuadIn,
    QuadOut,
    /// Cubic ease-in-out.
    Cubic,
    CubicIn,
    CubicOut,
    /// Quartic ease-in-out.
    Quart,
    QuartIn,
    QuartOut,
    /// Quintic ease-in-out.
    Quint,
    QuintIn,
    QuintOut,
    /// Bounce ease-in-out.
    Bounce,
    BounceIn,
    BounceOut,
}

/// Fixed-point product: `x * y` scaled back down by `UNIT`.
pub open spec fn spec_unit_mul(x: int, y: int) -> int {
    x * y / (UNIT as int)
}

proof fn lemma_unit_mul(x: int, y: int)
    requires
        0 <= x <= UNIT as int,
        0 <= y <= UNIT as int,
    ensures
        0 <= spec_unit_mul(x, y) <= UNIT as int,
        spec_unit_mul(x, y) <= x,
        x == UNIT as int ==> spec_unit_mul(x, y) == y,
        y == UNIT as int ==> spec_unit_mul(x, y) == x,
        x == 0 || y == 0 ==> spec_unit_mul(x, y) == 0,
{
    let u = UNIT as int;
    vstd::arithmetic::mul::lemma_mul_inequality(y, u, x);
    vstd::arithmetic::mul::lemma_mul_nonnegative(x, y);
    vstd::arithmetic::div_mod::lemma_div_is_ordered(x * y, x * u, u);
    vstd::arithmetic::div_mod::lemma_div_by_multiple(x, u);
    vstd::arithmetic::div_mod::lemma_div_pos_is_pos(x * y, u);
    if x == u {
        vstd::arithmetic::mul::lemma_mul_is_commutative(x, y);
        vstd::arithmetic::div_mod::lemma_div_by_multiple(y, u);
    }
}

fn unit_mul(x: u64, y: u64) -> (r: u64)
    requires
        x <= UNIT,
        y <= UNIT,
    ensures
        r == spec_unit_mul(x as int, y as int),
        r <= UNIT,
        r <= x,
        x == UNIT ==> r == y,
        y == UNIT ==> r == x,
{
    proof {
        lemma_unit_mul(x as int, y as int);
    }
    x * y / UNIT
}

/// Quadratic ease-in: `p^2` in fixed point.
pub open spec fn spec_quad_in(p: int) -> int {
    spec_unit_mul(p, p)
}

/// Cubic ease-in: `p^3` in fixed point, rounded stepwise.
pub open spec fn spec_cubic_in(p: int) -> int {
    spec_unit_mul(spec_quad_in(p), p)
}

/// Quartic ease-in: `p^4` in fixed point, rounded stepwise.
pub open spec fn spec_quart_in(p: int) -> int {
    spec_unit_mul(spec_quad_in(p), spec_quad_in(p))
}

/// Quintic ease-in: `p^5` in fixed point, rounded stepwise.
pub open spec fn spec_quint_in(p: int) -> int {
    spec_unit_mul(spec_quart_in(p), p)
}

fn quad_in(p: u64) -> (r: u64)
    requires
        p <= UNIT,
    ensures
        r == spec_quad_in(p as int),
        r <= UNIT,
        p == 0 ==> r == 0,
        p == UNIT ==> r == UNIT,
{
    unit_mul(p, p)
}

fn cubic_in(p: u64) -> (r: u64)
    requires
        p <= UNIT,
    ensures
        r == spec_cubic_in(p as int),
        r <= UNIT,
        p == 0 ==> r == 0,
        p == UNIT ==> r == UNIT,
{
    unit_mul(quad_in(p), p)
}

fn quart_in(p: u64) -> (r: u64)
    requires
        p <= UNIT,
    ensures
        r == spec_quart_in(p as int),
        r <= UNIT,
        p == 0 ==> r == 0,
        p == UNIT ==> r == UNIT,
{
    let q = quad_in(p);
    unit_mul(q, q)
}

fn quint_in(p: u64) -> (r: u64)
    requires
        p <= UNIT,
    ensures
        r == spec_quint_in(p as int),
        r <= UNIT,
        p == 0 ==> r == 0,
        p == UNIT ==> r == UNIT,
{
    unit_mul(quart_in(p), p)
}

/// Bounce ease-out: four parabolic arcs with rational coefficients
/// (`7.5625 = 121/16` over breakpoints at `4/11`, `8/11` and `10/11`).
pub open spec fn spec_bounce_out(p: int) -> int {
    let u = UNIT as int;
    if 11 * p < 4 * u {
        121 * p * p / (16 * u)
    } else if 11 * p < 8 * u {
        let d = if 11 * p >= 6 * u {
            11 * p - 6 * u
        } else {
            6 * u - 11 * p
        };
        d * d / (16 * u) + 3 * u / 4
    } else if 11 * p < 10 * u {
        let d = if 11 * p >= 9 * u {
            11 * p - 9 * u
        } else {
            9 * u - 11 * p
        };
        d * d / (16 * u) + 15 * u / 16
    } else {
        let d = if 22 * p >= 21 * u {
            22 * p - 21 * u
        } else {
            21 * u - 22 * p
        };
        d * d / (64 * u) + 63 * u / 64
    }
}

/// `d^2 / denom` is at most `cap` whenever `d <= bound` and
/// `bound^2 == cap * denom`.
proof fn lemma_square_div_le(d: int, bound: int, cap: int, denom: int)
    requires
        0 <= d <= bound,
        0 < denom,
        0 <= cap,
        bound * bound == cap * denom,
    ensures
        0 <= d * d / denom <= cap,
{
    vstd::arithmetic::mul::lemma_mul_inequality(d, bound, d);
    vstd::arithmetic::mul::lemma_mul_is_commutative(d, bound);
    vstd::arithmetic::mul::lemma_mul_inequality(d, bound, bound);
    vstd::arithmetic::div_mod::lemma_div_is_ordered(d * d, bound * bound, denom);
    vstd::arithmetic::mul::lemma_mul_nonnegative(d, d);
    vstd::arithmetic::div_mod::lemma_div_pos_is_pos(d * d, denom);
    vstd::arithmetic::div_mod::lemma_div_by_multiple(cap, denom);
}

/// Range and endpoint facts for the bounce-out curve.
proof fn lemma_bounce_out_props(p: int)
    requires
        0 <= p <= UNIT as int,
    ensures
        0 <= spec_bounce_out(p) <= UNIT as int,
        p == 0 ==> spec_bounce_out(p) == 0,
        p == UNIT as int ==> spec_bounce_out(p) == UNIT as int,
{
    let u = UNIT as int;
    if 11 * p < 4 * u {
        assert(121 * p * p == (11 * p) * (11 * p)) by (nonlinear_arith);
        assert((4 * u) * (4 * u) == u * (16 * u)) by (nonlinear_arith);
        lemma_square_div_le(11 * p, 4 * u, u, 16 * u);
        if p == 0 {
            assert(121 * p * p == 0) by (nonlinear_arith)
                requires
                    p == 0,
            ;
            vstd::arithmetic::div_mod::lemma_div_of0(16 * u);
        }
    } else if 11 * p < 8 * u {
        let d = if 11 * p >= 6 * u {
            11 * p - 6 * u
        } else {
            6 * u - 11 * p
        };
        assert((2 * u) * (2 * u) == (u / 4) * (16 * u)) by (nonlinear_arith)
            requires
                u == 1_000_000,
        ;
        lemma_square_div_le(d, 2 * u, u / 4, 16 * u);
    } else if 11 * p < 10 * u {
        let d = if 11 * p >= 9 * u {
            11 * p - 9 * u
        } else {
            9 * u - 11 * p
        };
        assert(u * u == (u / 16) * (16 * u)) by (nonlinear_arith)
            requires
                u == 1_000_000,
        ;
        lemma_square_div_le(d, u, u / 16, 16 * u);
    } else {
        let d = if 22 * p >= 21 * u {
            22 * p - 21 * u
        } else {
            21 * u - 22 * p
        };
        assert(u * u == (u / 64) * (64 * u)) by (nonlinear_arith)
            requires
                u == 1_000_000,
        ;
        lemma_square_div_le(d, u, u / 64, 64 * u);
        if p == u {
            assert(d == u);
            assert(u * u / (64 * u) == u / 64) by {
                vstd::arithmetic::div_mod::lemma_div_by_multiple(u / 64, 64 * u);
            };
        }
    }
}

fn bounce_out(p: u64) -> (r: u64)
    requires
        p <= UNIT,
    ensures
        r == spec_bounce_out(p as int),
        r <= UNIT,
        p == 0 ==> r == 0,
        p == UNIT ==> r == UNIT,
{
    proof {
        lemma_bounce_out_props(p as int);
    }
    let u = UNIT;
    if 11 * p < 4 * u {
        proof {
            assert(121 * (p as int) * (p as int) == (11 * (p as int)) * (11 * (p as int)))
                by (nonlinear_arith);
            vstd::arithmetic::mul::lemma_mul_nonnegative(11 * (p as int), 11 * (p as int));
            vstd::arithmetic::mul::lemma_mul_inequality(11 * (p as int), 4 * (u as int), 11 * (
            p as int));
            vstd::arithmetic::mul::lemma_mul_is_commutative(11 * (p as int), 4 * (u as int));
            vstd::arithmetic::mul::lemma_mul_inequality(11 * (p as int), 4 * (u as int), 4 * (
            u as int));
        }
        121 * p * p / (16 * u)
    } else if 11 * p < 8 * u {
        let d = if 11 * p >= 6 * u {
            11 * p - 6 * u
        } else {
            6 * u - 11 * p
        };
        proof {
            vstd::arithmetic::mul::lemma_mul_nonnegative(d as int, d as int);
            vstd::arithmetic::mul::lemma_mul_inequality(d as int, 2 * (u as int), d as int);
            vstd::arithmetic::mul::lemma_mul_is_commutative(d as int, 2 * (u as int));
            vstd::arithmetic::mul::lemma_mul_inequality(d as int, 2 * (u as int), 2 * (u as int));
        }
        d * d / (16 * u) + 3 * u / 4
    } else if 11 * p < 10 * u {
        let d = if 11 * p >= 9 * u {
            11 * p - 9 * u
        } else {
            9 * u - 11 * p
        };
        proof {
            vstd::arithmetic::mul::lemma_mul_nonnegative(d as int, d as int);
            vstd::arithmetic::mul::lemma_mul_inequality(d as int, u as int, d as int);
            vstd::arithmetic::mul::lemma_mul_is_commutative(d as int, u as int);
            vstd::arithmetic::mul::lemma_mul_inequality(d as int, u as int, u as int);
        }
        d * d / (16 * u) + 15 * u / 16
    } else {
        let d = if 22 * p >= 21 * u {
            22 * p - 21 * u
        } else {
            21 * u - 22 * p
        };
        proof {
            vstd::arithmetic::mul::lemma_mul_nonnegative(d as int, d as int);
            vstd::arithmetic::mul::lemma_mul_inequality(d as int, u as int, d as int);
            vstd::arithmetic::mul::lemma_mul_is_commutative(d as int, u as int);
            vstd::arithmetic::mul::lemma_mul_inequality(d as int, u as int, u as int);
        }
        d * d / (64 * u) + 63 * u / 64
    }
}

/// The curve `kind` evaluated at fixed-point progress `p`.
pub open spec fn spec_ease(kind: EaseType, p: int) -> int {
    let u = UNIT as int;
    match kind {
        EaseType::Linear => p,
        EaseType::QuadIn => spec_quad_in(p),
        EaseType::QuadOut => u - spec_quad_in(u - p),
        EaseType::Quad => if p < u / 2 {
            spec_quad_in(2 * p) / 2
        } else {
            u - spec_quad_in(2 * (u - p)) / 2
        },
        EaseType::CubicIn => spec_cubic_in(p),
        EaseType::CubicOut => u - spec_cubic_in(u - p),
        EaseType::Cubic => if p < u / 2 {
            spec_cubic_in(2 * p) / 2
        } else {
            u - spec_cubic_in(2 * (u - p)) / 2
        },
        EaseType::QuartIn => spec_quart_in(p),
        EaseType::QuartOut => u - spec_quart_in(u - p),
        EaseType::Quart => if p < u / 2 {
            spec_quart_in(2 * p) / 2
        } else {
            u - spec_quart_in(2 * (u - p)) / 2
        },
        EaseType::QuintIn => spec_quint_in(p),
        EaseType::QuintOut => u - spec_quint_in(u - p),
        EaseType::Quint => if p < u / 2 {
            spec_quint_in(2 * p) / 2
        } else {
            u - spec_quint_in(2 * (u - p)) / 2
        },
        EaseType::BounceOut => spec_bounce_out(p),
        EaseType::BounceIn => u - spec_bounce_out(u - p),
        EaseType::Bounce => if p < u / 2 {
            (u - spec_bounce_out(u - 2 * p)) / 2
        } else {
            (u + spec_bounce_out(2 * p - u)) / 2
        },
    }
}

/// Every curve maps `[0, UNIT]` into itself and is exact at both
/// endpoints; the linear curve is the identity.
pub proof fn lemma_ease_props(kind: EaseType, p: int)
    requires
        0 <= p <= UNIT as int,
    ensures
        0 <= spec_ease(kind, p) <= UNIT as int,
        p == 0 ==> spec_ease(kind, p) == 0,
        p == UNIT as int ==> spec_ease(kind, p) == UNIT as int,
        kind == EaseType::Linear ==> spec_ease(kind, p) == p,
{
    let u = UNIT as int;
    lemma_unit_mul(p, p);
    lemma_unit_mul(spec_quad_in(p), p);
    lemma_unit_mul(spec_quad_in(p), spec_quad_in(p));
    lemma_unit_mul(spec_quart_in(p), p);
    lemma_unit_mul(u - p, u - p);
    lemma_unit_mul(spec_quad_in(u - p), u - p);
    lemma_unit_mul(spec_quad_in(u - p), spec_quad_in(u - p));
    lemma_unit_mul(spec_quart_in(u - p), u - p);
    lemma_bounce_out_props(p);
    lemma_bounce_out_props(u - p);
    if p < u / 2 {
        lemma_poly_family_props(2 * p);
        lemma_bounce_out_props(u - 2 * p);
    } else {
        lemma_poly_family_props(2 * (u - p));
        lemma_bounce_out_props(2 * p - u);
    }
}

/// Range and endpoint facts for the polynomial ease-in curves.
proof fn lemma_poly_family_props(p: int)
    requires
        0 <= p <= UNIT as int,
    ensures
        0 <= spec_quad_in(p) <= p,
        0 <= spec_cubic_in(p) <= p,
        0 <= spec_quart_in(p) <= p,
        0 <= spec_quint_in(p) <= p,
        p == 0 ==> spec_quad_in(p) == 0 && spec_cubic_in(p) == 0 && spec_quart_in(p) == 0
            && spec_quint_in(p) == 0,
        p == UNIT as int ==> spec_quad_in(p) == UNIT as int && spec_cubic_in(p) == UNIT as int
            && spec_quart_in(p) == UNIT as int && spec_quint_in(p) == UNIT as int,
{
    lemma_unit_mul(p, p);
    lemma_unit_mul(spec_quad_in(p), p);
    lemma_unit_mul(spec_quad_in(p), spec_quad_in(p));
    lemma_unit_mul(spec_quart_in(p), p);
}

impl EaseType {
    /// Evaluate this curve at fixed-point progress `p`.
    ///
    /// The result stays inside `[0, UNIT]` and is exact at both endpoints,
    /// so eased playback still begins at the captured state and ends on the
    /// target.  `Linear` returns its argument unchanged.
    pub fn calculate(&self, p: u64) -> (r: u64)
        requires
            p <= UNIT,
        ensures
            r == spec_ease(*self, p as int),
            r <= UNIT,
            p == 0 ==> r == 0,
            p == UNIT ==> r == UNIT,
            *self == EaseType::Linear ==> r == p,
    {
        match self {
            EaseType::Linear => p,
            EaseType::QuadIn => quad_in(p),
            EaseType::QuadOut => UNIT - quad_in(UNIT - p),
            EaseType::Quad => if p < UNIT / 2 {
                quad_in(2 * p) / 2
            } else {
                UNIT - quad_in(2 * (UNIT - p)) / 2
            },
            EaseType::CubicIn => cubic_in(p),
            EaseType::CubicOut => UNIT - cubic_in(UNIT - p),
            EaseType::Cubic => if p < UNIT / 2 {
                cubic_in(2 * p) / 2
            } else {
                UNIT - cubic_in(2 * (UNIT - p)) / 2
            },
            EaseType::QuartIn => quart_in(p),
            EaseType::QuartOut => UNIT - quart_in(UNIT - p),
            EaseType::Quart => if p < UNIT / 2 {
                quart_in(2 * p) / 2
            } else {
                UNIT - quart_in(2 * (UNIT - p)) / 2
            },
            EaseType::QuintIn => quint_in(p),
            EaseType::QuintOut => UNIT - quint_in(UNIT - p),
            EaseType::Quint => if p < UNIT / 2 {
                quint_in(2 * p) / 2
            } else {
                UNIT - quint_in(2 * (UNIT - p)) / 2
            },
            EaseType::BounceOut => bounce_out(p),
            EaseType::BounceIn => UNIT - bounce_out(UNIT - p),
            EaseType::Bounce => if p < UNIT / 2 {
                (UNIT - bounce_out(UNIT - 2 * p)) / 2
            } else {
                (UNIT + bounce_out(2 * p - UNIT)) / 2
            },
        }
    }
}

} // verus!
