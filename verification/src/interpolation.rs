//! Interpolation between two sampled angles, along a line and round the
//! circle.
//!
//! How far to go from the first angle to the second is a fraction of whole
//! numbers; quotients are rounded down.

use vstd::prelude::*;
use vstd::arithmetic::div_mod::{lemma_fundamental_div_mod_converse, lemma_mod_bound};
use crate::angles::normalized;
use crate::types::{FULL_TURN, HALF_TURN};

verus! {

/// A part of a whole, as a quotient of whole numbers.
#[derive(Debug, Clone, Copy, PartialEq, Eq)]
pub struct Fraction {
    pub numerator: i32,
    pub denominator: i32,
}

impl Fraction {
    /// The fraction lies between 0 and 1, both included.
    pub open spec fn proper(&self) -> bool {
        0 <= self.numerator <= self.denominator && self.denominator > 0
    }
}

/// The way from `v1` towards `v2` that the fraction covers.
pub open spec fn step_towards(v1: int, v2: int, fraction: Fraction) -> int {
    ((v2 - v1) * fraction.numerator) / (fraction.denominator as int)
}

/// The value the fraction of the way along the line from `v1` to `v2`.
pub open spec fn linear_between(v1: int, v2: int, fraction: Fraction) -> int {
    v1 + step_towards(v1, v2, fraction)
}

/// The signed arc from `a1` to `a2` after one correction by a full turn:
/// for angles in `[0, 360)` degrees, the shorter of the two arcs.
pub open spec fn shortest_arc(a1: int, a2: int) -> int {
    let diff = a2 - a1;
    if diff > HALF_TURN {
        diff - FULL_TURN
    } else if diff < -HALF_TURN {
        diff + FULL_TURN
    } else {
        diff
    }
}

/// The angle the fraction of the way along the shortest arc from `a1` to
/// `a2`, in `[0, 360)` degrees.
pub open spec fn angle_between(a1: int, a2: int, fraction: Fraction) -> int {
    normalized(a1 + step_towards(0, shortest_arc(a1, a2), fraction))
}

/// Linear interpolation of two sampled values, absent where either is.
pub open spec fn interpolated_linear(v1: Option<i64>, v2: Option<i64>, fraction: Fraction) -> Option<
    i64,
> {
    match (v1, v2) {
        (Some(a), Some(b)) => Some(linear_between(a as int, b as int, fraction) as i64),
        _ => None,
    }
}

/// Angular interpolation of two sampled angles, absent where either is.
pub open spec fn interpolated_angle(a1: Option<i64>, a2: Option<i64>, fraction: Fraction) -> Option<
    i64,
> {
    match (a1, a2) {
        (Some(a), Some(b)) => Some(angle_between(a as int, b as int, fraction) as i64),
        _ => None,
    }
}

/// A proper fraction of the way from `v1` to `v2` does not leave the
/// interval between them.
pub proof fn lemma_step_bounded(v1: int, v2: int, fraction: Fraction)
    requires
        fraction.proper(),
    ensures
        v1 <= v2 ==> 0 <= step_towards(v1, v2, fraction) <= v2 - v1,
        v2 <= v1 ==> v2 - v1 <= step_towards(v1, v2, fraction) <= 0,
        fraction.numerator == 0 ==> step_towards(v1, v2, fraction) == 0,
        fraction.numerator == fraction.denominator ==> step_towards(v1, v2, fraction) == v2 - v1,
{
    let n = fraction.numerator as int;
    let d = fraction.denominator as int;
    let diff = v2 - v1;
    let p = diff * n;
    let q = p / d;
    assert(p == d * q + p % d) by {
        vstd::arithmetic::div_mod::lemma_fundamental_div_mod(p, d);
    }
    lemma_mod_bound(p, d);
    if diff >= 0 {
        assert(0 <= p <= diff * d) by (nonlinear_arith)
            requires
                p == diff * n,
                diff >= 0,
                0 <= n <= d,
        ;
        if q < 0 {
            assert(d * q <= -d) by (nonlinear_arith)
                requires
                    q <= -1,
                    d > 0,
            ;
        }
        if q > diff {
            assert(d * q >= d * diff + d) by (nonlinear_arith)
                requires
                    q >= diff + 1,
                    d > 0,
            ;
            assert(d * diff == diff * d) by (nonlinear_arith);
        }
    }
    if diff <= 0 {
        assert(diff * d <= p <= 0) by (nonlinear_arith)
            requires
                p == diff * n,
                diff <= 0,
                0 <= n <= d,
        ;
        if q > 0 {
            assert(d * q >= d) by (nonlinear_arith)
                requires
                    q >= 1,
                    d > 0,
            ;
        }
        if q < diff {
            assert(d * q <= d * diff - d) by (nonlinear_arith)
                requires
                    q <= diff - 1,
                    d > 0,
            ;
            assert(d * diff == diff * d) by (nonlinear_arith);
        }
    }
    if n == 0 {
        assert(p == 0) by (nonlinear_arith)
            requires
                p == diff * n,
                n == 0,
        ;
    }
    if n == d {
        assert(p == d * diff + 0) by (nonlinear_arith)
            requires
                p == diff * n,
                n == d,
        ;
        lemma_fundamental_div_mod_converse(p, d, diff, 0);
    }
}

/// The quotient of `p` by a positive `d`, rounded down.
fn floor_div(p: i128, d: i128) -> (q: i128)
    requires
        d > 0,
        -0x1_0000_0000_0000_0000_0000_0000 <= p <= 0x1_0000_0000_0000_0000_0000_0000,
        d <= 0x1_0000_0000_0000_0000_0000_0000,
    ensures
        q == p / d,
        p >= 0 ==> 0 <= q <= p,
        p < 0 ==> p <= q < 0,
{
    proof {
        let pi: int = p as int;
        let di: int = d as int;
        assert(pi == di * (pi / di) + pi % di) by {
            vstd::arithmetic::div_mod::lemma_fundamental_div_mod(pi, di);
        }
        lemma_mod_bound(pi, di);
        let q = pi / di;
        if pi >= 0 && q < 0 {
            assert(di * q <= -di) by (nonlinear_arith)
                requires
                    q <= -1,
                    di > 0,
            ;
        }
        if pi >= 0 && q > pi {
            assert(di * q >= q) by (nonlinear_arith)
                requires
                    q >= 0,
                    di >= 1,
            ;
        }
        if pi < 0 && q >= 0 {
            assert(di * q >= 0) by (nonlinear_arith)
                requires
                    q >= 0,
                    di > 0,
            ;
        }
        if pi < 0 && q < pi {
            assert(di * (q + 1) <= q + 1) by (nonlinear_arith)
                requires
                    q + 1 <= 0,
                    di >= 1,
            ;
            assert(di * (q + 1) == di * q + di) by (nonlinear_arith);
        }
    }
    if p >= 0 {
        p / d
    } else {
        let up: i128 = (-p + d - 1) / d;
        proof {
            let a: int = -p + d - 1;
            let di: int = d as int;
            assert(a == di * (a / di) + a % di) by {
                vstd::arithmetic::div_mod::lemma_fundamental_div_mod(a, di);
            }
            lemma_mod_bound(a, di);
            let r: int = di - 1 - a % di;
            assert(p == di * (-up) + r) by (nonlinear_arith)
                requires
                    a == di * up + a % di,
                    a == -p + di - 1,
                    r == di - 1 - a % di,
            ;
            lemma_fundamental_div_mod_converse(p as int, di, -up as int, r);
        }
        -up
    }
}

/// The value the fraction of the way from `v1` to `v2`; absent where
/// either value is absent.
pub fn interpolate_linear(v1: Option<i64>, v2: Option<i64>, fraction: Fraction) -> (r: Option<i64>)
    requires
        fraction.proper(),
    ensures
        r == interpolated_linear(v1, v2, fraction),
        r is Some <==> v1 is Some && v2 is Some,
        r matches Some(v) ==> {
            &&& v == linear_between(v1->0 as int, v2->0 as int, fraction)
            &&& v1->0 <= v2->0 ==> v1->0 <= v <= v2->0
            &&& v2->0 <= v1->0 ==> v2->0 <= v <= v1->0
        },
{
    match (v1, v2) {
        (Some(a), Some(b)) => {
            let diff: i128 = b as i128 - a as i128;
            proof {
                lemma_step_bounded(a as int, b as int, fraction);
                assert(-0x1_0000_0000_0000_0000 * 0x8000_0000 <= diff * fraction.numerator
                    <= 0x1_0000_0000_0000_0000 * 0x8000_0000) by (nonlinear_arith)
                    requires
                        -0x1_0000_0000_0000_0000 <= diff <= 0x1_0000_0000_0000_0000,
                        0 <= fraction.numerator <= 0x8000_0000,
                ;
            }
            let step: i128 = floor_div(diff * fraction.numerator as i128, fraction.denominator as i128);
            Some((a as i128 + step) as i64)
        },
        _ => None,
    }
}

/// The angle the fraction of the way along the shortest arc from `a1` to
/// `a2`, in `[0, 360)` degrees; absent where either angle is absent.
///
/// The arc is the difference of the two angles, corrected by one full turn
/// where it is longer than half a turn, so that the way from 350 to 10
/// degrees leads through 0 and not through 180.
pub fn interpolate_angle(a1: Option<i64>, a2: Option<i64>, fraction: Fraction) -> (r: Option<i64>)
    requires
        fraction.denominator > 0,
    ensures
        r == interpolated_angle(a1, a2, fraction),
        r is Some <==> a1 is Some && a2 is Some,
        r matches Some(a) ==> {
            &&& a == angle_between(a1->0 as int, a2->0 as int, fraction)
            &&& 0 <= a < FULL_TURN
        },
{
    match (a1, a2) {
        (Some(v1), Some(v2)) => {
            let diff: i128 = v2 as i128 - v1 as i128;
            let arc: i128 = if diff > HALF_TURN as i128 {
                diff - FULL_TURN as i128
            } else if diff < -(HALF_TURN as i128) {
                diff + FULL_TURN as i128
            } else {
                diff
            };
            proof {
                assert(-0x1_0000_0000_0000_0000 * 0x8000_0000 <= arc * fraction.numerator
                    <= 0x1_0000_0000_0000_0000 * 0x8000_0000) by (nonlinear_arith)
                    requires
                        -0x1_0000_0000_0000_0000 <= arc <= 0x1_0000_0000_0000_0000,
                        -0x8000_0000 <= fraction.numerator <= 0x8000_0000,
                ;
                assert(arc * fraction.numerator == (arc - 0) * fraction.numerator);
                lemma_mod_bound(v1 + step_towards(0, arc as int, fraction), FULL_TURN as int);
            }
            let step: i128 = floor_div(arc * fraction.numerator as i128, fraction.denominator as i128);
            let raw: i128 = v1 as i128 + step;
            let turned: i128 = raw % FULL_TURN as i128;
            let angle: i128 = if turned < 0 {
                turned + FULL_TURN as i128
            } else {
                turned
            };
            Some(angle as i64)
        },
        _ => None,
    }
}

/// For two angles in `[0, 360)` degrees and a proper fraction, the arc
/// taken is at most half a turn long and leads from the first angle to the
/// second, and the interpolated angle lies on it: it is the first angle
/// turned by a part of the arc, in the arc's direction.
pub proof fn lemma_angle_on_shortest_arc(a1: int, a2: int, fraction: Fraction)
    requires
        0 <= a1 < FULL_TURN,
        0 <= a2 < FULL_TURN,
        fraction.proper(),
    ensures
        -HALF_TURN <= shortest_arc(a1, a2) <= HALF_TURN,
        normalized(a1 + shortest_arc(a1, a2)) == a2,
        ({
            let arc = shortest_arc(a1, a2);
            let step = step_towards(0, arc, fraction);
            &&& angle_between(a1, a2, fraction) == normalized(a1 + step)
            &&& arc >= 0 ==> 0 <= step <= arc
            &&& arc <= 0 ==> arc <= step <= 0
        }),
{
    lemma_step_bounded(0, shortest_arc(a1, a2), fraction);
}

} // verus!
