//! Placement specifications and the position resolver.

use vstd::prelude::*;
use vstd::arithmetic::div_mod::{lemma_fundamental_div_mod, lemma_fundamental_div_mod_converse,
    lemma_div_is_ordered};
use vstd::arithmetic::mul::lemma_mul_inequality;

verus! {

/// One axis of a placement. `denominator == 0` selects absolute mode, where
/// `absolute` is a fixed offset; any other denominator selects ratio mode,
/// where the offset is `ceil(extent * numerator / denominator)`. `flip`
/// mirrors the resolved offset so it is measured from the far (bottom or
/// right) edge instead of the near (top or left) one.
pub struct Position {
    pub numerator: i16,
    pub denominator: u16,
    pub absolute: i16,
    pub flip: bool,
}

/// One placeable artwork block: its rows of text (possibly holding escape
/// runs and the NUL skip sentinel), a fixed offset subtracted from the
/// resolved position so the anchor can sit inside the artwork, and the
/// horizontal and vertical placement specifications.
pub struct Layer {
    pub ascii: Vec<String>,
    pub origin: (u16, u16),
    pub position: (Position, Position),
}

/// Ceiling division by a positive divisor, over mathematical integers.
pub open spec fn ceil_div(a: int, d: int) -> int
    recommends
        d > 0,
{
    -((-a) / d)
}

/// Saturates a mathematical integer into the `i16` range.
pub open spec fn clamp_i16(v: int) -> int {
    if v < i16::MIN as int {
        i16::MIN as int
    } else if v > i16::MAX as int {
        i16::MAX as int
    } else {
        v
    }
}

/// The resolved offset of `p` against an extent of `extent` cells. In
/// absolute mode the offset is `absolute`, mirrored to
/// `extent - absolute - 1` under `flip`; in ratio mode it is the ceiling of
/// `extent * numerator / denominator`, mirrored to `extent - 1` minus that
/// under `flip`. A mirrored or ratio result outside the `i16` range
/// saturates to the nearest representable value.
pub open spec fn spec_calc_pos(p: Position, extent: u16) -> int {
    if p.denominator == 0 {
        if p.flip {
            clamp_i16(extent as int - p.absolute as int - 1)
        } else {
            p.absolute as int
        }
    } else {
        let raw = ceil_div(extent as int * p.numerator as int, p.denominator as int);
        if p.flip {
            clamp_i16(extent as int - 1 - raw)
        } else {
            clamp_i16(raw)
        }
    }
}

/// Ceiling division agrees with the floor of `(a + d - 1) / d`.
proof fn lemma_ceil_div_as_floor(a: int, d: int)
    requires
        d > 0,
    ensures
        ceil_div(a, d) == (a + d - 1) / d,
{
    lemma_fundamental_div_mod(a, d);
    let q = a / d;
    let r = a % d;
    if r == 0 {
        assert(-a == (-q) * d + 0 && a + d - 1 == q * d + (d - 1)) by (nonlinear_arith)
            requires
                a == d * q + r,
                r == 0,
        ;
        lemma_fundamental_div_mod_converse(-a, d, -q, 0);
        lemma_fundamental_div_mod_converse(a + d - 1, d, q, d - 1);
    } else {
        assert(-a == (-q - 1) * d + (d - r) && a + d - 1 == (q + 1) * d + (r - 1))
            by (nonlinear_arith)
            requires
                a == d * q + r,
        ;
        lemma_fundamental_div_mod_converse(-a, d, -q - 1, d - r);
        lemma_fundamental_div_mod_converse(a + d - 1, d, q + 1, r - 1);
    }
}

pub(crate) fn clamp_to_i16(v: i64) -> (r: i16)
    ensures
        r as int == clamp_i16(v as int),
{
    if v < i16::MIN as i64 {
        i16::MIN
    } else if v > i16::MAX as i64 {
        i16::MAX
    } else {
        v as i16
    }
}

/// Resolves one placement axis against a terminal extent.
pub fn calc_pos(x_or_y: &Position, col_or_row: u16) -> (r: i16)
    ensures
        r as int == spec_calc_pos(*x_or_y, col_or_row),
        x_or_y.denominator == 0 && !x_or_y.flip ==> r == x_or_y.absolute,
{
    if x_or_y.denominator == 0 {
        if x_or_y.flip {
            clamp_to_i16(col_or_row as i64 - x_or_y.absolute as i64 - 1)
        } else {
            x_or_y.absolute
        }
    } else {
        proof {
            let c = col_or_row as int;
            let n = x_or_y.numerator as int;
            assert(-(65535int * 32768) <= c * n <= 65535int * 32767) by (nonlinear_arith)
                requires
                    0 <= c <= 65535,
                    -32768 <= n <= 32767,
            ;
        }
        let num: i64 = col_or_row as i64 * x_or_y.numerator as i64;
        let d: u64 = x_or_y.denominator as u64;
        let raw: i64 = if num >= 0 {
            proof {
                lemma_ceil_div_as_floor(num as int, d as int);
            }
            ((num as u64 + d - 1) / d) as i64
        } else {
            -(((-num) as u64 / d) as i64)
        };
        assert(raw as int == ceil_div(num as int, d as int));
        if x_or_y.flip {
            clamp_to_i16(col_or_row as i64 - 1 - raw)
        } else {
            clamp_to_i16(raw)
        }
    }
}

/// An absolute-mode placement without `flip` resolves to its `absolute`
/// offset, whatever the extent.
pub proof fn lemma_calc_pos_absolute(p: Position, extent: u16)
    requires
        p.denominator == 0,
        !p.flip,
    ensures
        spec_calc_pos(p, extent) == p.absolute as int,
{
}

/// An absolute-mode placement with `flip` resolves to
/// `extent - absolute - 1`, whenever that value is representable as an
/// `i16` (beyond that it saturates).
pub proof fn lemma_calc_pos_absolute_flip(p: Position, extent: u16)
    requires
        p.denominator == 0,
        p.flip,
        extent as int - p.absolute as int - 1 <= i16::MAX as int,
    ensures
        spec_calc_pos(p, extent) == extent as int - p.absolute as int - 1,
{
}

/// A ratio-mode placement with a non-negative numerator and without `flip`
/// resolves to a value that never decreases as the extent grows.
pub proof fn lemma_calc_pos_ratio_monotonic(p: Position, e1: u16, e2: u16)
    requires
        p.denominator != 0,
        !p.flip,
        p.numerator >= 0,
        e1 <= e2,
    ensures
        spec_calc_pos(p, e1) <= spec_calc_pos(p, e2),
{
    let n = p.numerator as int;
    let d = p.denominator as int;
    lemma_mul_inequality(e1 as int, e2 as int, n);
    lemma_div_is_ordered(-(e2 as int * n), -(e1 as int * n), d);
}

} // verus!
