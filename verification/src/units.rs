//! Units of measure and the conversions between them.
//!
//! Lengths are whole micrometres, font sizes whole millipoints (thousandths of
//! a point) and PDF user-space values whole micropoints. The conversion to
//! micropoints rounds toward negative infinity.

use vstd::prelude::*;
use vstd::arithmetic::div_mod::{
    lemma_div_is_ordered,
    lemma_fundamental_div_mod,
    lemma_fundamental_div_mod_converse,
    lemma_mod_bound,
};

verus! {

/// Largest magnitude, in micrometres, of a position or size handed to a
/// drawing primitive (a little over a thousand kilometres).
pub const MAX_COORD: i64 = 1_099_511_627_776;

/// Horizontal gap between a cell edge and left- or right-aligned text (0.5 mm).
pub const CELL_PADDING: i64 = 500;

/// Thickness of every stroked outline (0.2 mm).
pub const OUTLINE_THICKNESS: i64 = 200;

/// Snap grid of recorded traces: whole millimetres.
pub const TRACE_GRID: i32 = 1_000;

/// Snap grid of the tabular layouts: their 5 mm row pitch.
pub const TABLE_GRID: i32 = 5_000;

/// Micrometres per thousand points: one point is 0.352778 mm, so the
/// height of a font of one millipoint is this many millionths of a
/// micrometre.
pub const UM_PER_KILOPOINT: i64 = 352_778;

/// Micropoints per metre: one millimetre is 2.834645669 points.
pub const MICROPOINTS_PER_METRE: i64 = 2_834_645_669;

/// Whether `v` micrometres is a position or size the primitives accept.
pub open spec fn is_coord(v: int) -> bool {
    -MAX_COORD <= v <= MAX_COORD
}

/// `v` limited to the interval from `lo` to `hi`.
pub open spec fn clamp(v: int, lo: int, hi: int) -> int {
    if v < lo {
        lo
    } else if v > hi {
        hi
    } else {
        v
    }
}

/// A length of `um` micrometres in micropoints.
pub open spec fn micropoints(um: int) -> int {
    um * MICROPOINTS_PER_METRE as int / 1_000_000
}

/// Tests `is_coord`.
pub fn coord_ok(v: i64) -> (r: bool)
    ensures
        r == is_coord(v as int),
{
    -MAX_COORD <= v && v <= MAX_COORD
}

/// Quotient of `a` by a positive `b`, rounded toward negative infinity.
pub fn div_floor(a: i128, b: i128) -> (q: i128)
    requires
        b > 0,
    ensures
        q == a as int / b as int,
{
    if a >= 0 {
        a / b
    } else {
        let m: i128 = -(a + 1);
        let k: i128 = m / b;
        proof {
            let bi = b as int;
            let mi = m as int;
            let ai = a as int;
            let r = mi % bi;
            lemma_fundamental_div_mod(mi, bi);
            lemma_mod_bound(mi, bi);
            assert(ai == bi * (-(mi / bi) - 1) + (bi - 1 - r)) by (nonlinear_arith)
                requires
                    ai == -mi - 1,
                    mi == bi * (mi / bi) + r,
            ;
            lemma_fundamental_div_mod_converse(ai, bi, -(mi / bi) - 1, bi - 1 - r);
        }
        -k - 1
    }
}

/// Converts a length in micrometres to micropoints.
pub fn mm_to_pt(um: i64) -> (r: i64)
    requires
        is_coord(um as int),
    ensures
        r == micropoints(um as int),
{
    let scaled: i128 = um as i128 * MICROPOINTS_PER_METRE as i128;
    let q: i128 = div_floor(scaled, 1_000_000);
    proof {
        assert(scaled == um as int * 2_834_645_669);
        lemma_div_is_ordered(-4_000_000_000_000_000_000_000, scaled as int, 1_000_000);
        lemma_div_is_ordered(scaled as int, 4_000_000_000_000_000_000_000, 1_000_000);
    }
    q as i64
}

/// Conversion to micropoints never reverses the order of two lengths.
pub proof fn lemma_micropoints_monotonic(a: int, b: int)
    requires
        a <= b,
    ensures
        micropoints(a) <= micropoints(b),
{
    assert(a * MICROPOINTS_PER_METRE as int <= b * MICROPOINTS_PER_METRE as int)
        by (nonlinear_arith)
        requires
            a <= b,
    ;
    lemma_div_is_ordered(
        a * MICROPOINTS_PER_METRE as int,
        b * MICROPOINTS_PER_METRE as int,
        1_000_000,
    );
}

} // verus!
