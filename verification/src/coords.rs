//! The coordinate transform: from millimetre positions measured from the
//! top-left corner of a page to PDF positions measured from its bottom-left
//! corner, and the placement of text inside a cell.

use vstd::prelude::*;
use vstd::arithmetic::div_mod::{lemma_div_is_ordered, lemma_fundamental_div_mod, lemma_mod_bound};
use crate::units::{clamp, div_floor, is_coord, CELL_PADDING, MAX_COORD, UM_PER_KILOPOINT};

verus! {

/// Parts of a micrometre in which advances are counted: half a millionth,
/// so that half the height of a font of any size is a whole number.
pub const ADVANCE_UNITS: i64 = 2_000_000;

/// Horizontal alignment of text inside a cell.
#[derive(Clone, Copy, Debug, PartialEq, Eq, Structural)]
pub enum Align {
    Left,
    Center,
    Right,
}

/// Distance from the bottom of a page of height `page_height` of a point
/// that lies `y` below its top.
pub open spec fn flip_y(page_height: int, y: int) -> int {
    page_height - y
}

/// `y` moved down to the nearest multiple of `grid` that is not above it.
pub open spec fn snap_down(y: int, grid: int) -> int {
    (y / grid) * grid
}

/// Distance from the top of a cell of height `h` to the baseline of text of
/// `size` millipoints centred in it: half of cell plus font height, less a
/// descender of a fifth of the font height. That is half the cell height and
/// three tenths of the font height, rounded once, to the nearest micrometre.
pub open spec fn baseline_offset(h: int, size: int) -> int {
    (5_000_000 * h + 3 * UM_PER_KILOPOINT * size + 5_000_000) / 10_000_000
}

/// Height above the page bottom of the baseline of text centred in a cell
/// whose top edge lies `y` below the page top.
pub open spec fn text_baseline(page_height: int, y: int, h: int, size: int) -> int {
    flip_y(page_height, y + baseline_offset(h, size))
}

/// Whether a character counts as half-width in the width estimate.
pub open spec fn is_narrow(c: char) -> bool {
    (c as u32) < 128
}

/// Estimated advance of one character at `size` millipoints, counted in
/// `ADVANCE_UNITS`ths of a micrometre: half the font height for ASCII, the
/// full font height otherwise.
pub open spec fn char_advance(c: char, size: int) -> int {
    if is_narrow(c) {
        size * UM_PER_KILOPOINT
    } else {
        2 * size * UM_PER_KILOPOINT
    }
}

/// Sum of the estimated advances of the characters of `text`, counted in
/// `ADVANCE_UNITS`ths of a micrometre.
pub open spec fn advance_sum(text: Seq<char>, size: int) -> int
    decreases text.len(),
{
    if text.len() == 0 {
        0
    } else {
        advance_sum(text.drop_last(), size) + char_advance(text.last(), size)
    }
}

/// The sum of the advances of the characters of `text` in micrometres,
/// rounded once, to the nearest micrometre.
pub open spec fn rounded_width(text: Seq<char>, size: int) -> int {
    (advance_sum(text, size) + ADVANCE_UNITS / 2) / ADVANCE_UNITS as int
}

/// Estimated width of `text` at `size` millipoints: the sum of the advances
/// of its characters, rounded once, and limited to the range of coordinates.
pub open spec fn text_width(text: Seq<char>, size: int) -> int {
    clamp(rounded_width(text, size), -MAX_COORD, MAX_COORD as int)
}

/// The alignment that a trace's alignment code asks for: `C` centres, `R`
/// aligns right, anything else aligns left.
pub open spec fn align_of(code: Seq<char>) -> Align {
    if code == seq!['C'] {
        Align::Center
    } else if code == seq!['R'] {
        Align::Right
    } else {
        Align::Left
    }
}

/// Left edge of text of estimated width `width` placed in a cell that starts
/// at `cell_x` and is `cell_w` wide.
pub open spec fn text_left(cell_x: int, cell_w: int, width: int, align: Align) -> int {
    match align {
        Align::Center => cell_x + (cell_w - width) / 2,
        Align::Right => cell_x + cell_w - width - CELL_PADDING,
        Align::Left => cell_x + CELL_PADDING,
    }
}

/// Converts a distance from the page top to a distance from the page bottom.
pub fn y_convert(y: i64, page_height: i32) -> (r: i64)
    requires
        is_coord(y as int),
    ensures
        r == flip_y(page_height as int, y as int),
{
    page_height as i64 - y
}

/// Moves `y` down onto a grid of pitch `grid`.
pub fn snap_to_grid(y: i32, grid: i32) -> (r: i64)
    requires
        grid > 0,
    ensures
        r == snap_down(y as int, grid as int),
        r <= y < r + grid,
{
    let q: i128 = div_floor(y as i128, grid as i128);
    proof {
        vstd::arithmetic::div_mod::lemma_fundamental_div_mod(y as int, grid as int);
        vstd::arithmetic::div_mod::lemma_mod_bound(y as int, grid as int);
        assert(grid as int * (y as int / grid as int) == (y as int / grid as int) * grid as int)
            by (nonlinear_arith);
    }
    (q * grid as i128) as i64
}

/// Height above the page bottom of the baseline of text of `size`
/// millipoints centred vertically in a cell.
pub fn y_convert_text(y: i64, h: i64, size: i32, page_height: i32) -> (r: i64)
    requires
        is_coord(y as int),
        is_coord(h as int),
    ensures
        r == text_baseline(page_height as int, y as int, h as int, size as int),
{
    let scaled: i128 = 5_000_000 * h as i128 + 3 * UM_PER_KILOPOINT as i128 * size as i128
        + 5_000_000;
    let offset: i128 = div_floor(scaled, 10_000_000);
    proof {
        assert(scaled == 5_000_000 * h as int + 3 * UM_PER_KILOPOINT * size as int + 5_000_000);
        lemma_div_is_ordered(-10_000_000_000_000_000_000, scaled as int, 10_000_000);
        lemma_div_is_ordered(scaled as int, 10_000_000_000_000_000_000, 10_000_000);
    }
    let text_y: i128 = y as i128 + offset;
    (page_height as i128 - text_y) as i64
}

/// Reads an alignment code.
pub fn parse_align(code: &str) -> (r: Align)
    ensures
        r == align_of(code@),
{
    let n: usize = code.unicode_len();
    if n == 1 {
        let c: char = code.get_char(0);
        assert(code@ =~= seq![c]);
        if c == 'C' {
            Align::Center
        } else if c == 'R' {
            Align::Right
        } else {
            assert(code@ != seq!['C'] && code@ != seq!['R']) by {
                assert(seq!['C'][0] == 'C');
                assert(seq!['R'][0] == 'R');
            }
            Align::Left
        }
    } else {
        assert(seq!['C'].len() == 1 && seq!['R'].len() == 1);
        Align::Left
    }
}

/// Estimates the width of `text` at `size` millipoints.
pub fn measure_text(text: &str, size: i32) -> (r: i64)
    ensures
        r == text_width(text@, size as int),
        is_coord(r as int),
{
    let len: usize = text.unicode_len();
    let half: i128 = size as i128 * UM_PER_KILOPOINT as i128;
    let mut acc: i128 = 0;
    for c in it: text.chars()
        invariant
            it.seq() == text@,
            len == text@.len(),
            half == size as int * UM_PER_KILOPOINT,
            acc == advance_sum(text@.take(it.index() as int), size as int),
            -1_600_000_000_000_000 * it.index() <= acc <= 1_600_000_000_000_000 * it.index(),
    {
        proof {
            let k = it.index() as int;
            assert(text@.take(k + 1).drop_last() =~= text@.take(k));
            assert(text@.take(k + 1).last() == c);
        }
        if (c as u32) < 128 {
            acc = acc + half;
        } else {
            acc = acc + 2 * half;
        }
    }
    proof {
        assert(text@.take(text@.len() as int) =~= text@);
    }
    let width: i128 = div_floor(acc + ADVANCE_UNITS as i128 / 2, ADVANCE_UNITS as i128);
    if width < -(MAX_COORD as i128) {
        -MAX_COORD
    } else if width > MAX_COORD as i128 {
        MAX_COORD
    } else {
        width as i64
    }
}

/// Left edge of `text` placed inside a cell with the given alignment.
pub fn place_text(cell_x: i64, cell_w: i64, text: &str, size: i32, align: Align) -> (r: i64)
    requires
        is_coord(cell_x as int),
        is_coord(cell_w as int),
    ensures
        r == text_left(cell_x as int, cell_w as int, text_width(text@, size as int), align),
{
    let width: i64 = measure_text(text, size);
    match align {
        Align::Center => cell_x + div_floor((cell_w - width) as i128, 2) as i64,
        Align::Right => cell_x + cell_w - width - CELL_PADDING,
        Align::Left => cell_x + CELL_PADDING,
    }
}

/// Left edge of `text` aligned inside a cell as an alignment code asks.
pub fn calc_text_x(cell_x: i64, cell_w: i64, text: &str, size: i32, align: &str) -> (r: i64)
    requires
        is_coord(cell_x as int),
        is_coord(cell_w as int),
    ensures
        r == text_left(
            cell_x as int,
            cell_w as int,
            text_width(text@, size as int),
            align_of(align@),
        ),
{
    place_text(cell_x, cell_w, text, size, parse_align(align))
}

/// Flipping a position twice gives it back.
pub proof fn lemma_flip_round_trip(page_height: int, y: int)
    ensures
        flip_y(page_height, flip_y(page_height, y)) == y,
{
}

/// Right-aligned text ends one padding short of the cell's right edge,
/// whatever the font size that produced the width.
pub proof fn lemma_right_aligned_edge(cell_x: int, cell_w: int, text: Seq<char>, size: int)
    ensures
        text_left(cell_x, cell_w, text_width(text, size), Align::Right) + text_width(text, size)
            + CELL_PADDING == cell_x + cell_w,
{
}

/// The advances of text made of ASCII characters only add up to its length
/// times half the font height.
pub proof fn lemma_ascii_width(text: Seq<char>, size: int)
    requires
        forall|i: int| 0 <= i < text.len() ==> is_narrow(#[trigger] text[i]),
    ensures
        advance_sum(text, size) == text.len() * (size * UM_PER_KILOPOINT),
    decreases text.len(),
{
    if text.len() > 0 {
        lemma_ascii_width(text.drop_last(), size);
        let half = size * UM_PER_KILOPOINT;
        assert((text.len() - 1) * half + half == text.len() * half) by (nonlinear_arith);
    }
}

/// The estimated width is the sum of the advances rounded once: no more
/// than half a micrometre from it, as long as it stays within the range of
/// coordinates.
pub proof fn lemma_width_within_half(text: Seq<char>, size: int)
    requires
        is_coord(rounded_width(text, size)),
    ensures
        ADVANCE_UNITS * text_width(text, size) - ADVANCE_UNITS / 2 <= advance_sum(text, size)
            < ADVANCE_UNITS * text_width(text, size) + ADVANCE_UNITS / 2,
{
    let shifted = advance_sum(text, size) + ADVANCE_UNITS / 2;
    lemma_fundamental_div_mod(shifted, ADVANCE_UNITS as int);
    lemma_mod_bound(shifted, ADVANCE_UNITS as int);
}

/// Right-aligned text starts no more than half a micrometre from where the
/// sum of the advances of its characters puts it: at the right edge of the
/// cell less padding and width.
pub proof fn lemma_right_edge_within_half(cell_x: int, cell_w: int, text: Seq<char>, size: int)
    requires
        is_coord(rounded_width(text, size)),
    ensures
        ({
            let left = text_left(cell_x, cell_w, text_width(text, size), Align::Right);
            let exact = ADVANCE_UNITS * (cell_x + cell_w - CELL_PADDING) - advance_sum(text, size);
            exact - ADVANCE_UNITS / 2 <= ADVANCE_UNITS * left < exact + ADVANCE_UNITS / 2
        }),
{
    lemma_width_within_half(text, size);
    let width = text_width(text, size);
    assert(ADVANCE_UNITS * (cell_x + cell_w - width - CELL_PADDING) == ADVANCE_UNITS * (cell_x
        + cell_w - CELL_PADDING) - ADVANCE_UNITS * width) by (nonlinear_arith);
}

/// The baseline lies no more than half a micrometre from where half the
/// cell height and three tenths of the font height put it.
pub proof fn lemma_baseline_within_half(h: int, size: int)
    ensures
        10_000_000 * baseline_offset(h, size) - 5_000_000 <= 5_000_000 * h + 3 * UM_PER_KILOPOINT
            * size < 10_000_000 * baseline_offset(h, size) + 5_000_000,
{
    let shifted = 5_000_000 * h + 3 * UM_PER_KILOPOINT * size + 5_000_000;
    lemma_fundamental_div_mod(shifted, 10_000_000);
    lemma_mod_bound(shifted, 10_000_000);
}

/// Every position inside one grid cell snaps to that cell's lower bound.
pub proof fn lemma_snap_within_cell(base: int, offset: int, grid: int)
    requires
        grid > 0,
        base % grid == 0,
        0 <= offset < grid,
    ensures
        snap_down(base + offset, grid) == base,
        snap_down(base, grid) == base,
{
    vstd::arithmetic::div_mod::lemma_fundamental_div_mod(base, grid);
    let q = base / grid;
    assert(base == q * grid) by (nonlinear_arith)
        requires
            base == grid * q + base % grid,
            base % grid == 0,
    ;
    vstd::arithmetic::div_mod::lemma_fundamental_div_mod_converse(base + offset, grid, q, offset);
    vstd::arithmetic::div_mod::lemma_fundamental_div_mod_converse(base, grid, q, 0);
}

} // verus!
