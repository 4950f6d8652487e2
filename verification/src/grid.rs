//! How the cells of a grid are stored row by row.

use vstd::prelude::*;
use vstd::arithmetic::div_mod::lemma_fundamental_div_mod_converse;

use crate::point::Point;

verus! {

/// `p` names a cell of a grid that is `width` cells wide and `height` cells
/// high.
pub open spec fn grid_contains(width: int, height: int, p: Point) -> bool {
    &&& 0 <= p.x < width
    &&& 0 <= p.y < height
}

/// Where the cell `p` stands in a grid stored row by row.
pub open spec fn grid_index(width: int, p: Point) -> int {
    p.y * width + p.x
}

/// The cell that stands at place `i` of a grid stored row by row.
pub open spec fn grid_point(width: int, i: int) -> Point {
    Point { x: (i % width) as i16, y: (i / width) as i16 }
}

/// Every cell of the grid has a place in the row-by-row store, and
/// `grid_point` leads from that place back to the cell.
pub proof fn lemma_grid_index(width: int, height: int, p: Point)
    requires
        grid_contains(width, height, p),
    ensures
        0 <= p.y * width <= grid_index(width, p) < width * height,
        grid_point(width, grid_index(width, p)) == p,
        width <= u8::MAX && height <= u8::MAX ==> width * height <= u8::MAX * u8::MAX,
{
    let i = grid_index(width, p);
    assert(width <= u8::MAX && height <= u8::MAX ==> width * height <= u8::MAX * u8::MAX)
        by (nonlinear_arith)
        requires
            0 < width,
            0 < height,
    ;
    assert(0 <= p.y * width) by (nonlinear_arith)
        requires
            0 <= p.y,
            0 < width,
    ;
    assert(p.y * width + width <= height * width) by (nonlinear_arith)
        requires
            p.y + 1 <= height,
            0 < width,
    ;
    assert(height * width == width * height) by (nonlinear_arith);
    lemma_fundamental_div_mod_converse(i, width, p.y as int, p.x as int);
}

/// Every place of the row-by-row store holds a cell of the grid, and
/// `grid_index` leads from that cell back to the place.
pub proof fn lemma_grid_point(width: int, height: int, i: int)
    requires
        0 < width <= i16::MAX,
        0 <= height <= i16::MAX,
        0 <= i < width * height,
    ensures
        grid_contains(width, height, grid_point(width, i)),
        grid_index(width, grid_point(width, i)) == i,
{
    let q = i / width;
    let r = i % width;
    assert(i == width * q + r && 0 <= r < width) by {
        vstd::arithmetic::div_mod::lemma_fundamental_div_mod(i, width);
        vstd::arithmetic::div_mod::lemma_mod_bound(i, width);
    }
    assert(0 <= q < height) by (nonlinear_arith)
        requires
            i == width * q + r,
            0 <= r < width,
            0 <= i < width * height,
            0 < width,
    ;
    assert(width * q == q * width) by (nonlinear_arith);
}

/// Two cells of the grid that share a place in the store are the same cell.
pub proof fn lemma_grid_index_injective(width: int, height: int, p: Point, q: Point)
    requires
        grid_contains(width, height, p),
        grid_contains(width, height, q),
        grid_index(width, p) == grid_index(width, q),
    ensures
        p == q,
{
    lemma_grid_index(width, height, p);
    lemma_grid_index(width, height, q);
}

} // verus!
