//! The pixel buffer of one slice.
//!
//! Slice `i` images the Y and Z axes of the grid at the `i`-th sample of X.
//! Its cells are visited with Y outermost and Z innermost, and each cell
//! becomes one RGB pixel of three bytes: white where the point lies inside
//! the set, black where it does not. Whether a point lies inside is the
//! caller's to say, by the indices `(i, j, k)` of the point on the three axes.

use crate::grid::Grid;
use vstd::prelude::*;

verus! {

/// The value of each colour channel of a pixel.
pub open spec fn shade(inside: bool) -> u8 {
    if inside {
        255u8
    } else {
        0u8
    }
}

/// The pixel buffer of a mask: three equal bytes for each cell, in the order
/// of the cells.
pub open spec fn pixels_of(mask: Seq<bool>) -> Seq<u8> {
    Seq::new(3 * mask.len(), |i: int| shade(mask[i / 3]))
}

/// Position of the cell at `(j, k)`, the `j`-th sample of Y and the `k`-th
/// of Z, in a slice with `cols` samples on Z.
pub open spec fn cell(cols: int, j: int, k: int) -> int {
    j * cols + k
}

/// `mask` holds one answer of `inside` for every cell of slice `id`, which
/// has `rows` samples on Y and `cols` on Z, Y-major.
pub open spec fn sampled<F: Fn(usize, usize, usize) -> bool>(
    id: usize,
    rows: int,
    cols: int,
    inside: F,
    mask: Seq<bool>,
) -> bool {
    &&& mask.len() == rows * cols
    &&& forall|j: usize, k: usize|
        j < rows && k < cols ==> call_ensures(
            inside,
            (id, j, k),
            #[trigger] mask[cell(cols, j as int, k as int)],
        )
}

/// `inside` has only one answer for each point of the grid.
pub open spec fn single_valued<F: Fn(usize, usize, usize) -> bool>(inside: F) -> bool {
    forall|i: usize, j: usize, k: usize, a: bool, b: bool|
        call_ensures(inside, (i, j, k), a) && call_ensures(inside, (i, j, k), b) ==> a == b
}

/// Cells are laid out in the order in which they are visited: an earlier row,
/// or an earlier column of the same row, comes first.
pub proof fn lemma_cell_order(cols: int, j1: int, k1: int, j2: int, k2: int)
    requires
        0 <= k1 < cols,
        0 <= k2 < cols,
        0 <= j1,
        j1 < j2 || (j1 == j2 && k1 < k2),
    ensures
        0 <= cell(cols, j1, k1) < cell(cols, j2, k2),
{
    assert(0 <= j1 * cols) by (nonlinear_arith)
        requires
            0 <= j1,
            0 < cols,
    ;
    if j1 < j2 {
        assert(j1 * cols + cols <= j2 * cols) by (nonlinear_arith)
            requires
                j1 + 1 <= j2,
                0 < cols,
        ;
    }
}

/// Every position of a slice belongs to exactly one cell: that of row
/// `i / cols` and column `i % cols`.
pub proof fn lemma_cell_of_position(rows: int, cols: int, i: int)
    requires
        0 < cols,
        0 <= i < rows * cols,
    ensures
        0 <= i / cols < rows,
        0 <= i % cols < cols,
        cell(cols, i / cols, i % cols) == i,
{
    vstd::arithmetic::div_mod::lemma_fundamental_div_mod(i, cols);
    vstd::arithmetic::div_mod::lemma_mod_bound(i, cols);
    let q = i / cols;
    assert(cols * q == q * cols) by (nonlinear_arith);
    assert(0 <= q < rows) by (nonlinear_arith)
        requires
            0 < cols,
            0 <= i < rows * cols,
            i == q * cols + i % cols,
            0 <= i % cols < cols,
    ;
}

/// Paints a mask: each cell becomes one pixel of three equal bytes, 255 for a
/// cell inside the set and 0 for one outside.
pub fn paint(mask: &Vec<bool>) -> (pixels: Vec<u8>)
    ensures
        pixels@ == pixels_of(mask@),
{
    let mut pixels: Vec<u8> = Vec::new();
    let mut i: usize = 0;
    while i < mask.len()
        invariant
            i <= mask.len(),
            pixels@ == pixels_of(mask@.take(i as int)),
        decreases mask.len() - i,
    {
        let value: u8 = if mask[i] {
            255
        } else {
            0
        };
        pixels.push(value);
        pixels.push(value);
        pixels.push(value);
        i += 1;
        assert(pixels@ =~= pixels_of(mask@.take(i as int)));
    }
    assert(mask@.take(i as int) =~= mask@);
    pixels
}

/// Asks `inside` about every cell of slice `id`, which has `rows` samples on
/// Y and `cols` on Z: Y outermost, Z innermost, each cell once.
pub fn sample<F: Fn(usize, usize, usize) -> bool>(
    id: usize,
    rows: usize,
    cols: usize,
    inside: &F,
) -> (mask: Vec<bool>)
    requires
        forall|j: usize, k: usize| j < rows && k < cols ==> call_requires(inside, (id, j, k)),
    ensures
        sampled(id, rows as int, cols as int, *inside, mask@),
{
    let mut mask: Vec<bool> = Vec::new();
    let mut j: usize = 0;
    while j < rows
        invariant
            j <= rows,
            forall|j: usize, k: usize| j < rows && k < cols ==> call_requires(inside, (id, j, k)),
            sampled(id, j as int, cols as int, *inside, mask@),
        decreases rows - j,
    {
        let mut k: usize = 0;
        while k < cols
            invariant
                j < rows,
                k <= cols,
                forall|j: usize, k: usize|
                    j < rows && k < cols ==> call_requires(inside, (id, j, k)),
                mask@.len() == cell(cols as int, j as int, k as int),
                forall|a: usize, b: usize|
                    (a < j && b < cols) || (a == j && b < k) ==> call_ensures(
                        inside,
                        (id, a, b),
                        #[trigger] mask@[cell(cols as int, a as int, b as int)],
                    ),
            decreases cols - k,
        {
            let answer = inside(id, j, k);
            let ghost before = mask@;
            mask.push(answer);
            proof {
                assert forall|a: usize, b: usize|
                    (a < j && b < cols) || (a == j && b < k + 1) implies call_ensures(
                    inside,
                    (id, a, b),
                    #[trigger] mask@[cell(cols as int, a as int, b as int)],
                ) by {
                    if a == j && b == k {
                    } else {
                        lemma_cell_order(cols as int, a as int, b as int, j as int, k as int);
                        assert(mask@[cell(cols as int, a as int, b as int)] == before[cell(
                            cols as int,
                            a as int,
                            b as int,
                        )]);
                    }
                }
            }
            k += 1;
        }
        proof {
            assert(j * cols + cols == (j + 1) * cols) by (nonlinear_arith);
        }
        j += 1;
    }
    mask
}

/// Renders the pixel buffer of slice `id` of `grid`: asks `inside` about each
/// cell `(j, k)`, the `j`-th sample of Y and the `k`-th of Z, with Y
/// outermost and Z innermost, and paints the answers. The buffer holds
/// `grid.y() * grid.z()` pixels of three bytes.
pub fn render_slice<F: Fn(usize, usize, usize) -> bool>(
    id: usize,
    grid: &Grid,
    inside: &F,
) -> (pixels: Vec<u8>)
    requires
        forall|j: usize, k: usize|
            j < grid.y() && k < grid.z() ==> call_requires(inside, (id, j, k)),
    ensures
        exists|mask: Seq<bool>|
            sampled(id, grid.y() as int, grid.z() as int, *inside, mask) && pixels@ == pixels_of(
                mask,
            ),
        pixels@.len() == 3 * (grid.y() * grid.z()),
{
    let mask = sample(id, grid.y_steps() as usize, grid.z_steps() as usize, inside);
    paint(&mask)
}

/// Every pixel of a painted mask is pure white or pure black: its three
/// bytes are all 255 where the cell is inside the set, and all 0 where it is
/// not.
pub proof fn lemma_pixels_black_or_white(mask: Seq<bool>)
    ensures
        pixels_of(mask).len() == 3 * mask.len(),
        forall|p: int|
            0 <= p < mask.len() ==> {
                let tone = shade(#[trigger] mask[p]);
                &&& (tone == 255 || tone == 0)
                &&& pixels_of(mask)[3 * p] == tone
                &&& pixels_of(mask)[3 * p + 1] == tone
                &&& pixels_of(mask)[3 * p + 2] == tone
            },
{
}

/// Sampling is repeatable: where `inside` has only one answer for each point,
/// any two samplings of the same slice give the same mask, and so the same
/// pixel buffer.
pub proof fn lemma_sampling_repeatable<F: Fn(usize, usize, usize) -> bool>(
    id: usize,
    rows: int,
    cols: int,
    inside: F,
    first: Seq<bool>,
    second: Seq<bool>,
)
    requires
        0 <= rows <= usize::MAX,
        0 <= cols <= usize::MAX,
        sampled(id, rows, cols, inside, first),
        sampled(id, rows, cols, inside, second),
        single_valued(inside),
    ensures
        first == second,
        pixels_of(first) == pixels_of(second),
{
    assert forall|i: int| 0 <= i < first.len() implies first[i] == second[i] by {
        if cols == 0 {
            assert(rows * cols == 0) by (nonlinear_arith)
                requires
                    cols == 0,
            ;
        } else {
            lemma_cell_of_position(rows, cols, i);
            let j = (i / cols) as usize;
            let k = (i % cols) as usize;
            assert(call_ensures(inside, (id, j, k), first[cell(cols, j as int, k as int)]));
            assert(call_ensures(inside, (id, j, k), second[cell(cols, j as int, k as int)]));
        }
    }
    assert(first =~= second);
}

} // verus!
