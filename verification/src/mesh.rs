//! The triangles that a renderer draws for the cloth: two for each cell of
//! the grid. The list depends on the dimensions of the grid alone.

use crate::topology::Grid;
use vstd::arithmetic::div_mod::lemma_fundamental_div_mod_converse;
use vstd::prelude::*;

verus! {

/// The number of cells of the grid: the squares between four vertices.
pub open spec fn spec_cell_count(grid: Grid) -> int {
    (grid.rows - 1) * (grid.cols - 1)
}

/// The number of indices in the triangle list: six for each cell.
pub open spec fn spec_index_count(grid: Grid) -> int {
    6 * spec_cell_count(grid)
}

/// The `k`-th of the six indices of the cell whose top left vertex is
/// `(row, col)`: the triangle top left, bottom left, bottom right, then the
/// triangle top left, bottom right, top right.
pub open spec fn spec_cell_index(grid: Grid, row: int, col: int, k: int) -> int {
    let top_left = row * grid.cols + col;
    let top_right = top_left + 1;
    let bottom_left = top_left + grid.cols;
    let bottom_right = bottom_left + 1;
    if k == 0 {
        top_left
    } else if k == 1 {
        bottom_left
    } else if k == 2 {
        bottom_right
    } else if k == 3 {
        top_left
    } else if k == 4 {
        bottom_right
    } else {
        top_right
    }
}

/// The index at place `i` of the triangle list. The cells come row by row.
pub open spec fn spec_triangle_index(grid: Grid, i: int) -> int {
    let cell = i / 6;
    spec_cell_index(grid, cell / (grid.cols - 1), cell % (grid.cols - 1), i % 6)
}

/// The triangle list of the grid.
pub open spec fn spec_triangle_indices(grid: Grid) -> Seq<u32> {
    Seq::new(spec_index_count(grid) as nat, |i: int| spec_triangle_index(grid, i) as u32)
}

/// The `k`-th byte of `w`, counted from the least significant one.
pub open spec fn spec_byte_of(w: u32, k: int) -> u8 {
    if k == 0 {
        (w % 256) as u8
    } else if k == 1 {
        (w / 256 % 256) as u8
    } else if k == 2 {
        (w / 65536 % 256) as u8
    } else {
        (w / 16777216) as u8
    }
}

/// The `k`-th byte of the `i`-th group of four bytes.
pub open spec fn spec_byte_at(bytes: Seq<u8>, i: int, k: int) -> u8 {
    bytes[4 * i + k]
}

/// Whether `bytes` holds the words one after the other, four bytes each, all
/// of them with the least significant byte first (`little`) or all of them
/// with the most significant byte first.
pub open spec fn spec_encodes(words: Seq<u32>, bytes: Seq<u8>, little: bool) -> bool {
    &&& bytes.len() == 4 * words.len()
    &&& forall|i: int, k: int|
        0 <= i < words.len() && 0 <= k < 4 ==> #[trigger] spec_byte_at(bytes, i, k) == spec_byte_of(
            words[i],
            if little {
                k
            } else {
                3 - k
            },
        )
}

/// Division by the number of cells in a row takes the number of a cell back
/// to its row and column.
pub proof fn lemma_cell_coords(grid: Grid, row: int, col: int)
    requires
        grid.wf(),
        0 <= row < grid.rows - 1,
        0 <= col < grid.cols - 1,
    ensures
        ({
            let cell = row * (grid.cols - 1) + col;
            &&& 0 <= cell < spec_cell_count(grid)
            &&& cell / (grid.cols - 1) == row
            &&& cell % (grid.cols - 1) == col
        }),
{
    let w = grid.cols - 1;
    let cell = row * w + col;
    lemma_fundamental_div_mod_converse(cell, w, row, col);
    assert(0 <= row * w && row * w + w <= (grid.rows - 1) * w) by (nonlinear_arith)
        requires
            0 <= row < grid.rows - 1,
            w > 0,
    ;
}

/// Every index of the triangle list names a vertex of the grid, and the
/// three corners of each triangle are three different vertices.
pub proof fn lemma_triangles_in_grid(grid: Grid, i: int)
    requires
        grid.wf(),
        0 <= i < spec_index_count(grid),
    ensures
        0 <= spec_triangle_index(grid, i) < grid.spec_vertex_count(),
        ({
            let t = 3 * (i / 3);
            &&& spec_triangle_index(grid, t) != spec_triangle_index(grid, t + 1)
            &&& spec_triangle_index(grid, t + 1) != spec_triangle_index(grid, t + 2)
            &&& spec_triangle_index(grid, t) != spec_triangle_index(grid, t + 2)
        }),
{
    let w = grid.cols - 1;
    let cell = i / 6;
    let row = cell / w;
    let col = cell % w;
    assert(0 <= cell < spec_cell_count(grid));
    assert(cell == row * w + col && 0 <= col < w) by (nonlinear_arith)
        requires
            w > 0,
            row == cell / w,
            col == cell % w,
    ;
    assert(0 <= row < grid.rows - 1) by (nonlinear_arith)
        requires
            cell == row * w + col,
            0 <= col < w,
            0 <= cell < (grid.rows - 1) * w,
    ;
    assert(0 <= row * grid.cols && (row + 1) * grid.cols + grid.cols <= grid.rows * grid.cols
        && (row + 1) * grid.cols == row * grid.cols + grid.cols) by (nonlinear_arith)
        requires
            0 <= row < grid.rows - 1,
            grid.cols >= 2,
    ;
    let t = 3 * (i / 3);
    assert(t / 6 == cell && (t + 1) / 6 == cell && (t + 2) / 6 == cell);
}

/// The number of indices in the triangle list.
pub fn index_count(grid: &Grid) -> (r: u64)
    requires
        grid.wf(),
    ensures
        r == spec_index_count(*grid),
{
    proof {
        assert(0 <= (grid.rows - 1) * (grid.cols - 1) <= grid.rows * grid.cols) by (nonlinear_arith)
            requires
                grid.rows >= 1,
                grid.cols >= 1,
        ;
    }
    6 * ((grid.rows - 1) as u64 * (grid.cols - 1) as u64)
}

/// The triangle list of the grid: for each cell, row by row, the indices of
/// its two triangles.
pub fn triangle_indices(grid: &Grid) -> (r: Vec<u32>)
    requires
        grid.wf(),
    ensures
        r@ == spec_triangle_indices(*grid),
{
    let mut out: Vec<u32> = Vec::new();
    let width: u32 = grid.cols - 1;
    let mut row: u32 = 0;
    while row < grid.rows - 1
        invariant
            grid.wf(),
            width == grid.cols - 1,
            row <= grid.rows - 1,
            out@.len() == 6 * (row * width),
            forall|j: int| 0 <= j < out@.len() ==> #[trigger] out@[j] == spec_triangle_index(*grid, j),
        decreases grid.rows - 1 - row,
    {
        let mut col: u32 = 0;
        while col < width
            invariant
                grid.wf(),
                width == grid.cols - 1,
                row < grid.rows - 1,
                col <= width,
                out@.len() == 6 * (row * width + col),
                forall|j: int|
                    0 <= j < out@.len() ==> #[trigger] out@[j] == spec_triangle_index(*grid, j),
            decreases width - col,
        {
            proof {
                lemma_cell_coords(*grid, row as int, col as int);
                assert(0 <= row * grid.cols && (row + 1) * grid.cols + grid.cols <= grid.rows
                    * grid.cols && (row + 1) * grid.cols == row * grid.cols + grid.cols)
                    by (nonlinear_arith)
                    requires
                        0 <= row < grid.rows - 1,
                        grid.cols >= 2,
                ;
            }
            let ghost base: int = out@.len() as int;
            let top_left: u32 = row * grid.cols + col;
            let top_right: u32 = top_left + 1;
            let bottom_left: u32 = top_left + grid.cols;
            let bottom_right: u32 = bottom_left + 1;
            out.push(top_left);
            out.push(bottom_left);
            out.push(bottom_right);
            out.push(top_left);
            out.push(bottom_right);
            out.push(top_right);
            proof {
                let cell = row * width + col;
                assert(base == 6 * cell);
                assert forall|j: int| base <= j < base + 6 implies #[trigger] out@[j]
                    == spec_triangle_index(*grid, j) by {
                    assert(j / 6 == cell);
                    assert(j % 6 == j - base);
                }
            }
            col = col + 1;
        }
        proof {
            assert((row + 1) * width == row * width + width) by (nonlinear_arith);
        }
        row = row + 1;
    }
    proof {
        assert(out@ =~= spec_triangle_indices(*grid));
    }
    out
}

/// The bytes of the words as they lie in memory, by `bytemuck::cast_slice`.
/// The cast gives a view of the same memory: four bytes for each word, in
/// the order of the words and in the byte order of the machine, which is the
/// same for all of them.
#[verifier::external_body]
fn words_as_bytes(words: &Vec<u32>) -> (bytes: Vec<u8>)
    ensures
        spec_encodes(words@, bytes@, true) || spec_encodes(words@, bytes@, false),
{
    bytemuck::cast_slice::<u32, u8>(words.as_slice()).to_vec()
}

/// The contents of the index buffer: the triangle list as bytes, ready to be
/// handed to the graphics device.
pub fn index_buffer_bytes(grid: &Grid) -> (bytes: Vec<u8>)
    requires
        grid.wf(),
    ensures
        bytes@.len() == 4 * spec_index_count(*grid),
        spec_encodes(spec_triangle_indices(*grid), bytes@, true) || spec_encodes(
            spec_triangle_indices(*grid),
            bytes@,
            false,
        ),
{
    let indices: Vec<u32> = triangle_indices(grid);
    words_as_bytes(&indices)
}

} // verus!
