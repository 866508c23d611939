//! The rectangular lattice of mass points and its springs.
//!
//! No spring is stored. A spring joins a vertex to the vertex that lies at one
//! of four fixed offsets, and each of the three spring classes has its own
//! offsets. An offset that would leave the grid gives no spring: the grid does
//! not wrap around.

use crate::error::ConfigError;
use vstd::prelude::*;

verus! {

/// The three families of springs.
#[derive(Clone, Copy, Debug, PartialEq, Eq, Structural)]
pub enum SpringClass {
    /// A structural spring: joins a vertex to the next vertex of its row or
    /// column.
    Stretch,
    /// A shear spring: joins a vertex to a diagonal neighbour.
    Shear,
    /// A bending spring: joins a vertex to the vertex two steps along its row
    /// or column.
    Bending,
}

/// The dimensions of the grid. Vertex `(row, col)` has the linear index
/// `row * cols + col`.
#[derive(Clone, Copy, Debug, PartialEq, Eq, Structural)]
pub struct Grid {
    pub rows: u32,
    pub cols: u32,
}

/// The `k`-th offset `(rows, columns)` of a spring class, for `k` below 4.
pub open spec fn spec_offset(class: SpringClass, k: int) -> (int, int) {
    match class {
        SpringClass::Stretch => if k == 0 {
            (-1, 0)
        } else if k == 1 {
            (1, 0)
        } else if k == 2 {
            (0, -1)
        } else {
            (0, 1)
        },
        SpringClass::Shear => if k == 0 {
            (-1, -1)
        } else if k == 1 {
            (-1, 1)
        } else if k == 2 {
            (1, -1)
        } else {
            (1, 1)
        },
        SpringClass::Bending => if k == 0 {
            (-2, 0)
        } else if k == 1 {
            (2, 0)
        } else if k == 2 {
            (0, -2)
        } else {
            (0, 2)
        },
    }
}

/// The `k`-th offset `(rows, columns)` of a spring class.
pub fn offset(class: SpringClass, k: u8) -> (r: (i64, i64))
    requires
        k < 4,
    ensures
        (r.0 as int, r.1 as int) == spec_offset(class, k as int),
{
    match class {
        SpringClass::Stretch => if k == 0 {
            (-1, 0)
        } else if k == 1 {
            (1, 0)
        } else if k == 2 {
            (0, -1)
        } else {
            (0, 1)
        },
        SpringClass::Shear => if k == 0 {
            (-1, -1)
        } else if k == 1 {
            (-1, 1)
        } else if k == 2 {
            (1, -1)
        } else {
            (1, 1)
        },
        SpringClass::Bending => if k == 0 {
            (-2, 0)
        } else if k == 1 {
            (2, 0)
        } else if k == 2 {
            (0, -2)
        } else {
            (0, 2)
        },
    }
}

impl Grid {
    /// At least two rows and two columns, and few enough vertices for a
    /// 32-bit index.
    pub open spec fn wf(self) -> bool {
        &&& self.rows >= 2
        &&& self.cols >= 2
        &&& self.rows * self.cols <= u32::MAX
    }

    /// The number of vertices.
    pub open spec fn spec_vertex_count(self) -> nat {
        (self.rows * self.cols) as nat
    }

    /// Whether `(row, col)` names a vertex of the grid.
    pub open spec fn spec_contains(self, row: int, col: int) -> bool {
        0 <= row < self.rows && 0 <= col < self.cols
    }

    /// The linear index of vertex `(row, col)`.
    pub open spec fn spec_index_of(self, row: int, col: int) -> int {
        row * self.cols + col
    }

    /// The vertex `(row, col)` if the grid has it, and nothing otherwise.
    pub open spec fn spec_keep(self, row: int, col: int) -> Seq<(u32, u32)> {
        if self.spec_contains(row, col) {
            seq![(row as u32, col as u32)]
        } else {
            Seq::empty()
        }
    }

    /// The neighbours of `(row, col)` among the first `k` offsets of `class`.
    pub open spec fn spec_neighbors_upto(self, class: SpringClass, row: int, col: int, k: int) -> Seq<
        (u32, u32),
    >
        decreases k,
    {
        if k <= 0 {
            Seq::empty()
        } else {
            let o = spec_offset(class, k - 1);
            self.spec_neighbors_upto(class, row, col, k - 1) + self.spec_keep(row + o.0, col + o.1)
        }
    }

    /// The vertices joined to `(row, col)` by a spring of `class`: the targets
    /// of the four offsets that lie inside the grid, in the order of the
    /// offsets.
    pub open spec fn spec_neighbors(self, class: SpringClass, row: int, col: int) -> Seq<(u32, u32)> {
        self.spec_neighbors_upto(class, row, col, 4)
    }

    /// A grid of `rows` by `cols` vertices.
    pub fn new(rows: u32, cols: u32) -> (r: Result<Grid, ConfigError>)
        ensures
            match r {
                Ok(g) => g == (Grid { rows, cols }) && g.wf(),
                Err(e) => if rows < 2 || cols < 2 {
                    e == ConfigError::GridTooSmall
                } else {
                    e == ConfigError::GridTooLarge && rows * cols > u32::MAX
                },
            },
            r is Ok <==> (Grid { rows, cols }).wf(),
    {
        if rows < 2 || cols < 2 {
            return Err(ConfigError::GridTooSmall);
        }
        assert(rows * cols <= 0xffff_ffff * 0xffff_ffff) by (nonlinear_arith)
            requires
                0 <= rows <= 0xffff_ffff,
                0 <= cols <= 0xffff_ffff,
        ;
        let count: u64 = (rows as u64) * (cols as u64);
        if count > u32::MAX as u64 {
            return Err(ConfigError::GridTooLarge);
        }
        Ok(Grid { rows, cols })
    }

    /// The number of vertices.
    pub fn vertex_count(&self) -> (r: usize)
        requires
            self.wf(),
        ensures
            r == self.spec_vertex_count(),
    {
        (self.rows * self.cols) as usize
    }

    /// Whether `(row, col)` names a vertex of the grid.
    pub fn contains(&self, row: i64, col: i64) -> (r: bool)
        ensures
            r == self.spec_contains(row as int, col as int),
    {
        0 <= row && row < self.rows as i64 && 0 <= col && col < self.cols as i64
    }

    /// The linear index of vertex `(row, col)`.
    pub fn index_of(&self, row: u32, col: u32) -> (r: usize)
        requires
            self.wf(),
            self.spec_contains(row as int, col as int),
        ensures
            r == self.spec_index_of(row as int, col as int),
            r < self.spec_vertex_count(),
    {
        proof {
            lemma_index_in_range(*self, row as int, col as int);
        }
        (row * self.cols + col) as usize
    }

    /// The row and column of the vertex with the linear index `index`.
    pub fn coords_of(&self, index: usize) -> (r: (u32, u32))
        requires
            self.wf(),
            index < self.spec_vertex_count(),
        ensures
            r.0 == index as int / self.cols as int,
            r.1 == index as int % self.cols as int,
            self.spec_contains(r.0 as int, r.1 as int),
            self.spec_index_of(r.0 as int, r.1 as int) == index,
    {
        let cols: usize = self.cols as usize;
        proof {
            lemma_coords_in_range(*self, index as int);
        }
        ((index / cols) as u32, (index % cols) as u32)
    }

    /// The vertices joined to `(row, col)` by a spring of `class`.
    pub fn neighbors(&self, class: SpringClass, row: u32, col: u32) -> (r: Vec<(u32, u32)>)
        ensures
            r@ == self.spec_neighbors(class, row as int, col as int),
    {
        let mut out: Vec<(u32, u32)> = Vec::new();
        let mut k: u8 = 0;
        while k < 4
            invariant
                k <= 4,
                out@ == self.spec_neighbors_upto(class, row as int, col as int, k as int),
            decreases 4 - k,
        {
            let o: (i64, i64) = offset(class, k);
            let r: i64 = row as i64 + o.0;
            let c: i64 = col as i64 + o.1;
            if self.contains(r, c) {
                out.push((r as u32, c as u32));
            }
            k = k + 1;
        }
        out
    }
}

/// Every neighbour among the first `k` offsets lies inside the grid, and
/// there are at most `k` of them.
pub proof fn lemma_neighbors_upto_in_grid(grid: Grid, class: SpringClass, row: int, col: int, k: int)
    ensures
        grid.spec_neighbors_upto(class, row, col, k).len() <= if k > 0 {
            k
        } else {
            0
        },
        forall|j: int|
            0 <= j < grid.spec_neighbors_upto(class, row, col, k).len() ==> grid.spec_contains(
                (#[trigger] grid.spec_neighbors_upto(class, row, col, k)[j]).0 as int,
                grid.spec_neighbors_upto(class, row, col, k)[j].1 as int,
            ),
    decreases k,
{
    if k > 0 {
        lemma_neighbors_upto_in_grid(grid, class, row, col, k - 1);
    }
}

/// Every neighbour lies inside the grid, and a vertex has at most four
/// neighbours of one class.
pub proof fn lemma_neighbors_in_grid(grid: Grid, class: SpringClass, row: int, col: int)
    ensures
        grid.spec_neighbors(class, row, col).len() <= 4,
        forall|j: int|
            0 <= j < grid.spec_neighbors(class, row, col).len() ==> grid.spec_contains(
                (#[trigger] grid.spec_neighbors(class, row, col)[j]).0 as int,
                grid.spec_neighbors(class, row, col)[j].1 as int,
            ),
{
    lemma_neighbors_upto_in_grid(grid, class, row, col, 4);
}

/// Whether `(dr, dc)` is one of the four offsets of `class`.
pub open spec fn spec_is_offset(class: SpringClass, dr: int, dc: int) -> bool {
    ||| spec_offset(class, 0) == (dr, dc)
    ||| spec_offset(class, 1) == (dr, dc)
    ||| spec_offset(class, 2) == (dr, dc)
    ||| spec_offset(class, 3) == (dr, dc)
}

/// A concatenation holds what either part holds.
proof fn lemma_concat_contains(a: Seq<(u32, u32)>, b: Seq<(u32, u32)>, x: (u32, u32))
    ensures
        (a + b).contains(x) <==> a.contains(x) || b.contains(x),
{
    if a.contains(x) {
        let i = choose|i: int| 0 <= i < a.len() && a[i] == x;
        assert((a + b)[i] == x);
    }
    if b.contains(x) {
        let i = choose|i: int| 0 <= i < b.len() && b[i] == x;
        assert((a + b)[a.len() + i] == x);
    }
    if (a + b).contains(x) {
        let i = choose|i: int| 0 <= i < (a + b).len() && (a + b)[i] == x;
        if i < a.len() {
            assert(a[i] == x);
        } else {
            assert(b[i - a.len()] == x);
        }
    }
}

/// What `spec_keep` holds: the vertex itself, if the grid has it.
proof fn lemma_keep_contains(grid: Grid, row: int, col: int, x: (u32, u32))
    ensures
        grid.spec_keep(row, col).contains(x) <==> grid.spec_contains(row, col) && x.0 == row && x.1
            == col,
{
    let s = grid.spec_keep(row, col);
    if grid.spec_contains(row, col) {
        assert(s[0] == (row as u32, col as u32));
    }
}

/// A vertex is a neighbour of `(row, col)` exactly if the grid has it and it
/// lies at one of the offsets of the class.
pub proof fn lemma_neighbor_iff(grid: Grid, class: SpringClass, row: int, col: int, x: (u32, u32))
    ensures
        grid.spec_neighbors(class, row, col).contains(x) <==> grid.spec_contains(
            x.0 as int,
            x.1 as int,
        ) && spec_is_offset(class, x.0 - row, x.1 - col),
{
    reveal_with_fuel(Grid::spec_neighbors_upto, 5);
    let o0 = spec_offset(class, 0);
    let o1 = spec_offset(class, 1);
    let o2 = spec_offset(class, 2);
    let o3 = spec_offset(class, 3);
    let k0 = grid.spec_keep(row + o0.0, col + o0.1);
    let k1 = grid.spec_keep(row + o1.0, col + o1.1);
    let k2 = grid.spec_keep(row + o2.0, col + o2.1);
    let k3 = grid.spec_keep(row + o3.0, col + o3.1);
    let u0 = Seq::<(u32, u32)>::empty();
    assert(grid.spec_neighbors_upto(class, row, col, 0) == u0);
    assert(grid.spec_neighbors(class, row, col) == u0 + k0 + k1 + k2 + k3);
    assert(!u0.contains(x));
    lemma_concat_contains(u0, k0, x);
    lemma_concat_contains(u0 + k0, k1, x);
    lemma_concat_contains(u0 + k0 + k1, k2, x);
    lemma_concat_contains(u0 + k0 + k1 + k2, k3, x);
    lemma_keep_contains(grid, row + o0.0, col + o0.1, x);
    lemma_keep_contains(grid, row + o1.0, col + o1.1, x);
    lemma_keep_contains(grid, row + o2.0, col + o2.1, x);
    lemma_keep_contains(grid, row + o3.0, col + o3.1, x);
}

/// A spring joins both of its ends: where `b` is a neighbour of the vertex
/// `a`, the vertex `a` is a neighbour of `b`, in the same class. And no
/// vertex is its own neighbour.
pub proof fn lemma_springs_are_mutual(grid: Grid, class: SpringClass, a: (u32, u32), b: (u32, u32))
    requires
        grid.spec_contains(a.0 as int, a.1 as int),
        grid.spec_neighbors(class, a.0 as int, a.1 as int).contains(b),
    ensures
        grid.spec_neighbors(class, b.0 as int, b.1 as int).contains(a),
        a != b,
{
    lemma_neighbor_iff(grid, class, a.0 as int, a.1 as int, b);
    lemma_neighbor_iff(grid, class, b.0 as int, b.1 as int, a);
}

/// A vertex of the grid has a linear index below the vertex count.
pub proof fn lemma_index_in_range(grid: Grid, row: int, col: int)
    requires
        grid.spec_contains(row, col),
    ensures
        0 <= grid.spec_index_of(row, col) < grid.spec_vertex_count(),
        0 <= row * grid.cols <= grid.spec_index_of(row, col),
{
    let cols = grid.cols as int;
    let rows = grid.rows as int;
    assert(0 <= row * cols && row * cols + cols <= rows * cols) by (nonlinear_arith)
        requires
            0 <= row < rows,
            0 <= cols,
    ;
}

/// Division by the number of columns takes a linear index back to its row
/// and column.
pub proof fn lemma_coords_in_range(grid: Grid, index: int)
    requires
        grid.cols > 0,
        0 <= index < grid.spec_vertex_count(),
    ensures
        grid.spec_contains(index / grid.cols as int, index % grid.cols as int),
        grid.spec_index_of(index / grid.cols as int, index % grid.cols as int) == index,
{
    let cols = grid.cols as int;
    let rows = grid.rows as int;
    let q = index / cols;
    let m = index % cols;
    assert(index == q * cols + m && 0 <= m < cols) by (nonlinear_arith)
        requires
            cols > 0,
            q == index / cols,
            m == index % cols,
    ;
    assert(0 <= q < rows) by (nonlinear_arith)
        requires
            index == q * cols + m,
            0 <= m < cols,
            0 <= index < rows * cols,
            cols > 0,
    ;
}

/// The linear index determines the row and the column.
pub proof fn lemma_index_unique(grid: Grid, r1: int, c1: int, r2: int, c2: int)
    requires
        grid.spec_contains(r1, c1),
        grid.spec_contains(r2, c2),
        grid.spec_index_of(r1, c1) == grid.spec_index_of(r2, c2),
    ensures
        r1 == r2,
        c1 == c2,
{
    let cols = grid.cols as int;
    assert(r1 == r2) by (nonlinear_arith)
        requires
            r1 * cols + c1 == r2 * cols + c2,
            0 <= c1 < cols,
            0 <= c2 < cols,
    ;
}

} // verus!
