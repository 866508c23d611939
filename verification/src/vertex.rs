//! The state of one mass point, and the initial layout of the cloth.

use crate::error::ConfigError;
use crate::scalar::{fx_add, fx_times, sat_add, sat_times};
use crate::topology::{lemma_coords_in_range, Grid};
use crate::vector::Vec3;
use vstd::prelude::*;

verus! {

/// One mass point of the cloth. Its identity is its place in the vertex
/// buffer: the linear index of its grid point.
#[derive(Clone, Copy, Debug, PartialEq, Eq, Structural)]
pub struct Vertex {
    /// Where the vertex is, in world space.
    pub position: Vec3,
    /// How fast it moves.
    pub velocity: Vec3,
    /// Its mass, which is positive and never changes.
    pub mass: i64,
    /// Whether the vertex is an anchor, which a step leaves as it is.
    pub fixed: bool,
}

/// A buffer that fits the grid: one vertex per grid point, each with a
/// positive mass.
pub open spec fn spec_buffer_valid(grid: Grid, buffer: Seq<Vertex>) -> bool {
    &&& buffer.len() == grid.spec_vertex_count()
    &&& forall|i: int| 0 <= i < buffer.len() ==> (#[trigger] buffer[i]).mass > 0
}

/// The vertex that a new grid has at the linear index `index`: at rest, free,
/// and `spacing` away from its neighbours in the plane through `origin` that
/// the x and z axes span. Columns run along x, rows along z.
pub open spec fn spec_grid_vertex(cols: u32, spacing: i64, origin: Vec3, mass: i64, index: int) -> Vertex {
    let row = (index / cols as int) as u32;
    let col = (index % cols as int) as u32;
    Vertex {
        position: Vec3 {
            x: sat_add(origin.x, sat_times(col, spacing)),
            y: origin.y,
            z: sat_add(origin.z, sat_times(row, spacing)),
        },
        velocity: Vec3 { x: 0, y: 0, z: 0 },
        mass,
        fixed: false,
    }
}

/// The vertices of a new grid, row by row.
pub open spec fn spec_create_grid(rows: u32, cols: u32, spacing: i64, origin: Vec3, mass: i64) -> Seq<
    Vertex,
> {
    Seq::new((rows * cols) as nat, |i: int| spec_grid_vertex(cols, spacing, origin, mass, i))
}

/// The fault of a buffer that does not fit the grid, if it has one: a wrong
/// length first, then a mass that is not positive.
pub open spec fn spec_buffer_fault(grid: Grid, buffer: Seq<Vertex>) -> Option<ConfigError> {
    if buffer.len() != grid.spec_vertex_count() {
        Some(ConfigError::WrongVertexCount)
    } else if exists|i: int| 0 <= i < buffer.len() && (#[trigger] buffer[i]).mass <= 0 {
        Some(ConfigError::NonPositiveMass)
    } else {
        None
    }
}

/// Whether a scalar sits at a bound of its range.
pub open spec fn spec_at_bound(x: i64) -> bool {
    x == i64::MIN || x == i64::MAX
}

/// Whether a coordinate of the position or of the velocity of the vertex
/// sits at a bound of the scalar range: the mark that the arithmetic has
/// saturated, and that the state no longer means anything.
pub open spec fn spec_saturated(v: Vertex) -> bool {
    ||| spec_at_bound(v.position.x)
    ||| spec_at_bound(v.position.y)
    ||| spec_at_bound(v.position.z)
    ||| spec_at_bound(v.velocity.x)
    ||| spec_at_bound(v.velocity.y)
    ||| spec_at_bound(v.velocity.z)
}

/// Whether a scalar sits at a bound of its range.
pub fn at_bound(x: i64) -> (r: bool)
    ensures
        r == spec_at_bound(x),
{
    x == i64::MIN || x == i64::MAX
}

/// Whether the arithmetic has saturated at some vertex of the buffer.
pub fn any_saturated(buffer: &Vec<Vertex>) -> (r: bool)
    ensures
        r <==> exists|i: int| 0 <= i < buffer@.len() && spec_saturated(#[trigger] buffer@[i]),
{
    let mut i: usize = 0;
    while i < buffer.len()
        invariant
            i <= buffer.len(),
            forall|j: int| 0 <= j < i ==> !spec_saturated(#[trigger] buffer@[j]),
        decreases buffer.len() - i,
    {
        let v: Vertex = buffer[i];
        if at_bound(v.position.x) || at_bound(v.position.y) || at_bound(v.position.z) || at_bound(
            v.velocity.x,
        ) || at_bound(v.velocity.y) || at_bound(v.velocity.z) {
            assert(spec_saturated(buffer@[i as int]));
            return true;
        }
        i = i + 1;
    }
    false
}

/// Checks that a buffer fits the grid.
pub fn check_buffer(grid: &Grid, buffer: &Vec<Vertex>) -> (r: Result<(), ConfigError>)
    requires
        grid.wf(),
    ensures
        r is Ok <==> spec_buffer_valid(*grid, buffer@),
        match r {
            Ok(_) => spec_buffer_fault(*grid, buffer@) is None,
            Err(e) => spec_buffer_fault(*grid, buffer@) == Some(e),
        },
{
    if buffer.len() != grid.vertex_count() {
        return Err(ConfigError::WrongVertexCount);
    }
    let mut i: usize = 0;
    while i < buffer.len()
        invariant
            i <= buffer.len(),
            buffer.len() == grid.spec_vertex_count(),
            forall|j: int| 0 <= j < i ==> (#[trigger] buffer@[j]).mass > 0,
        decreases buffer.len() - i,
    {
        if buffer[i].mass <= 0 {
            assert(buffer@[i as int].mass <= 0);
            return Err(ConfigError::NonPositiveMass);
        }
        i = i + 1;
    }
    Ok(())
}

/// A flat grid of `rows` by `cols` vertices at rest, `spacing` apart, whose
/// first vertex lies at `origin`.
pub fn create_grid(rows: u32, cols: u32, spacing: i64, origin: Vec3, mass: i64) -> (r: Result<
    Vec<Vertex>,
    ConfigError,
>)
    ensures
        r is Ok <==> (Grid { rows, cols }).wf() && mass > 0,
        match r {
            Ok(v) => v@ == spec_create_grid(rows, cols, spacing, origin, mass) && spec_buffer_valid(
                Grid { rows, cols },
                v@,
            ),
            Err(e) => if rows < 2 || cols < 2 {
                e == ConfigError::GridTooSmall
            } else if rows * cols > u32::MAX {
                e == ConfigError::GridTooLarge
            } else {
                e == ConfigError::NonPositiveMass
            },
        },
{
    let grid: Grid = match Grid::new(rows, cols) {
        Ok(g) => g,
        Err(e) => {
            return Err(e);
        },
    };
    if mass <= 0 {
        return Err(ConfigError::NonPositiveMass);
    }
    let count: usize = grid.vertex_count();
    let mut out: Vec<Vertex> = Vec::new();
    let mut i: usize = 0;
    while i < count
        invariant
            grid == (Grid { rows, cols }),
            grid.wf(),
            mass > 0,
            count == grid.spec_vertex_count(),
            i <= count,
            out.len() == i,
            forall|j: int|
                0 <= j < i ==> #[trigger] out@[j] == spec_grid_vertex(cols, spacing, origin, mass, j),
        decreases count - i,
    {
        proof {
            lemma_coords_in_range(grid, i as int);
        }
        let rc: (u32, u32) = grid.coords_of(i);
        let v = Vertex {
            position: Vec3 {
                x: fx_add(origin.x, fx_times(rc.1, spacing)),
                y: origin.y,
                z: fx_add(origin.z, fx_times(rc.0, spacing)),
            },
            velocity: Vec3 { x: 0, y: 0, z: 0 },
            mass,
            fixed: false,
        };
        out.push(v);
        i = i + 1;
    }
    proof {
        assert(out@ =~= spec_create_grid(rows, cols, spacing, origin, mass));
    }
    Ok(out)
}

} // verus!
