//! What holds of every step and of every run of steps.

use crate::bounds::{
    lemma_clamp_all_unlimited, lemma_clamp_all_within_last, lemma_collide_outside,
};
use crate::config::EnvironmentData;
use crate::kernel::spec_clamp_all;
use crate::step::{
    spec_anchors, spec_clear_of_sphere, spec_integrated_position, spec_integrated_velocity,
    spec_last_limit, spec_limit_applies, spec_limited_position, spec_step, spec_update_vertex,
    spec_within_last_limit,
};
use crate::topology::{lemma_index_in_range, lemma_neighbors_in_grid, SpringClass};
use crate::vector::{dist_sq, Vec3};
use crate::vertex::{spec_buffer_valid, Vertex};
use vstd::prelude::*;

verus! {

/// The state after one step for each time step in `dts`, taken in order.
pub open spec fn spec_run(env: EnvironmentData, start: Seq<Vertex>, dts: Seq<i64>) -> Seq<Vertex>
    decreases dts.len(),
{
    if dts.len() == 0 {
        start
    } else {
        spec_step(env.spec_with_delta_time(dts.last()), spec_run(env, start, dts.drop_last()))
    }
}

/// The write buffer after the vertices that `order` names were updated from
/// the read buffer, one after the other. An index that names no vertex is
/// passed over.
pub open spec fn spec_dispatch(
    env: EnvironmentData,
    read: Seq<Vertex>,
    write: Seq<Vertex>,
    order: Seq<int>,
) -> Seq<Vertex>
    decreases order.len(),
{
    if order.len() == 0 {
        write
    } else {
        let done = spec_dispatch(env, read, write, order.drop_last());
        let i = order.last();
        if 0 <= i < done.len() {
            done.update(i, spec_update_vertex(env, read, i))
        } else {
            done
        }
    }
}

/// A step changes neither the number of vertices nor the mass of a vertex
/// nor whether it is fixed: a valid buffer stays valid.
pub proof fn lemma_step_keeps_shape(env: EnvironmentData, read: Seq<Vertex>)
    ensures
        spec_step(env, read).len() == read.len(),
        forall|i: int|
            0 <= i < read.len() ==> (#[trigger] spec_step(env, read)[i]).mass == read[i].mass
                && spec_step(env, read)[i].fixed == read[i].fixed,
        spec_buffer_valid(env.spec_grid(), read) ==> spec_buffer_valid(
            env.spec_grid(),
            spec_step(env, read),
        ),
{
}

/// A step leaves a fixed vertex exactly as it was.
pub proof fn lemma_step_keeps_fixed(env: EnvironmentData, read: Seq<Vertex>, i: int)
    requires
        0 <= i < read.len(),
        read[i].fixed,
    ensures
        spec_step(env, read)[i] == read[i],
{
}

/// After a step no free vertex is inside the sphere.
pub proof fn lemma_step_outside_sphere(env: EnvironmentData, read: Seq<Vertex>, i: int)
    requires
        env.spec_sphere().wf(),
        0 <= i < read.len(),
        !read[i].fixed,
    ensures
        dist_sq(spec_step(env, read)[i].position, env.sphere_center) >= env.sphere_radius
            * env.sphere_radius,
{
    lemma_collide_outside(
        env.spec_sphere(),
        env.sphere_damping,
        spec_limited_position(env, read, i),
        spec_integrated_velocity(env, read, i),
    );
}

/// A class whose limit does not apply leaves the position as it is.
proof fn lemma_limit_skipped(
    env: EnvironmentData,
    read: Seq<Vertex>,
    class: SpringClass,
    i: int,
    p: Vec3,
)
    requires
        !spec_limit_applies(env, read, class, i),
    ensures
        spec_clamp_all(p, spec_anchors(env.spec_grid(), read, class, i), env.spec_max_length(class))
            == p,
{
    if env.spec_max_length(class) < 0 {
        lemma_clamp_all_unlimited(
            p,
            spec_anchors(env.spec_grid(), read, class, i),
            env.spec_max_length(class),
        );
    }
}

/// After the stretch limits were enforced at vertex `i`, the vertex is no
/// farther than the maximum length from the place where the spring that was
/// enforced last is anchored.
pub proof fn lemma_limited_position_within(env: EnvironmentData, read: Seq<Vertex>, i: int)
    ensures
        spec_within_last_limit(env, read, i, spec_limited_position(env, read, i)),
{
    let grid = env.spec_grid();
    let moved = spec_integrated_position(env, read, i);
    let near = spec_anchors(grid, read, SpringClass::Stretch, i);
    let diagonal = spec_anchors(grid, read, SpringClass::Shear, i);
    let far = spec_anchors(grid, read, SpringClass::Bending, i);
    let after_near = spec_clamp_all(moved, near, env.structural_max_length);
    let after_diagonal = spec_clamp_all(after_near, diagonal, env.shear_max_length);
    match spec_last_limit(env, read, i) {
        Some(SpringClass::Bending) => {
            lemma_clamp_all_within_last(after_diagonal, far, env.bending_max_length);
        },
        Some(SpringClass::Shear) => {
            lemma_limit_skipped(env, read, SpringClass::Bending, i, after_diagonal);
            lemma_clamp_all_within_last(after_near, diagonal, env.shear_max_length);
        },
        Some(SpringClass::Stretch) => {
            lemma_limit_skipped(env, read, SpringClass::Bending, i, after_diagonal);
            lemma_limit_skipped(env, read, SpringClass::Shear, i, after_near);
            lemma_clamp_all_within_last(moved, near, env.structural_max_length);
        },
        None => {},
    }
}

/// The stretch bound that a step guarantees. After a step, a free vertex is
/// no farther than the maximum length from the place where the spring that
/// was enforced last is anchored: the last neighbour of the last class that
/// has a limit. This holds where the sphere did not move the vertex
/// afterwards. The anchor is the neighbour's position before the step, which
/// is its position after the step too where the neighbour is fixed.
pub proof fn lemma_step_within_last_limit(
    env: EnvironmentData,
    read: Seq<Vertex>,
    class: SpringClass,
    i: int,
)
    requires
        0 <= i < read.len(),
        !read[i].fixed,
        spec_last_limit(env, read, i) == Some(class),
        spec_clear_of_sphere(env, read, i),
    ensures
        dist_sq(
            spec_step(env, read)[i].position,
            spec_anchors(env.spec_grid(), read, class, i).last(),
        ) <= env.spec_max_length(class) * env.spec_max_length(class),
{
    lemma_limited_position_within(env, read, i);
}

/// The stretch bound between the two ends of a spring after a step. Where
/// the spring that was enforced last at the free vertex `i` joins it to a
/// fixed vertex, and the sphere did not move `i` afterwards, the two vertices
/// are no farther apart after the step than the maximum length of the class.
pub proof fn lemma_step_within_limit_of_fixed_neighbor(
    env: EnvironmentData,
    read: Seq<Vertex>,
    class: SpringClass,
    i: int,
    j: int,
)
    requires
        env.spec_grid().wf(),
        read.len() == env.spec_grid().spec_vertex_count(),
        0 <= i < read.len(),
        !read[i].fixed,
        spec_last_limit(env, read, i) == Some(class),
        spec_clear_of_sphere(env, read, i),
        ({
            let grid = env.spec_grid();
            let nb = grid.spec_neighbors(class, i / grid.cols as int, i % grid.cols as int);
            j == grid.spec_index_of(nb.last().0 as int, nb.last().1 as int)
        }),
        read[j].fixed,
    ensures
        0 <= j < read.len(),
        dist_sq(spec_step(env, read)[i].position, spec_step(env, read)[j].position)
            <= env.spec_max_length(class) * env.spec_max_length(class),
{
    let grid = env.spec_grid();
    let row = i / grid.cols as int;
    let col = i % grid.cols as int;
    let nb = grid.spec_neighbors(class, row, col);
    lemma_neighbors_in_grid(grid, class, row, col);
    assert(nb.len() == spec_anchors(grid, read, class, i).len());
    let last = nb[nb.len() - 1];
    assert(grid.spec_contains(last.0 as int, last.1 as int));
    lemma_index_in_range(grid, last.0 as int, last.1 as int);
    lemma_step_within_last_limit(env, read, class, i);
    lemma_step_keeps_fixed(env, read, j);
}

/// A run changes neither the number of vertices nor the mass of a vertex nor
/// whether it is fixed.
pub proof fn lemma_run_keeps_shape(env: EnvironmentData, start: Seq<Vertex>, dts: Seq<i64>)
    ensures
        spec_run(env, start, dts).len() == start.len(),
        forall|i: int|
            0 <= i < start.len() ==> (#[trigger] spec_run(env, start, dts)[i]).mass
                == start[i].mass && spec_run(env, start, dts)[i].fixed == start[i].fixed,
    decreases dts.len(),
{
    if dts.len() > 0 {
        lemma_run_keeps_shape(env, start, dts.drop_last());
        lemma_step_keeps_shape(
            env.spec_with_delta_time(dts.last()),
            spec_run(env, start, dts.drop_last()),
        );
    }
}

/// A fixed vertex has the same position, velocity and mass after any number
/// of steps, whatever the time steps were.
pub proof fn lemma_fixed_vertex_never_moves(
    env: EnvironmentData,
    start: Seq<Vertex>,
    dts: Seq<i64>,
    i: int,
)
    requires
        0 <= i < start.len(),
        start[i].fixed,
    ensures
        spec_run(env, start, dts)[i] == start[i],
    decreases dts.len(),
{
    if dts.len() > 0 {
        lemma_fixed_vertex_never_moves(env, start, dts.drop_last(), i);
        lemma_run_keeps_shape(env, start, dts.drop_last());
        lemma_step_keeps_fixed(
            env.spec_with_delta_time(dts.last()),
            spec_run(env, start, dts.drop_last()),
            i,
        );
    }
}

/// After one step or more, no free vertex is inside the sphere, wherever the
/// vertices started and whatever the time steps were.
pub proof fn lemma_free_vertex_stays_outside(
    env: EnvironmentData,
    start: Seq<Vertex>,
    dts: Seq<i64>,
    i: int,
)
    requires
        env.spec_sphere().wf(),
        dts.len() > 0,
        0 <= i < start.len(),
        !start[i].fixed,
    ensures
        dist_sq(spec_run(env, start, dts)[i].position, env.sphere_center) >= env.sphere_radius
            * env.sphere_radius,
{
    lemma_run_keeps_shape(env, start, dts.drop_last());
    lemma_step_outside_sphere(
        env.spec_with_delta_time(dts.last()),
        spec_run(env, start, dts.drop_last()),
        i,
    );
}

/// What a dispatch leaves at each index: the updated vertex where the order
/// names the index, and what the write buffer held before where it does not.
pub proof fn lemma_dispatch_at(
    env: EnvironmentData,
    read: Seq<Vertex>,
    write: Seq<Vertex>,
    order: Seq<int>,
    i: int,
)
    requires
        0 <= i < write.len(),
    ensures
        spec_dispatch(env, read, write, order).len() == write.len(),
        spec_dispatch(env, read, write, order)[i] == if order.contains(i) {
            spec_update_vertex(env, read, i)
        } else {
            write[i]
        },
    decreases order.len(),
{
    if order.len() > 0 {
        let rest = order.drop_last();
        lemma_dispatch_at(env, read, write, rest, i);
        if order.last() == i {
            assert(order[order.len() - 1] == i);
        } else if order.contains(i) {
            let k = choose|k: int| 0 <= k < order.len() && order[k] == i;
            assert(rest[k] == i);
        } else if rest.contains(i) {
            let k = choose|k: int| 0 <= k < rest.len() && rest[k] == i;
            assert(order[k] == i);
        }
    }
}

/// The next generation does not depend on the order in which the vertices
/// are updated, nor on what the write buffer held before: every schedule
/// that updates each vertex at least once gives the same buffer, the one that
/// `spec_step` names.
pub proof fn lemma_dispatch_order_irrelevant(
    env: EnvironmentData,
    read: Seq<Vertex>,
    write: Seq<Vertex>,
    order: Seq<int>,
)
    requires
        write.len() == read.len(),
        forall|i: int| 0 <= i < read.len() ==> order.contains(i),
    ensures
        spec_dispatch(env, read, write, order) == spec_step(env, read),
{
    let done = spec_dispatch(env, read, write, order);
    lemma_dispatch_len(env, read, write, order);
    assert forall|i: int| 0 <= i < read.len() implies #[trigger] done[i] == spec_step(
        env,
        read,
    )[i] by {
        lemma_dispatch_at(env, read, write, order, i);
    }
    assert(done =~= spec_step(env, read));
}

/// A dispatch does not change the length of the write buffer.
pub proof fn lemma_dispatch_len(
    env: EnvironmentData,
    read: Seq<Vertex>,
    write: Seq<Vertex>,
    order: Seq<int>,
)
    ensures
        spec_dispatch(env, read, write, order).len() == write.len(),
    decreases order.len(),
{
    if order.len() > 0 {
        lemma_dispatch_len(env, read, write, order.drop_last());
    }
}

} // verus!
