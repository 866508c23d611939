//! One tick of the simulation: every vertex of the next generation is
//! computed from the previous generation alone.

use crate::config::EnvironmentData;
use crate::kernel::{
    add_spring_forces, clamp_all, collide, spec_add_spring_forces, spec_clamp_all, spec_collide,
    spec_zero,
};
use crate::laws::lemma_limited_position_within;
use crate::scalar::{fx_div, fx_neg, sat_div, sat_neg};
use crate::topology::{lemma_neighbors_in_grid, Grid, SpringClass};
use crate::vector::{dist_sq, Vec3};
use crate::vertex::{spec_buffer_valid, Vertex};
use vstd::prelude::*;

verus! {

/// The positions, in the previous generation, of the vertices that a spring
/// of `class` joins to the vertex `index`, in the order of the offsets.
pub open spec fn spec_anchors(grid: Grid, read: Seq<Vertex>, class: SpringClass, index: int) -> Seq<
    Vec3,
> {
    let nb = grid.spec_neighbors(class, index / grid.cols as int, index % grid.cols as int);
    Seq::new(
        nb.len(),
        |j: int| read[grid.spec_index_of(nb[j].0 as int, nb[j].1 as int)].position,
    )
}

/// Each component of `f` divided by `mass`.
pub open spec fn spec_divided(f: Vec3, mass: i64) -> Vec3 {
    Vec3 { x: sat_div(f.x, mass), y: sat_div(f.y, mass), z: sat_div(f.z, mass) }
}

/// The force on vertex `index`: its structural, shear and bending springs in
/// this order, then its weight, then the drag against its velocity.
pub open spec fn spec_net_force(env: EnvironmentData, read: Seq<Vertex>, index: int) -> Vec3 {
    let v = read[index];
    let grid = env.spec_grid();
    let near = spec_add_spring_forces(
        spec_zero(),
        env.structural_stiffness,
        env.structural_rest_length,
        v.position,
        spec_anchors(grid, read, SpringClass::Stretch, index),
    );
    let diagonal = spec_add_spring_forces(
        near,
        env.shear_stiffness,
        env.shear_rest_length,
        v.position,
        spec_anchors(grid, read, SpringClass::Shear, index),
    );
    let far = spec_add_spring_forces(
        diagonal,
        env.bending_stiffness,
        env.bending_rest_length,
        v.position,
        spec_anchors(grid, read, SpringClass::Bending, index),
    );
    far.spec_plus(env.gravity.spec_scaled(v.mass)).spec_plus(
        v.velocity.spec_scaled(sat_neg(env.vertex_damping)),
    )
}

/// The velocity of vertex `index` after the force has acted on it for one
/// time step.
pub open spec fn spec_integrated_velocity(env: EnvironmentData, read: Seq<Vertex>, index: int) -> Vec3 {
    let v = read[index];
    v.velocity.spec_plus(
        spec_divided(spec_net_force(env, read, index), v.mass).spec_scaled(env.delta_time),
    )
}

/// The position of vertex `index` after it has moved with its new velocity
/// for one time step.
pub open spec fn spec_integrated_position(env: EnvironmentData, read: Seq<Vertex>, index: int) -> Vec3 {
    read[index].position.spec_plus(
        spec_integrated_velocity(env, read, index).spec_scaled(env.delta_time),
    )
}

/// The integrated position after the stretch limits were enforced: against
/// the structural neighbours first, then the shear neighbours, then the
/// bending neighbours, each where it was in the previous generation.
pub open spec fn spec_limited_position(env: EnvironmentData, read: Seq<Vertex>, index: int) -> Vec3 {
    let grid = env.spec_grid();
    let after_near = spec_clamp_all(
        spec_integrated_position(env, read, index),
        spec_anchors(grid, read, SpringClass::Stretch, index),
        env.structural_max_length,
    );
    let after_diagonal = spec_clamp_all(
        after_near,
        spec_anchors(grid, read, SpringClass::Shear, index),
        env.shear_max_length,
    );
    spec_clamp_all(
        after_diagonal,
        spec_anchors(grid, read, SpringClass::Bending, index),
        env.bending_max_length,
    )
}

/// Whether a step enforces a stretch limit for the springs of `class` at
/// vertex `i`: the class has a limit, and the vertex has a spring of it.
pub open spec fn spec_limit_applies(
    env: EnvironmentData,
    read: Seq<Vertex>,
    class: SpringClass,
    i: int,
) -> bool {
    env.spec_max_length(class) >= 0 && spec_anchors(env.spec_grid(), read, class, i).len() > 0
}

/// The class whose stretch limit a step enforces last at vertex `i`, if it
/// enforces one at all.
pub open spec fn spec_last_limit(env: EnvironmentData, read: Seq<Vertex>, i: int) -> Option<
    SpringClass,
> {
    if spec_limit_applies(env, read, SpringClass::Bending, i) {
        Some(SpringClass::Bending)
    } else if spec_limit_applies(env, read, SpringClass::Shear, i) {
        Some(SpringClass::Shear)
    } else if spec_limit_applies(env, read, SpringClass::Stretch, i) {
        Some(SpringClass::Stretch)
    } else {
        None
    }
}

/// Whether `p` is within the limit of the spring that a step enforces last
/// at vertex `i`: no farther from the place where that spring is anchored
/// than the maximum length of its class.
pub open spec fn spec_within_last_limit(
    env: EnvironmentData,
    read: Seq<Vertex>,
    i: int,
    p: Vec3,
) -> bool {
    match spec_last_limit(env, read, i) {
        Some(class) => dist_sq(p, spec_anchors(env.spec_grid(), read, class, i).last())
            <= env.spec_max_length(class) * env.spec_max_length(class),
        None => true,
    }
}

/// Whether the sphere leaves the vertex `i` where the stretch limits put it.
pub open spec fn spec_clear_of_sphere(env: EnvironmentData, read: Seq<Vertex>, i: int) -> bool {
    dist_sq(spec_limited_position(env, read, i), env.sphere_center) >= env.sphere_radius
        * env.sphere_radius
}

/// The state of vertex `index` in the next generation. A fixed vertex is
/// copied. A free vertex is integrated, held to the stretch limits and then
/// kept out of the sphere.
pub open spec fn spec_update_vertex(env: EnvironmentData, read: Seq<Vertex>, index: int) -> Vertex {
    let v = read[index];
    if v.fixed {
        v
    } else {
        let hit = spec_collide(
            env.spec_sphere(),
            env.sphere_damping,
            spec_limited_position(env, read, index),
            spec_integrated_velocity(env, read, index),
        );
        Vertex { position: hit.0, velocity: hit.1, mass: v.mass, fixed: false }
    }
}

/// The next generation: each vertex updated from the previous generation.
pub open spec fn spec_step(env: EnvironmentData, read: Seq<Vertex>) -> Seq<Vertex> {
    Seq::new(read.len(), |i: int| spec_update_vertex(env, read, i))
}

/// The positions of the neighbours of vertex `index` in the previous
/// generation.
pub fn gather_anchors(grid: &Grid, read: &Vec<Vertex>, class: SpringClass, index: usize) -> (r: Vec<
    Vec3,
>)
    requires
        grid.wf(),
        read.len() == grid.spec_vertex_count(),
        index < read.len(),
    ensures
        r@ == spec_anchors(*grid, read@, class, index as int),
{
    let rc: (u32, u32) = grid.coords_of(index);
    let nb: Vec<(u32, u32)> = grid.neighbors(class, rc.0, rc.1);
    proof {
        lemma_neighbors_in_grid(*grid, class, rc.0 as int, rc.1 as int);
    }
    let mut out: Vec<Vec3> = Vec::new();
    let mut j: usize = 0;
    while j < nb.len()
        invariant
            grid.wf(),
            read.len() == grid.spec_vertex_count(),
            j <= nb.len(),
            out.len() == j,
            nb@ == grid.spec_neighbors(class, rc.0 as int, rc.1 as int),
            forall|i: int|
                0 <= i < nb@.len() ==> grid.spec_contains(
                    (#[trigger] nb@[i]).0 as int,
                    nb@[i].1 as int,
                ),
            forall|i: int|
                0 <= i < j ==> #[trigger] out@[i] == read@[grid.spec_index_of(
                    nb@[i].0 as int,
                    nb@[i].1 as int,
                )].position,
        decreases nb.len() - j,
    {
        let at: (u32, u32) = nb[j];
        let idx: usize = grid.index_of(at.0, at.1);
        out.push(read[idx].position);
        j = j + 1;
    }
    proof {
        assert(out@ =~= spec_anchors(*grid, read@, class, index as int));
    }
    out
}

/// The state of vertex `index` in the next generation.
pub fn update_vertex(env: &EnvironmentData, read: &Vec<Vertex>, index: usize) -> (r: Vertex)
    requires
        env.wf(),
        spec_buffer_valid(env.spec_grid(), read@),
        index < read.len(),
    ensures
        r == spec_update_vertex(*env, read@, index as int),
        r.mass == read[index as int].mass,
        r.fixed == read[index as int].fixed,
        read[index as int].fixed ==> r == read[index as int],
        !read[index as int].fixed ==> dist_sq(r.position, env.sphere_center) >= env.sphere_radius
            * env.sphere_radius,
        !read[index as int].fixed && spec_clear_of_sphere(*env, read@, index as int)
            ==> spec_within_last_limit(*env, read@, index as int, r.position),
{
    let v: Vertex = read[index];
    if v.fixed {
        return v;
    }
    proof {
        lemma_limited_position_within(*env, read@, index as int);
    }
    let grid: Grid = env.grid();
    let near: Vec<Vec3> = gather_anchors(&grid, read, SpringClass::Stretch, index);
    let diagonal: Vec<Vec3> = gather_anchors(&grid, read, SpringClass::Shear, index);
    let far: Vec<Vec3> = gather_anchors(&grid, read, SpringClass::Bending, index);

    let pull_near: Vec3 = add_spring_forces(
        Vec3::zero(),
        env.structural_stiffness,
        env.structural_rest_length,
        v.position,
        &near,
    );
    let pull_diagonal: Vec3 = add_spring_forces(
        pull_near,
        env.shear_stiffness,
        env.shear_rest_length,
        v.position,
        &diagonal,
    );
    let pull_far: Vec3 = add_spring_forces(
        pull_diagonal,
        env.bending_stiffness,
        env.bending_rest_length,
        v.position,
        &far,
    );
    let force: Vec3 = pull_far.plus(env.gravity.scaled(v.mass)).plus(
        v.velocity.scaled(fx_neg(env.vertex_damping)),
    );

    let acceleration = Vec3 {
        x: fx_div(force.x, v.mass),
        y: fx_div(force.y, v.mass),
        z: fx_div(force.z, v.mass),
    };
    let velocity: Vec3 = v.velocity.plus(acceleration.scaled(env.delta_time));
    let moved: Vec3 = v.position.plus(velocity.scaled(env.delta_time));

    let after_near: Vec3 = clamp_all(moved, &near, env.structural_max_length);
    let after_diagonal: Vec3 = clamp_all(after_near, &diagonal, env.shear_max_length);
    let limited: Vec3 = clamp_all(after_diagonal, &far, env.bending_max_length);

    let sphere = env.sphere();
    let hit: (Vec3, Vec3) = collide(&sphere, env.sphere_damping, limited, velocity);
    Vertex { position: hit.0, velocity: hit.1, mass: v.mass, fixed: false }
}

/// One tick: the next generation of the vertex buffer, computed from the
/// previous one with the time step `dt`.
pub fn step(env: &EnvironmentData, dt: i64, read: &Vec<Vertex>) -> (write: Vec<Vertex>)
    requires
        env.wf(),
        spec_buffer_valid(env.spec_grid(), read@),
    ensures
        write@ == spec_step(env.spec_with_delta_time(dt), read@),
        spec_buffer_valid(env.spec_grid(), write@),
        forall|i: int| 0 <= i < read.len() && read[i].fixed ==> #[trigger] write[i] == read[i],
        forall|i: int|
            0 <= i < read.len() && !read[i].fixed ==> dist_sq(
                (#[trigger] write[i]).position,
                env.sphere_center,
            ) >= env.sphere_radius * env.sphere_radius,
        forall|i: int|
            0 <= i < read.len() && !read[i].fixed && spec_clear_of_sphere(
                env.spec_with_delta_time(dt),
                read@,
                i,
            ) ==> spec_within_last_limit(
                env.spec_with_delta_time(dt),
                read@,
                i,
                (#[trigger] write[i]).position,
            ),
{
    let mut now: EnvironmentData = *env;
    now.update_delta_time(dt);
    let mut write: Vec<Vertex> = Vec::new();
    let mut i: usize = 0;
    while i < read.len()
        invariant
            now == env.spec_with_delta_time(dt),
            now.wf(),
            spec_buffer_valid(now.spec_grid(), read@),
            i <= read.len(),
            write.len() == i,
            forall|j: int| 0 <= j < i ==> #[trigger] write@[j] == spec_update_vertex(now, read@, j),
            forall|j: int| 0 <= j < i ==> (#[trigger] write@[j]).mass == read@[j].mass,
            forall|j: int| 0 <= j < i && read@[j].fixed ==> #[trigger] write@[j] == read@[j],
            forall|j: int|
                0 <= j < i && !read@[j].fixed ==> dist_sq(
                    (#[trigger] write@[j]).position,
                    now.sphere_center,
                ) >= now.sphere_radius * now.sphere_radius,
            forall|j: int|
                0 <= j < i && !read@[j].fixed && spec_clear_of_sphere(now, read@, j)
                    ==> spec_within_last_limit(now, read@, j, (#[trigger] write@[j]).position),
        decreases read.len() - i,
    {
        let v: Vertex = update_vertex(&now, read, i);
        write.push(v);
        i = i + 1;
    }
    proof {
        assert(write@ =~= spec_step(now, read@));
    }
    write
}

} // verus!
