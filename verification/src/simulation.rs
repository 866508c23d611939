//! The frame driver: a cloth with its parameters and its two generations of
//! vertices.
//!
//! A step reads the current generation and writes the other one, and only
//! then do the two change roles. Whoever reads the current generation
//! between two steps sees a complete one.

use crate::config::EnvironmentData;
use crate::error::ConfigError;
use crate::laws::{
    lemma_fixed_vertex_never_moves, lemma_free_vertex_stays_outside, lemma_run_keeps_shape,
    spec_run,
};
use crate::step::{spec_step, spec_update_vertex, update_vertex};
use crate::topology::Grid;
use crate::vector::{dist_sq, Vec3};
use crate::vertex::{check_buffer, create_grid, spec_buffer_fault, spec_buffer_valid, spec_create_grid, Vertex};
use vstd::prelude::*;

verus! {

/// A running simulation.
pub struct Simulation {
    env: EnvironmentData,
    front: Vec<Vertex>,
    back: Vec<Vertex>,
}

impl Simulation {
    #[verifier::type_invariant]
    spec fn inv(self) -> bool {
        &&& self.env.wf()
        &&& spec_buffer_valid(self.env.spec_grid(), self.front@)
    }

    /// The parameters that the next step will use.
    pub closed spec fn spec_environment(self) -> EnvironmentData {
        self.env
    }

    /// The current generation: the state after the last step.
    pub closed spec fn spec_current(self) -> Seq<Vertex> {
        self.front@
    }

    /// The generation before the current one. After the first step it is
    /// what the last step read.
    pub closed spec fn spec_previous(self) -> Seq<Vertex> {
        self.back@
    }

    /// A simulation that starts from the given vertices.
    pub fn new(env: EnvironmentData, vertices: Vec<Vertex>) -> (r: Result<Simulation, ConfigError>)
        ensures
            r is Ok <==> env.wf() && spec_buffer_valid(env.spec_grid(), vertices@),
            match r {
                Ok(s) => {
                    &&& s.spec_environment() == env
                    &&& s.spec_current() == vertices@
                    &&& s.spec_previous() == vertices@
                },
                Err(e) => if env.wf() {
                    spec_buffer_fault(env.spec_grid(), vertices@) == Some(e)
                } else {
                    env.spec_fault() == Some(e)
                },
            },
    {
        match env.validate() {
            Ok(_) => {},
            Err(e) => {
                return Err(e);
            },
        }
        let grid: Grid = env.grid();
        match check_buffer(&grid, &vertices) {
            Ok(_) => {},
            Err(e) => {
                return Err(e);
            },
        }
        let mut back: Vec<Vertex> = Vec::new();
        let mut i: usize = 0;
        while i < vertices.len()
            invariant
                i <= vertices.len(),
                back.len() == i,
                forall|j: int| 0 <= j < i ==> #[trigger] back@[j] == vertices@[j],
            decreases vertices.len() - i,
        {
            back.push(vertices[i]);
            i = i + 1;
        }
        proof {
            assert(back@ =~= vertices@);
        }
        Ok(Simulation { env, front: vertices, back })
    }

    /// A simulation that starts from a flat grid at rest, with the
    /// dimensions and the vertex mass that the parameters name.
    pub fn with_grid(env: EnvironmentData, spacing: i64, origin: Vec3) -> (r: Result<
        Simulation,
        ConfigError,
    >)
        ensures
            r is Ok <==> env.wf(),
            match r {
                Ok(s) => {
                    &&& s.spec_environment() == env
                    &&& s.spec_current() == spec_create_grid(
                        env.grid_height,
                        env.grid_width,
                        spacing,
                        origin,
                        env.vertex_mass,
                    )
                    &&& s.spec_previous() == s.spec_current()
                },
                Err(e) => env.spec_fault() == Some(e),
            },
    {
        match env.validate() {
            Ok(_) => {},
            Err(e) => {
                return Err(e);
            },
        }
        match create_grid(env.grid_height, env.grid_width, spacing, origin, env.vertex_mass) {
            Ok(vertices) => Simulation::new(env, vertices),
            Err(e) => Err(e),
        }
    }

    /// Advances the simulation by one tick of length `dt`.
    pub fn step(&mut self, dt: i64)
        ensures
            final(self).spec_environment() == old(self).spec_environment().spec_with_delta_time(dt),
            final(self).spec_current() == spec_step(
                final(self).spec_environment(),
                old(self).spec_current(),
            ),
            final(self).spec_previous() == old(self).spec_current(),
            final(self).spec_current().len() == old(self).spec_current().len(),
            forall|i: int|
                0 <= i < old(self).spec_current().len() && old(self).spec_current()[i].fixed
                    ==> #[trigger] final(self).spec_current()[i] == old(self).spec_current()[i],
            forall|i: int|
                0 <= i < old(self).spec_current().len() && !old(self).spec_current()[i].fixed
                    ==> dist_sq(
                    (#[trigger] final(self).spec_current()[i]).position,
                    final(self).spec_environment().sphere_center,
                ) >= final(self).spec_environment().sphere_radius
                    * final(self).spec_environment().sphere_radius,
    {
        proof {
            use_type_invariant(&*self);
        }
        self.env.delta_time = dt;
        let n: usize = self.front.len();
        let mut next: Vec<Vertex> = Vec::new();
        std::mem::swap(&mut self.back, &mut next);
        next.clear();
        let mut i: usize = 0;
        while i < n
            invariant
                self.env == old(self).env.spec_with_delta_time(dt),
                self.env.wf(),
                self.front@ == old(self).front@,
                spec_buffer_valid(self.env.spec_grid(), self.front@),
                n == self.front@.len(),
                next@.len() == i,
                i <= n,
                forall|j: int|
                    0 <= j < i ==> #[trigger] next@[j] == spec_update_vertex(
                        self.env,
                        self.front@,
                        j,
                    ),
                forall|j: int| 0 <= j < i ==> (#[trigger] next@[j]).mass > 0,
                forall|j: int| 0 <= j < i && self.front@[j].fixed ==> #[trigger] next@[j] == self.front@[j],
                forall|j: int|
                    0 <= j < i && !self.front@[j].fixed ==> dist_sq(
                        (#[trigger] next@[j]).position,
                        self.env.sphere_center,
                    ) >= self.env.sphere_radius * self.env.sphere_radius,
            decreases n - i,
        {
            let v: Vertex = update_vertex(&self.env, &self.front, i);
            next.push(v);
            i = i + 1;
        }
        proof {
            assert(next@ =~= spec_step(self.env, self.front@));
        }
        std::mem::swap(&mut self.front, &mut next);
        self.back = next;
    }

    /// Advances the simulation by one tick for each of the time steps, in
    /// their order.
    pub fn run(&mut self, dts: &Vec<i64>)
        ensures
            final(self).spec_current() == spec_run(
                old(self).spec_environment(),
                old(self).spec_current(),
                dts@,
            ),
            final(self).spec_environment() == if dts@.len() == 0 {
                old(self).spec_environment()
            } else {
                old(self).spec_environment().spec_with_delta_time(dts@.last())
            },
            final(self).spec_current().len() == old(self).spec_current().len(),
            forall|i: int|
                0 <= i < old(self).spec_current().len() ==> {
                    &&& (#[trigger] final(self).spec_current()[i]).mass
                        == old(self).spec_current()[i].mass
                    &&& final(self).spec_current()[i].fixed == old(self).spec_current()[i].fixed
                },
            forall|i: int|
                0 <= i < old(self).spec_current().len() && old(self).spec_current()[i].fixed
                    ==> #[trigger] final(self).spec_current()[i] == old(self).spec_current()[i],
            forall|i: int|
                0 <= i < old(self).spec_current().len() && !old(self).spec_current()[i].fixed
                    && dts@.len() > 0 ==> dist_sq(
                    (#[trigger] final(self).spec_current()[i]).position,
                    final(self).spec_environment().sphere_center,
                ) >= final(self).spec_environment().sphere_radius
                    * final(self).spec_environment().sphere_radius,
    {
        proof {
            use_type_invariant(&*self);
        }
        let mut k: usize = 0;
        while k < dts.len()
            invariant
                k <= dts.len(),
                self.spec_current() == spec_run(
                    old(self).spec_environment(),
                    old(self).spec_current(),
                    dts@.take(k as int),
                ),
                self.spec_environment() == if k == 0 {
                    old(self).spec_environment()
                } else {
                    old(self).spec_environment().spec_with_delta_time(dts@[k - 1])
                },
            decreases dts.len() - k,
        {
            proof {
                assert(dts@.take(k + 1).drop_last() == dts@.take(k as int));
            }
            self.step(dts[k]);
            k = k + 1;
        }
        proof {
            assert(dts@.take(k as int) == dts@);
            let env = old(self).spec_environment();
            let start = old(self).spec_current();
            lemma_run_keeps_shape(env, start, dts@);
            assert forall|i: int| 0 <= i < start.len() && start[i].fixed implies #[trigger] spec_run(
                env,
                start,
                dts@,
            )[i] == start[i] by {
                lemma_fixed_vertex_never_moves(env, start, dts@, i);
            }
            assert forall|i: int| 0 <= i < start.len() && !start[i].fixed && dts@.len() > 0 implies dist_sq(
                (#[trigger] spec_run(env, start, dts@)[i]).position,
                env.sphere_center,
            ) >= env.sphere_radius * env.sphere_radius by {
                lemma_free_vertex_stays_outside(env, start, dts@, i);
            }
        }
    }

    /// The parameters that the next step will use.
    pub fn environment(&self) -> (r: &EnvironmentData)
        ensures
            *r == self.spec_environment(),
            r.wf(),
    {
        proof {
            use_type_invariant(self);
        }
        &self.env
    }

    /// The current generation of vertices.
    pub fn vertices(&self) -> (r: &Vec<Vertex>)
        ensures
            r@ == self.spec_current(),
            spec_buffer_valid(self.spec_environment().spec_grid(), r@),
    {
        proof {
            use_type_invariant(self);
        }
        &self.front
    }

    /// The generation before the current one.
    pub fn previous_vertices(&self) -> (r: &Vec<Vertex>)
        ensures
            r@ == self.spec_previous(),
    {
        &self.back
    }

    /// Replaces the parameters. The grid keeps its dimensions: parameters
    /// for another grid are turned down, and so are parameters that are
    /// not valid. The simulation is then left as it was.
    pub fn set_environment(&mut self, env: EnvironmentData) -> (r: Result<(), ConfigError>)
        ensures
            final(self).spec_current() == old(self).spec_current(),
            final(self).spec_previous() == old(self).spec_previous(),
            r is Ok <==> env.wf() && env.spec_grid() == old(self).spec_environment().spec_grid(),
            match r {
                Ok(_) => final(self).spec_environment() == env,
                Err(e) => final(self).spec_environment() == old(self).spec_environment() && if env.wf() {
                    e == ConfigError::WrongVertexCount
                } else {
                    env.spec_fault() == Some(e)
                },
            },
    {
        proof {
            use_type_invariant(&*self);
        }
        match env.validate() {
            Ok(_) => {},
            Err(e) => {
                return Err(e);
            },
        }
        if env.grid_height != self.env.grid_height || env.grid_width != self.env.grid_width {
            return Err(ConfigError::WrongVertexCount);
        }
        self.env = env;
        Ok(())
    }

    /// The positions of the current generation, in the order of the linear
    /// index.
    pub fn positions(&self) -> (r: Vec<Vec3>)
        ensures
            r@.len() == self.spec_current().len(),
            forall|i: int| 0 <= i < r@.len() ==> #[trigger] r@[i] == self.spec_current()[i].position,
    {
        let mut out: Vec<Vec3> = Vec::new();
        let mut i: usize = 0;
        while i < self.front.len()
            invariant
                i <= self.front.len(),
                out.len() == i,
                forall|j: int| 0 <= j < i ==> #[trigger] out@[j] == self.front@[j].position,
            decreases self.front.len() - i,
        {
            out.push(self.front[i].position);
            i = i + 1;
        }
        out
    }
}

} // verus!
