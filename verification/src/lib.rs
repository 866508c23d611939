//! A deterministic mass-spring cloth simulation on a rectangular grid, in
//! fixed-point arithmetic.
//!
//! The cloth is a lattice of mass points that structural, shear and bending
//! springs hold together. A step computes the forces on every free vertex,
//! integrates its motion, holds it to the stretch limits of its springs and
//! keeps it out of a sphere. Every vertex of the next generation is computed
//! from the previous generation alone, so the result does not depend on the
//! order of the updates, and the arithmetic is integer arithmetic, so it is
//! the same on every machine.
//!
//! - [`scalar`] and [`vector`]: the fixed-point numbers and their vectors;
//! - [`topology`]: the grid and the neighbours of a vertex;
//! - [`config`] and [`error`]: the parameters and their validation;
//! - [`vertex`]: the state of a mass point and the initial layout;
//! - [`kernel`]: spring force, stretch limit and collision;
//! - [`bounds`] and [`algebra`]: what the stretch limit and the collision
//!   guarantee, and the facts about integers that the proofs rest on;
//! - [`step`]: the update of one vertex and of a whole generation;
//! - [`simulation`]: the driver with its two generations;
//! - [`laws`]: what holds of every step and of every run;
//! - [`mesh`] and [`dispatch`]: the triangle list for a renderer, and the
//!   grouping of the work for a device.

pub mod algebra;
pub mod bounds;
pub mod config;
pub mod dispatch;
pub mod error;
pub mod kernel;
pub mod laws;
pub mod mesh;
pub mod scalar;
pub mod simulation;
pub mod step;
pub mod topology;
pub mod vector;
pub mod vertex;
