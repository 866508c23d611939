//! The parameters of a simulation run.

use crate::error::ConfigError;
use crate::topology::{Grid, SpringClass};
use crate::vector::Vec3;
use vstd::prelude::*;

verus! {

/// The static obstacle: a ball that no free vertex may enter.
#[derive(Clone, Copy, Debug, PartialEq, Eq, Structural)]
pub struct Sphere {
    pub center: Vec3,
    pub radius: i64,
}

/// Whether the interval `c - r ..= c + r` lies in the range of a scalar.
pub open spec fn spec_reach_fits(c: i64, r: i64) -> bool {
    i64::MIN <= c - r && c + r <= i64::MAX
}

/// Whether the interval `c - r ..= c + r` lies in the range of a scalar.
pub fn reach_fits(c: i64, r: i64) -> (b: bool)
    ensures
        b == spec_reach_fits(c, r),
{
    let lo: i128 = c as i128 - r as i128;
    let hi: i128 = c as i128 + r as i128;
    i64::MIN as i128 <= lo && hi <= i64::MAX as i128
}

impl Sphere {
    /// The radius is not negative, and every point of the surface has
    /// coordinates that a scalar can hold.
    pub open spec fn wf(self) -> bool {
        &&& self.radius >= 0
        &&& spec_reach_fits(self.center.x, self.radius)
        &&& spec_reach_fits(self.center.y, self.radius)
        &&& spec_reach_fits(self.center.z, self.radius)
    }

    /// The sphere of the given radius around `center`.
    pub fn new(radius: i64, center: Vec3) -> (r: Result<Sphere, ConfigError>)
        ensures
            match r {
                Ok(s) => s == (Sphere { center, radius }) && s.wf(),
                Err(e) => if radius < 0 {
                    e == ConfigError::NegativeRadius
                } else {
                    e == ConfigError::SphereOutOfRange
                },
            },
            r is Ok <==> (Sphere { center, radius }).wf(),
    {
        if radius < 0 {
            return Err(ConfigError::NegativeRadius);
        }
        if !reach_fits(center.x, radius) || !reach_fits(center.y, radius) || !reach_fits(
            center.z,
            radius,
        ) {
            return Err(ConfigError::SphereOutOfRange);
        }
        Ok(Sphere { center, radius })
    }
}

/// Everything that a step reads besides the vertices. All scalars are
/// fixed-point numbers.
#[derive(Clone, Copy, Debug, PartialEq, Eq, Structural)]
pub struct EnvironmentData {
    /// The centre of the obstacle.
    pub sphere_center: Vec3,
    /// The radius of the obstacle.
    pub sphere_radius: i64,
    /// The acceleration of gravity.
    pub gravity: Vec3,
    /// The time that one step advances.
    pub delta_time: i64,
    /// The share of its velocity that a vertex loses when it hits the sphere.
    pub sphere_damping: i64,
    /// The stiffness of the structural springs.
    pub structural_stiffness: i64,
    /// The stiffness of the shear springs.
    pub shear_stiffness: i64,
    /// The stiffness of the bending springs.
    pub bending_stiffness: i64,
    /// The mass that a new grid gives to each vertex.
    pub vertex_mass: i64,
    /// The factor of the drag that opposes a vertex's velocity.
    pub vertex_damping: i64,
    /// The length at which a structural spring exerts no force.
    pub structural_rest_length: i64,
    /// The length at which a shear spring exerts no force.
    pub shear_rest_length: i64,
    /// The length at which a bending spring exerts no force.
    pub bending_rest_length: i64,
    /// The length beyond which a structural spring does not stretch. A
    /// negative value sets no limit.
    pub structural_max_length: i64,
    /// The length beyond which a shear spring does not stretch. A negative
    /// value sets no limit.
    pub shear_max_length: i64,
    /// The length beyond which a bending spring does not stretch. A negative
    /// value sets no limit.
    pub bending_max_length: i64,
    /// The number of columns of the grid.
    pub grid_width: u32,
    /// The number of rows of the grid.
    pub grid_height: u32,
}

impl EnvironmentData {
    /// The grid that the parameters describe.
    pub open spec fn spec_grid(self) -> Grid {
        Grid { rows: self.grid_height, cols: self.grid_width }
    }

    /// The obstacle that the parameters describe.
    pub open spec fn spec_sphere(self) -> Sphere {
        Sphere { center: self.sphere_center, radius: self.sphere_radius }
    }

    /// The parameters with another time step.
    pub open spec fn spec_with_delta_time(self, delta_time: i64) -> EnvironmentData {
        EnvironmentData { delta_time, ..self }
    }

    /// A configuration that a simulation accepts: a grid of at least two by
    /// two vertices, a positive vertex mass and a sphere with a radius that
    /// is not negative.
    pub open spec fn wf(self) -> bool {
        &&& self.spec_grid().wf()
        &&& self.vertex_mass > 0
        &&& self.spec_sphere().wf()
    }

    /// The fault that `validate` reports, if there is one. The grid is
    /// looked at first, then the mass, then the sphere.
    pub open spec fn spec_fault(self) -> Option<ConfigError> {
        if self.grid_height < 2 || self.grid_width < 2 {
            Some(ConfigError::GridTooSmall)
        } else if self.grid_height * self.grid_width > u32::MAX {
            Some(ConfigError::GridTooLarge)
        } else if self.vertex_mass <= 0 {
            Some(ConfigError::NonPositiveMass)
        } else if self.sphere_radius < 0 {
            Some(ConfigError::NegativeRadius)
        } else if !self.spec_sphere().wf() {
            Some(ConfigError::SphereOutOfRange)
        } else {
            None
        }
    }

    /// The parameters of a cloth of 60 by 60 vertices, 0.05 apart, that
    /// falls on a sphere with the given centre and radius.
    pub fn new(center: Vec3, radius: i64, delta_time: i64) -> (r: Result<
        EnvironmentData,
        ConfigError,
    >)
        ensures
            match r {
                Ok(env) => env == spec_defaults(center, radius, delta_time) && env.wf(),
                Err(e) => spec_defaults(center, radius, delta_time).spec_fault() == Some(e),
            },
            r is Ok <==> (Sphere { center, radius }).wf(),
    {
        let env = EnvironmentData {
            sphere_center: center,
            sphere_radius: radius,
            gravity: Vec3 { x: 0, y: -1_000_000i64, z: 0 },
            delta_time,
            sphere_damping: 300_000,
            structural_stiffness: 100_000,
            shear_stiffness: 100_000,
            bending_stiffness: 100_000,
            vertex_mass: 500_000,
            vertex_damping: 600_000,
            structural_rest_length: 50_000,
            shear_rest_length: 70_711,
            bending_rest_length: 100_000,
            structural_max_length: 50_000,
            shear_max_length: 75_000,
            bending_max_length: 100_000,
            grid_width: 60,
            grid_height: 60,
        };
        match env.validate() {
            Ok(()) => Ok(env),
            Err(e) => Err(e),
        }
    }

    /// Checks the parameters, and names the first fault.
    pub fn validate(&self) -> (r: Result<(), ConfigError>)
        ensures
            r is Ok <==> self.wf(),
            match r {
                Ok(_) => self.spec_fault() is None,
                Err(e) => self.spec_fault() == Some(e),
            },
    {
        match Grid::new(self.grid_height, self.grid_width) {
            Ok(_) => {},
            Err(e) => {
                return Err(e);
            },
        }
        if self.vertex_mass <= 0 {
            return Err(ConfigError::NonPositiveMass);
        }
        match Sphere::new(self.sphere_radius, self.sphere_center) {
            Ok(_) => Ok(()),
            Err(e) => Err(e),
        }
    }

    /// Sets the time that the next step advances.
    pub fn update_delta_time(&mut self, delta_time: i64)
        ensures
            *final(self) == old(self).spec_with_delta_time(delta_time),
    {
        self.delta_time = delta_time;
    }

    /// The grid that the parameters describe.
    pub fn grid(&self) -> (g: Grid)
        ensures
            g == self.spec_grid(),
    {
        Grid { rows: self.grid_height, cols: self.grid_width }
    }

    /// The obstacle that the parameters describe.
    pub fn sphere(&self) -> (s: Sphere)
        ensures
            s == self.spec_sphere(),
    {
        Sphere { center: self.sphere_center, radius: self.sphere_radius }
    }

    /// The stiffness of the springs of `class`.
    pub open spec fn spec_stiffness(self, class: SpringClass) -> i64 {
        match class {
            SpringClass::Stretch => self.structural_stiffness,
            SpringClass::Shear => self.shear_stiffness,
            SpringClass::Bending => self.bending_stiffness,
        }
    }

    /// The rest length of the springs of `class`.
    pub open spec fn spec_rest_length(self, class: SpringClass) -> i64 {
        match class {
            SpringClass::Stretch => self.structural_rest_length,
            SpringClass::Shear => self.shear_rest_length,
            SpringClass::Bending => self.bending_rest_length,
        }
    }

    /// The maximum length of the springs of `class`.
    pub open spec fn spec_max_length(self, class: SpringClass) -> i64 {
        match class {
            SpringClass::Stretch => self.structural_max_length,
            SpringClass::Shear => self.shear_max_length,
            SpringClass::Bending => self.bending_max_length,
        }
    }

    /// The stiffness of the springs of `class`.
    pub fn stiffness(&self, class: SpringClass) -> (r: i64)
        ensures
            r == self.spec_stiffness(class),
    {
        match class {
            SpringClass::Stretch => self.structural_stiffness,
            SpringClass::Shear => self.shear_stiffness,
            SpringClass::Bending => self.bending_stiffness,
        }
    }

    /// The rest length of the springs of `class`.
    pub fn rest_length(&self, class: SpringClass) -> (r: i64)
        ensures
            r == self.spec_rest_length(class),
    {
        match class {
            SpringClass::Stretch => self.structural_rest_length,
            SpringClass::Shear => self.shear_rest_length,
            SpringClass::Bending => self.bending_rest_length,
        }
    }

    /// The maximum length of the springs of `class`.
    pub fn max_length(&self, class: SpringClass) -> (r: i64)
        ensures
            r == self.spec_max_length(class),
    {
        match class {
            SpringClass::Stretch => self.structural_max_length,
            SpringClass::Shear => self.shear_max_length,
            SpringClass::Bending => self.bending_max_length,
        }
    }
}

/// The parameters that `EnvironmentData::new` starts from.
pub open spec fn spec_defaults(center: Vec3, radius: i64, delta_time: i64) -> EnvironmentData {
    EnvironmentData {
        sphere_center: center,
        sphere_radius: radius,
        gravity: Vec3 { x: 0, y: -1_000_000i64, z: 0 },
        delta_time,
        sphere_damping: 300_000,
        structural_stiffness: 100_000,
        shear_stiffness: 100_000,
        bending_stiffness: 100_000,
        vertex_mass: 500_000,
        vertex_damping: 600_000,
        structural_rest_length: 50_000,
        shear_rest_length: 70_711,
        bending_rest_length: 100_000,
        structural_max_length: 50_000,
        shear_max_length: 75_000,
        bending_max_length: 100_000,
        grid_width: 60,
        grid_height: 60,
    }
}

} // verus!
