//! Configuration errors.

use vstd::prelude::*;

verus! {

/// Why a configuration was turned down. A simulation is only ever built from
/// a configuration that passed every check, so a step itself cannot fail.
#[derive(Clone, Copy, Debug, PartialEq, Eq, Structural)]
pub enum ConfigError {
    /// The grid has fewer than two rows or fewer than two columns.
    GridTooSmall,
    /// The grid has more vertices than a 32-bit index can number.
    GridTooLarge,
    /// A vertex mass is zero or negative.
    NonPositiveMass,
    /// The radius of the sphere is negative.
    NegativeRadius,
    /// The sphere reaches beyond the coordinates that a scalar can hold.
    SphereOutOfRange,
    /// The vertex buffer does not hold one vertex per grid point.
    WrongVertexCount,
}

impl ConfigError {
    /// The sentence that names the fault.
    pub open spec fn spec_message(self) -> Seq<char> {
        match self {
            ConfigError::GridTooSmall => "the grid needs at least two rows and two columns"@,
            ConfigError::GridTooLarge => "the grid has more vertices than a 32-bit index can number"@,
            ConfigError::NonPositiveMass => "a vertex mass must be positive"@,
            ConfigError::NegativeRadius => "the sphere radius must not be negative"@,
            ConfigError::SphereOutOfRange => "the sphere reaches beyond the representable coordinates"@,
            ConfigError::WrongVertexCount => "the vertex buffer must hold one vertex per grid point"@,
        }
    }

    /// A sentence that names the fault.
    pub fn message(&self) -> (r: &'static str)
        ensures
            r@ == self.spec_message(),
    {
        match self {
            ConfigError::GridTooSmall => "the grid needs at least two rows and two columns",
            ConfigError::GridTooLarge => "the grid has more vertices than a 32-bit index can number",
            ConfigError::NonPositiveMass => "a vertex mass must be positive",
            ConfigError::NegativeRadius => "the sphere radius must not be negative",
            ConfigError::SphereOutOfRange => "the sphere reaches beyond the representable coordinates",
            ConfigError::WrongVertexCount => "the vertex buffer must hold one vertex per grid point",
        }
    }
}

} // verus!
