use cloth_sim::config::{reach_fits, EnvironmentData, Sphere};
use cloth_sim::error::ConfigError;
use cloth_sim::scalar::ONE;
use cloth_sim::topology::{Grid, SpringClass};
use cloth_sim::vector::Vec3;
use cloth_sim::vertex::{check_buffer, create_grid, Vertex};

fn defaults() -> EnvironmentData {
    match EnvironmentData::new(Vec3::new(0, -1_500_000, 0), ONE, 0) {
        Ok(env) => env,
        Err(e) => panic!("{}", e.message()),
    }
}

#[test]
fn default_parameters() {
    let env = defaults();
    assert_eq!(env.sphere_center, Vec3 { x: 0, y: -1_500_000, z: 0 });
    assert_eq!(env.sphere_radius, 1_000_000);
    assert_eq!(env.gravity, Vec3 { x: 0, y: -1_000_000, z: 0 });
    assert_eq!(env.delta_time, 0);
    assert_eq!(env.sphere_damping, 300_000);
    assert_eq!(env.structural_stiffness, 100_000);
    assert_eq!(env.shear_stiffness, 100_000);
    assert_eq!(env.bending_stiffness, 100_000);
    assert_eq!(env.vertex_mass, 500_000);
    assert_eq!(env.vertex_damping, 600_000);
    assert_eq!(env.structural_rest_length, 50_000);
    assert_eq!(env.shear_rest_length, 70_711);
    assert_eq!(env.bending_rest_length, 100_000);
    assert_eq!(env.structural_max_length, 50_000);
    assert_eq!(env.shear_max_length, 75_000);
    assert_eq!(env.bending_max_length, 100_000);
    assert_eq!(env.grid_width, 60);
    assert_eq!(env.grid_height, 60);
    assert_eq!(env.validate(), Ok(()));
}

#[test]
fn the_time_step_is_the_only_thing_that_changes() {
    let mut env = defaults();
    let before = env;
    env.update_delta_time(16_000);
    assert_eq!(env.delta_time, 16_000);
    env.update_delta_time(0);
    assert_eq!(env, before);
}

#[test]
fn parameters_by_spring_class() {
    let mut env = defaults();
    env.structural_stiffness = 1;
    env.shear_stiffness = 2;
    env.bending_stiffness = 3;
    assert_eq!(env.stiffness(SpringClass::Stretch), 1);
    assert_eq!(env.stiffness(SpringClass::Shear), 2);
    assert_eq!(env.stiffness(SpringClass::Bending), 3);
    assert_eq!(env.rest_length(SpringClass::Stretch), 50_000);
    assert_eq!(env.rest_length(SpringClass::Shear), 70_711);
    assert_eq!(env.rest_length(SpringClass::Bending), 100_000);
    assert_eq!(env.max_length(SpringClass::Stretch), 50_000);
    assert_eq!(env.max_length(SpringClass::Shear), 75_000);
    assert_eq!(env.max_length(SpringClass::Bending), 100_000);
    assert_eq!(env.grid(), Grid { rows: 60, cols: 60 });
    assert_eq!(env.sphere(), Sphere { center: Vec3::new(0, -1_500_000, 0), radius: ONE });
}

#[test]
fn a_negative_radius_is_turned_down() {
    assert_eq!(Sphere::new(-1, Vec3::zero()), Err(ConfigError::NegativeRadius));
    assert_eq!(Sphere::new(i64::MIN, Vec3::zero()), Err(ConfigError::NegativeRadius));
    assert_eq!(EnvironmentData::new(Vec3::zero(), -1, 0), Err(ConfigError::NegativeRadius));
    assert_eq!(Sphere::new(0, Vec3::zero()), Ok(Sphere { center: Vec3::zero(), radius: 0 }));
}

#[test]
fn a_sphere_must_stay_within_the_coordinates() {
    assert_eq!(Sphere::new(1, Vec3::new(i64::MAX, 0, 0)), Err(ConfigError::SphereOutOfRange));
    assert_eq!(Sphere::new(1, Vec3::new(0, i64::MIN, 0)), Err(ConfigError::SphereOutOfRange));
    assert_eq!(Sphere::new(i64::MAX, Vec3::new(0, 0, 1)), Err(ConfigError::SphereOutOfRange));
    assert_eq!(Sphere::new(i64::MAX, Vec3::new(0, 0, -2)), Err(ConfigError::SphereOutOfRange));
    assert!(Sphere::new(i64::MAX, Vec3::new(0, 0, -1)).is_ok());
    assert!(Sphere::new(i64::MAX, Vec3::zero()).is_ok());
    assert!(Sphere::new(0, Vec3::new(i64::MAX, i64::MIN, 0)).is_ok());
    assert_eq!(
        EnvironmentData::new(Vec3::new(i64::MAX, 0, 0), 1, 0),
        Err(ConfigError::SphereOutOfRange)
    );
    assert!(reach_fits(i64::MAX - 5, 5));
    assert!(!reach_fits(i64::MAX - 5, 6));
    assert!(reach_fits(i64::MIN + 5, 5));
    assert!(!reach_fits(i64::MIN + 5, 6));
}

#[test]
fn validation_names_the_first_fault() {
    let mut env = defaults();
    env.grid_width = 1;
    env.vertex_mass = 0;
    env.sphere_radius = -1;
    assert_eq!(env.validate(), Err(ConfigError::GridTooSmall));
    env.grid_width = 70_000;
    env.grid_height = 70_000;
    assert_eq!(env.validate(), Err(ConfigError::GridTooLarge));
    env.grid_width = 2;
    env.grid_height = 2;
    assert_eq!(env.validate(), Err(ConfigError::NonPositiveMass));
    env.vertex_mass = -1;
    assert_eq!(env.validate(), Err(ConfigError::NonPositiveMass));
    env.vertex_mass = 1;
    assert_eq!(env.validate(), Err(ConfigError::NegativeRadius));
    env.sphere_radius = 2;
    env.sphere_center.z = i64::MIN + 1;
    assert_eq!(env.validate(), Err(ConfigError::SphereOutOfRange));
    env.sphere_center.z = i64::MIN + 2;
    assert_eq!(env.validate(), Ok(()));
}

#[test]
fn every_error_has_its_sentence() {
    assert_eq!(ConfigError::GridTooSmall.message(), "the grid needs at least two rows and two columns");
    assert_eq!(
        ConfigError::GridTooLarge.message(),
        "the grid has more vertices than a 32-bit index can number"
    );
    assert_eq!(ConfigError::NonPositiveMass.message(), "a vertex mass must be positive");
    assert_eq!(ConfigError::NegativeRadius.message(), "the sphere radius must not be negative");
    assert_eq!(
        ConfigError::SphereOutOfRange.message(),
        "the sphere reaches beyond the representable coordinates"
    );
    assert_eq!(
        ConfigError::WrongVertexCount.message(),
        "the vertex buffer must hold one vertex per grid point"
    );
}

#[test]
fn a_new_grid_is_flat_and_at_rest() {
    let v = match create_grid(2, 3, 50_000, Vec3::new(-100, 7, 9), 500_000) {
        Ok(v) => v,
        Err(e) => panic!("{}", e.message()),
    };
    let positions: Vec<Vec3> = v.iter().map(|p| p.position).collect();
    assert_eq!(
        positions,
        vec![
            Vec3::new(-100, 7, 9),
            Vec3::new(49_900, 7, 9),
            Vec3::new(99_900, 7, 9),
            Vec3::new(-100, 7, 50_009),
            Vec3::new(49_900, 7, 50_009),
            Vec3::new(99_900, 7, 50_009),
        ]
    );
    for p in &v {
        assert_eq!(p.velocity, Vec3::zero());
        assert_eq!(p.mass, 500_000);
        assert!(!p.fixed);
    }
}

#[test]
fn a_new_grid_is_the_same_every_time() {
    let a = create_grid(7, 5, 123_456, Vec3::new(1, 2, 3), 10);
    let b = create_grid(7, 5, 123_456, Vec3::new(1, 2, 3), 10);
    assert!(a.is_ok());
    assert_eq!(a, b);
}

#[test]
fn a_new_grid_saturates_at_the_largest_coordinate() {
    let v = match create_grid(2, 2, i64::MAX, Vec3::new(1, 0, -1), 1) {
        Ok(v) => v,
        Err(e) => panic!("{}", e.message()),
    };
    assert_eq!(v[0].position, Vec3::new(1, 0, -1));
    assert_eq!(v[1].position, Vec3::new(i64::MAX, 0, -1));
    assert_eq!(v[2].position, Vec3::new(1, 0, i64::MAX - 1));
    assert_eq!(v[3].position, Vec3::new(i64::MAX, 0, i64::MAX - 1));
}

#[test]
fn a_grid_is_turned_down_for_its_size_or_its_mass() {
    assert_eq!(create_grid(1, 5, ONE, Vec3::zero(), ONE), Err(ConfigError::GridTooSmall));
    assert_eq!(create_grid(5, 1, ONE, Vec3::zero(), ONE), Err(ConfigError::GridTooSmall));
    assert_eq!(create_grid(1, 1, ONE, Vec3::zero(), 0), Err(ConfigError::GridTooSmall));
    assert_eq!(create_grid(65_536, 65_536, ONE, Vec3::zero(), 0), Err(ConfigError::GridTooLarge));
    assert_eq!(create_grid(2, 2, ONE, Vec3::zero(), 0), Err(ConfigError::NonPositiveMass));
    assert_eq!(create_grid(2, 2, ONE, Vec3::zero(), -ONE), Err(ConfigError::NonPositiveMass));
}

#[test]
fn a_buffer_must_fit_the_grid() {
    let g = Grid { rows: 2, cols: 2 };
    let v = Vertex { position: Vec3::zero(), velocity: Vec3::zero(), mass: 1, fixed: false };
    assert_eq!(check_buffer(&g, &vec![v; 4]), Ok(()));
    assert_eq!(check_buffer(&g, &vec![v; 3]), Err(ConfigError::WrongVertexCount));
    assert_eq!(check_buffer(&g, &vec![v; 5]), Err(ConfigError::WrongVertexCount));
    assert_eq!(check_buffer(&g, &Vec::new()), Err(ConfigError::WrongVertexCount));
    let mut bad = vec![v; 4];
    bad[3].mass = 0;
    assert_eq!(check_buffer(&g, &bad), Err(ConfigError::NonPositiveMass));
    bad[3].mass = -5;
    bad[3].fixed = true;
    assert_eq!(check_buffer(&g, &bad), Err(ConfigError::NonPositiveMass));
    bad.pop();
    assert_eq!(check_buffer(&g, &bad), Err(ConfigError::WrongVertexCount));
}
