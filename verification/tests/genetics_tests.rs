use krust::backend::Backend;
use krust::error::ChainError;
use krust::genetics::{
    argmax, inherited, mutated, pick_parent, roulette, softmax, Fitness, Gene, Population,
};
use krust::random::{unit_draw, unit_of, DRAW_STEPS};
use std::f32::consts::PI;
use std::time::Instant;
use nalgebra::{Isometry3, Matrix4, Vector3};
use ncollide3d::bounding_volume::{self, BoundingSphere, BoundingVolume};
use ncollide3d::query;
use ncollide3d::shape::Cuboid;

/// The backend the tests run on: single-precision numbers, nalgebra for
/// linear algebra, ncollide3d for shapes and distances.
struct Na;

impl Backend for Na {
    type Scalar = f32;
    type Vector = Vector3<f32>;
    type Transform = Matrix4<f32>;
    type Pose = Isometry3<f32>;
    type Cuboid = Cuboid<f32>;
    type Sphere = BoundingSphere<f32>;

    fn ratio(num: i32, den: i32) -> f32 {
        num as f32 / den as f32
    }

    fn pi() -> f32 {
        std::f32::consts::PI
    }

    fn largest() -> f32 {
        f32::MAX
    }

    fn plus(a: f32, b: f32) -> f32 {
        a + b
    }

    fn minus(a: f32, b: f32) -> f32 {
        a - b
    }

    fn times(a: f32, b: f32) -> f32 {
        a * b
    }

    fn over(a: f32, b: f32) -> f32 {
        a / b
    }

    fn negated(a: f32) -> f32 {
        -a
    }

    fn squared(a: f32) -> f32 {
        f32::powf(a, 2.0)
    }

    fn below(a: f32, b: f32) -> bool {
        a < b
    }

    fn at_most(a: f32, b: f32) -> bool {
        a <= b
    }

    fn larger(a: f32, b: f32) -> f32 {
        a.max(b)
    }

    fn smaller(a: f32, b: f32) -> f32 {
        a.min(b)
    }

    fn ranks_above(a: f32, b: f32) -> bool {
        a.total_cmp(&b) == std::cmp::Ordering::Greater
    }

    fn vector(x: f32, y: f32, z: f32) -> Vector3<f32> {
        Vector3::new(x, y, z)
    }

    fn z_axis() -> Vector3<f32> {
        *Vector3::z_axis()
    }

    fn z_of(v: Vector3<f32>) -> f32 {
        v.z
    }

    fn scaled(v: Vector3<f32>, k: f32) -> Vector3<f32> {
        v * k
    }

    fn identity() -> Matrix4<f32> {
        Matrix4::identity()
    }

    fn rotation(turn: Vector3<f32>) -> Matrix4<f32> {
        Matrix4::new_rotation(turn)
    }

    fn translation(offset: Vector3<f32>) -> Matrix4<f32> {
        Matrix4::new_translation(&offset)
    }

    fn compose(a: Matrix4<f32>, b: Matrix4<f32>) -> Matrix4<f32> {
        a * b
    }

    fn entry(m: Matrix4<f32>, row: usize, col: usize) -> f32 {
        m[(row, col)]
    }

    fn to_pose(m: Matrix4<f32>) -> Option<Isometry3<f32>> {
        nalgebra::try_convert(m)
    }

    fn identity_pose() -> Isometry3<f32> {
        Isometry3::identity()
    }

    fn cuboid(half_extents: Vector3<f32>) -> Cuboid<f32> {
        Cuboid::new(half_extents)
    }

    fn bounding_sphere(shape: Cuboid<f32>, pose: Isometry3<f32>) -> BoundingSphere<f32> {
        bounding_volume::bounding_sphere(&shape, &pose)
    }

    fn moved_sphere(sphere: BoundingSphere<f32>, pose: Isometry3<f32>) -> BoundingSphere<f32> {
        sphere.transform_by(&pose)
    }

    fn spheres_touch(a: BoundingSphere<f32>, b: BoundingSphere<f32>) -> bool {
        a.intersects(&b)
    }

    fn distance(
        pose_a: Isometry3<f32>,
        a: Cuboid<f32>,
        pose_b: Isometry3<f32>,
        b: Cuboid<f32>,
    ) -> f32 {
        query::distance(&pose_a, &a, &pose_b, &b)
    }
}


/// Fitness that measures closeness to the all-zero vector.
struct NearZero;

impl Fitness<Na> for NearZero {
    fn score(&self, thetas: &Vec<f32>) -> Result<f32, ChainError> {
        let target: Vec<f32> = vec![0.0; thetas.len()];

        let mut total: f32 = 0.0;

        for i in 0..target.len() {
            total += f32::powf(target[i] - thetas[i], 2.0);
        }

        Ok(1.0 / total)
    }
}

/// Fitness that cannot be measured.
struct Broken;

impl Fitness<Na> for Broken {
    fn score(&self, _thetas: &Vec<f32>) -> Result<f32, ChainError> {
        Err(ChainError::NotRigid)
    }
}

/// Fitness that is zero for every candidate.
struct Flat;

impl Fitness<Na> for Flat {
    fn score(&self, _thetas: &Vec<f32>) -> Result<f32, ChainError> {
        Ok(0.0)
    }
}

fn wide(n: usize) -> (Vec<f32>, Vec<f32>) {
    (vec![-100.0; n], vec![100.0; n])
}

#[test]
fn test_gene_crossover() {
    let thetas: Vec<f32> = vec![0.0, 1.0, 2.0];
    let learn_rate: f32 = 0.5;
    let (min_angles, max_angles) = wide(3);

    let gene_1: Gene<Na> = Gene::new(&thetas, &min_angles, &max_angles, learn_rate);
    let gene_2: Gene<Na> = Gene::new(&thetas, &min_angles, &max_angles, learn_rate);

    assert_eq!(gene_1.thetas, thetas);
    assert_eq!(gene_1.learn_rate, learn_rate);

    assert_eq!(gene_2.thetas, thetas);
    assert_eq!(gene_2.learn_rate, learn_rate);

    let mut gene_3: Gene<Na> = Gene::from_parents(&gene_1, &gene_2).ok().unwrap();

    assert_eq!(gene_3.thetas, thetas);
    assert_eq!(gene_3.learn_rate, learn_rate);

    for _ in 0..100 {
        gene_3.mutate();
    }

    assert_ne!(gene_3.thetas, thetas)
}

#[test]
fn test_population() {
    let thetas: Vec<f32> = vec![5.0, 5.0, 5.0, 5.0];
    let (min_angles, max_angles) = wide(4);

    let mut population: Population<Na, NearZero> =
        Population::new(100, thetas, min_angles, max_angles, NearZero);

    let start = Instant::now();
    for _ in 0..100 {
        population.new_generation().unwrap();
    }
    let duration = start.elapsed();
    println!("Elapsed time: {:?}", duration);
}

#[test]
fn a_new_population_holds_copies_of_its_seed() {
    let thetas: Vec<f32> = vec![5.0, -1.0];
    let population: Population<Na, NearZero> =
        Population::new(7, thetas.clone(), vec![-9.0, -8.0], vec![9.0, 8.0], NearZero);
    assert_eq!(population.size, 7);
    assert_eq!(population.generation, 0);
    assert_eq!(population.alpha, None);
    assert_eq!(population.min_err, f32::MAX);
    assert_eq!(population.members.len(), 7);
    for gene in population.members.iter() {
        assert_eq!(gene.thetas, thetas);
        assert_eq!(gene.min_angles, vec![-9.0, -8.0]);
        assert_eq!(gene.max_angles, vec![9.0, 8.0]);
        assert_eq!(gene.learn_rate, 0.5);
    }
    let empty: Population<Na, NearZero> = Population::new(-3, thetas, vec![], vec![], NearZero);
    assert_eq!(empty.members.len(), 0);
    assert_eq!(empty.size, -3);
}

#[test]
fn the_smallest_error_never_grows() {
    let thetas: Vec<f32> = vec![5.0, 5.0, 5.0, 5.0];
    let (min_angles, max_angles) = wide(4);
    let mut population: Population<Na, NearZero> =
        Population::new(100, thetas, min_angles, max_angles, NearZero);
    let mut last = population.min_err;
    for generation in 1..=60 {
        population.new_generation().unwrap();
        assert!(population.min_err <= last);
        assert_eq!(population.generation, generation);
        assert_eq!(population.members.len(), 100);
        last = population.min_err;
    }
    // The record is the error of the recorded candidate.
    let alpha = population.alpha.clone().unwrap();
    let error: f32 = 1.0 / NearZero.score(&alpha).unwrap();
    assert_eq!(error, population.min_err);
    assert!(population.min_err < 100.0);
}

#[test]
fn the_first_generation_records_the_seed() {
    let thetas: Vec<f32> = vec![3.0, 4.0];
    let (min_angles, max_angles) = wide(2);
    let mut population: Population<Na, NearZero> =
        Population::new(10, thetas.clone(), min_angles, max_angles, NearZero);
    population.new_generation().unwrap();
    assert_eq!(population.alpha, Some(thetas));
    assert_eq!(population.min_err, 1.0 / (1.0 / 25.0));
    assert_eq!(population.generation, 1);
    for gene in population.members.iter() {
        assert_eq!(gene.thetas.len(), 2);
        assert_eq!(gene.learn_rate, 0.5);
    }
}

#[test]
fn a_fitness_that_fails_leaves_the_population_alone() {
    let thetas: Vec<f32> = vec![3.0, 4.0];
    let (min_angles, max_angles) = wide(2);
    let mut population: Population<Na, Broken> =
        Population::new(10, thetas.clone(), min_angles, max_angles, Broken);
    assert_eq!(population.new_generation(), Err(ChainError::NotRigid));
    assert_eq!(population.generation, 0);
    assert_eq!(population.alpha, None);
    assert_eq!(population.min_err, f32::MAX);
    assert_eq!(population.members.len(), 10);
    for gene in population.members.iter() {
        assert_eq!(gene.thetas, thetas);
    }
}

#[test]
fn a_population_without_any_fitness_still_breeds() {
    let thetas: Vec<f32> = vec![3.0, 4.0];
    let (min_angles, max_angles) = wide(2);
    let mut population: Population<Na, Flat> =
        Population::new(10, thetas, min_angles, max_angles, Flat);
    population.new_generation().unwrap();
    // One over a score of zero is not below the largest number: no record.
    assert_eq!(population.alpha, None);
    assert_eq!(population.min_err, f32::MAX);
    assert_eq!(population.members.len(), 10);
    assert_eq!(population.generation, 1);
}

#[test]
fn parents_of_unequal_length_are_refused() {
    let gene_1: Gene<Na> = Gene::new(&vec![0.0, 1.0, 2.0], &vec![], &vec![], 0.5);
    let gene_2: Gene<Na> = Gene::new(&vec![0.0, 1.0], &vec![], &vec![], 0.5);
    let e = Gene::from_parents(&gene_1, &gene_2).err().unwrap();
    assert_eq!(e, ChainError::ParentMismatch { first: 3, second: 2 });
    assert_eq!(e.message(), "Parent gene lengths unequal! 3 2");
}

#[test]
fn a_child_takes_every_angle_from_a_parent_and_the_rest_from_the_first() {
    let gene_1: Gene<Na> = Gene::new(&vec![1.0, 2.0, 3.0, 4.0], &vec![-1.0; 4], &vec![9.0; 4], 0.25);
    let gene_2: Gene<Na> = Gene::new(&vec![-1.0, -2.0, -3.0, -4.0], &vec![-7.0; 4], &vec![7.0; 4], 0.75);
    for _ in 0..50 {
        let child = Gene::from_parents(&gene_1, &gene_2).ok().unwrap();
        assert_eq!(child.learn_rate, 0.25);
        assert_eq!(child.min_angles, vec![-1.0; 4]);
        assert_eq!(child.max_angles, vec![9.0; 4]);
        for i in 0..4 {
            assert!(child.thetas[i] == gene_1.thetas[i] || child.thetas[i] == gene_2.thetas[i]);
        }
    }
}

#[test]
fn a_draw_above_one_half_inherits_from_the_first_parent() {
    assert_eq!(inherited::<Na>(1.0, 2.0, 0.75), 1.0);
    assert_eq!(inherited::<Na>(1.0, 2.0, 0.5), 2.0);
    assert_eq!(inherited::<Na>(1.0, 2.0, 0.25), 2.0);
}

#[test]
fn a_mutation_shifts_by_a_quarter_of_pi_times_the_centred_draw() {
    assert_eq!(mutated::<Na>(1.0, -100.0, 100.0, 0.75), 1.0 + 0.25 * PI * (0.75 - 0.5));
    assert_eq!(mutated::<Na>(1.0, -100.0, 100.0, 0.5), 1.0);
    assert_eq!(mutated::<Na>(1.0, -100.0, 100.0, 0.0), 1.0 + 0.25 * PI * (0.0 - 0.5));
    // Held within the limits.
    assert_eq!(mutated::<Na>(1.0, -100.0, 1.1, 0.75), 1.1);
    assert_eq!(mutated::<Na>(1.0, 0.9, 100.0, 0.0), 0.9);
}

#[test]
fn mutation_keeps_every_angle_within_its_limits() {
    let mut gene: Gene<Na> = Gene::new(&vec![0.0, 0.0, 0.0], &vec![-0.1, -0.2, 0.0], &vec![0.1, 0.2, 0.0], 0.5);
    for _ in 0..200 {
        gene.mutate();
        for i in 0..3 {
            assert!(gene.thetas[i] >= gene.min_angles[i] && gene.thetas[i] <= gene.max_angles[i]);
        }
    }
    assert_eq!(gene.thetas[2], 0.0);
    assert_eq!(gene.learn_rate, 0.5);
}

#[test]
fn weights_are_scores_over_their_sum() {
    assert_eq!(softmax::<Na>(&vec![1.0, 3.0, 4.0]), vec![0.125, 0.375, 0.5]);
    // A sum that is not above zero leaves the scores as they are.
    assert_eq!(softmax::<Na>(&vec![0.0, 0.0]), vec![0.0, 0.0]);
    assert_eq!(softmax::<Na>(&vec![2.0, -2.0]), vec![2.0, -2.0]);
    assert_eq!(softmax::<Na>(&vec![]), Vec::<f32>::new());
}

#[test]
fn the_greatest_weight_wins_and_the_last_of_equals() {
    assert_eq!(argmax::<Na>(&vec![0.1, 0.7, 0.2]), 1);
    assert_eq!(argmax::<Na>(&vec![0.5, 0.5, 0.1]), 1);
    assert_eq!(argmax::<Na>(&vec![0.3]), 0);
    assert_eq!(argmax::<Na>(&vec![0.9, 0.1, 0.9]), 2);
}

#[test]
fn the_roulette_stops_where_the_running_sum_passes_the_draw() {
    let weights: Vec<f32> = vec![0.25, 0.25, 0.5];
    assert_eq!(roulette::<Na>(&weights, 0.0), 0);
    assert_eq!(roulette::<Na>(&weights, 0.2), 0);
    assert_eq!(roulette::<Na>(&weights, 0.25), 1);
    assert_eq!(roulette::<Na>(&weights, 0.4), 1);
    assert_eq!(roulette::<Na>(&weights, 0.5), 2);
    assert_eq!(roulette::<Na>(&weights, 0.99), 2);
    // No running sum passes the draw: back to the first member.
    assert_eq!(roulette::<Na>(&weights, 1.0), 0);
    assert_eq!(roulette::<Na>(&vec![], 0.3), 0);
}

#[test]
fn a_picked_parent_is_a_member() {
    let weights: Vec<f32> = vec![0.0, 1.0, 0.0];
    for _ in 0..50 {
        assert_eq!(pick_parent::<Na>(&weights), 1);
    }
}

#[test]
fn a_word_maps_into_the_unit_interval() {
    assert_eq!(DRAW_STEPS, 1 << 24);
    assert_eq!(unit_of::<Na>(0), 0.0);
    assert_eq!(unit_of::<Na>(255), 0.0);
    assert_eq!(unit_of::<Na>(256), 1.0 / 16777216.0);
    assert_eq!(unit_of::<Na>(1 << 31), 0.5);
    assert_eq!(unit_of::<Na>(3 << 30), 0.75);
    assert_eq!(unit_of::<Na>(u32::MAX), 1.0 - 1.0 / 16777216.0);
}

#[test]
fn draws_lie_in_the_unit_interval_and_vary() {
    let first: f32 = unit_draw::<Na>();
    let mut varied = false;
    for _ in 0..200 {
        let draw: f32 = unit_draw::<Na>();
        assert!(0.0 <= draw && draw < 1.0);
        if draw != first {
            varied = true;
        }
    }
    assert!(varied);
}
