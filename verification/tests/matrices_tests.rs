use approx::RelativeEq;
use krust::backend::Backend;
use krust::error::ChainError;
use krust::matrices::{
    generate_backward_matrices, generate_forward_matrices, generate_matrices, transform_loss,
    transform_matrix,
};
use nalgebra::{Isometry3, Matrix4, Vector3};
use ncollide3d::bounding_volume::{self, BoundingSphere, BoundingVolume};
use ncollide3d::query;
use ncollide3d::shape::Cuboid;
use std::f32::consts::PI;

/// The backend the tests run on: single-precision numbers, nalgebra for
/// linear algebra, ncollide3d for shapes and distances.
struct Na;

impl Backend for Na {
    type Scalar = f32;
    type Vector = Vector3<f32>;
    type Transform = Matrix4<f32>;
    type Pose = Isometry3<f32>;
    type Cuboid = Cuboid<f32>;
    type Sphere = BoundingSphere<f32>;

    fn ratio(num: i32, den: i32) -> f32 {
        num as f32 / den as f32
    }

    fn pi() -> f32 {
        std::f32::consts::PI
    }

    fn largest() -> f32 {
        f32::MAX
    }

    fn plus(a: f32, b: f32) -> f32 {
        a + b
    }

    fn minus(a: f32, b: f32) -> f32 {
        a - b
    }

    fn times(a: f32, b: f32) -> f32 {
        a * b
    }

    fn over(a: f32, b: f32) -> f32 {
        a / b
    }

    fn negated(a: f32) -> f32 {
        -a
    }

    fn squared(a: f32) -> f32 {
        f32::powf(a, 2.0)
    }

    fn below(a: f32, b: f32) -> bool {
        a < b
    }

    fn at_most(a: f32, b: f32) -> bool {
        a <= b
    }

    fn larger(a: f32, b: f32) -> f32 {
        a.max(b)
    }

    fn smaller(a: f32, b: f32) -> f32 {
        a.min(b)
    }

    fn ranks_above(a: f32, b: f32) -> bool {
        a.total_cmp(&b) == std::cmp::Ordering::Greater
    }

    fn vector(x: f32, y: f32, z: f32) -> Vector3<f32> {
        Vector3::new(x, y, z)
    }

    fn z_axis() -> Vector3<f32> {
        *Vector3::z_axis()
    }

    fn z_of(v: Vector3<f32>) -> f32 {
        v.z
    }

    fn scaled(v: Vector3<f32>, k: f32) -> Vector3<f32> {
        v * k
    }

    fn identity() -> Matrix4<f32> {
        Matrix4::identity()
    }

    fn rotation(turn: Vector3<f32>) -> Matrix4<f32> {
        Matrix4::new_rotation(turn)
    }

    fn translation(offset: Vector3<f32>) -> Matrix4<f32> {
        Matrix4::new_translation(&offset)
    }

    fn compose(a: Matrix4<f32>, b: Matrix4<f32>) -> Matrix4<f32> {
        a * b
    }

    fn entry(m: Matrix4<f32>, row: usize, col: usize) -> f32 {
        m[(row, col)]
    }

    fn to_pose(m: Matrix4<f32>) -> Option<Isometry3<f32>> {
        nalgebra::try_convert(m)
    }

    fn identity_pose() -> Isometry3<f32> {
        Isometry3::identity()
    }

    fn cuboid(half_extents: Vector3<f32>) -> Cuboid<f32> {
        Cuboid::new(half_extents)
    }

    fn bounding_sphere(shape: Cuboid<f32>, pose: Isometry3<f32>) -> BoundingSphere<f32> {
        bounding_volume::bounding_sphere(&shape, &pose)
    }

    fn moved_sphere(sphere: BoundingSphere<f32>, pose: Isometry3<f32>) -> BoundingSphere<f32> {
        sphere.transform_by(&pose)
    }

    fn spheres_touch(a: BoundingSphere<f32>, b: BoundingSphere<f32>) -> bool {
        a.intersects(&b)
    }

    fn distance(
        pose_a: Isometry3<f32>,
        a: Cuboid<f32>,
        pose_b: Isometry3<f32>,
        b: Cuboid<f32>,
    ) -> f32 {
        query::distance(&pose_a, &a, &pose_b, &b)
    }
}

fn close(a: &Matrix4<f32>, b: &Matrix4<f32>) -> bool {
    approx::RelativeEq::relative_eq(a, b, f32::EPSILON, f32::EPSILON)
}

const ORIGIN: Matrix4<f32> = Matrix4::new(
    1.0, 0.0, 0.0, 0.0,
    0.0, 1.0, 0.0, 0.0,
    0.0, 0.0, 1.0, 0.0,
    0.0, 0.0, 0.0, 1.0,
);

#[test]
fn tests_test_generate_matrices_fail() {}

#[test]
fn tests_test_generate_matrices_success() {
    let mat_1: Matrix4<f32> = Matrix4::new(
        1.0, 0.0, 0.0, 0.0,
        0.0, 1.0, 0.0, 0.0,
        0.0, 0.0, 1.0, 5.0,
        0.0, 0.0, 0.0, 1.0,
    );

    let angles: Vec<f32> = vec![0.0, 0.0, 0.0];
    let axes: Vec<Vector3<f32>> = vec![*Vector3::x_axis(), *Vector3::y_axis(), *Vector3::z_axis()];
    let radii: Vec<f32> = vec![5.0, 3.0, 1.0];

    let all_mats: Vec<Matrix4<f32>> =
        generate_matrices::<Na>(ORIGIN, &angles, &axes, &radii).unwrap();
    // The joint transforms follow the origin.
    let test_mats: &[Matrix4<f32>] = &all_mats[1..];

    assert_eq!(test_mats.len(), 3);

    assert!(close(test_mats.get(0).unwrap(), &mat_1));
}

#[test]
fn matrices_tests_test_transform_creation() {
    let rot_x: Matrix4<f32> = Matrix4::new(
        1.0, 0.0, 0.0, 0.0,
        0.0, 0.0, -1.0, 0.0,
        0.0, 1.0, 0.0, 1.0,
        0.0, 0.0, 0.0, 1.0,
    );

    let rot_y: Matrix4<f32> = Matrix4::new(
        0.0, 0.0, 1.0, 0.0,
        0.0, 1.0, 0.0, 0.0,
        -1.0, 0.0, 0.0, 1.0,
        0.0, 0.0, 0.0, 1.0,
    );

    let rot_z: Matrix4<f32> = Matrix4::new(
        0.0, -1.0, 0.0, 0.0,
        1.0, 0.0, 0.0, 0.0,
        0.0, 0.0, 1.0, 1.0,
        0.0, 0.0, 0.0, 1.0,
    );

    let position: Vector3<f32> = Vector3::new(0.0, 0.0, 1.0);
    let angle: f32 = PI / 2.0;

    let x_test: Matrix4<f32> = transform_matrix::<Na>(angle, &Vector3::x_axis(), &position);
    assert!(close(&x_test, &rot_x));

    let y_test: Matrix4<f32> = transform_matrix::<Na>(angle, &Vector3::y_axis(), &position);
    assert!(close(&y_test, &rot_y));

    let z_test: Matrix4<f32> = transform_matrix::<Na>(angle, &Vector3::z_axis(), &position);
    assert!(close(&z_test, &rot_z));
}

#[test]
fn matrices_tests_test_generate_matrices_success() {
    let mat_1: Matrix4<f32> = Matrix4::new(
        1.0, 0.0, 0.0, 0.0,
        0.0, 0.7071067811865476, -0.7071067811865476, 0.0,
        0.0, 0.7071067811865476, 0.7071067811865476, 5.0,
        0.0, 0.0, 0.0, 1.0,
    );

    let mat_2: Matrix4<f32> = Matrix4::new(
        1.0, 0.0, 0.0, 0.0,
        0.0, 1.0, 0.0, 0.0,
        0.0, 0.0, 1.0, 4.0,
        0.0, 0.0, 0.0, 1.0,
    );

    let mat_3: Matrix4<f32> = Matrix4::new(
        0.0, -1.0, 0.0, 0.0,
        1.0, 0.0, 0.0, 0.0,
        0.0, 0.0, 1.0, 1.0,
        0.0, 0.0, 0.0, 1.0,
    );

    let angles: Vec<f32> = vec![PI / 4.0, 0.0, PI / 2.0];
    let axes: Vec<Vector3<f32>> = vec![*Vector3::x_axis(), *Vector3::y_axis(), *Vector3::z_axis()];
    let radii: Vec<f32> = vec![5.0, 4.0, 1.0];

    let test_mats: Vec<Matrix4<f32>> =
        generate_matrices::<Na>(ORIGIN, &angles, &axes, &radii).unwrap();

    assert_eq!(test_mats.len(), 4);

    assert!(close(test_mats.get(0).unwrap(), &ORIGIN));
    assert!(close(test_mats.get(1).unwrap(), &mat_1));
    assert!(close(test_mats.get(2).unwrap(), &mat_2));
    assert!(close(test_mats.get(3).unwrap(), &mat_3));
}

#[test]
#[should_panic(expected = "Vector lengths unequal! angles: 2, axes: 3, radii: 3")]
fn matrices_tests_test_generate_matrices_fail() {
    let angles: Vec<f32> = vec![0.0, 0.0];
    let axes: Vec<Vector3<f32>> = vec![*Vector3::x_axis(), *Vector3::y_axis(), *Vector3::z_axis()];
    let radii: Vec<f32> = vec![5.0, 3.0, 1.0];

    if let Err(e) = generate_matrices::<Na>(ORIGIN, &angles, &axes, &radii) {
        panic!("{}", e.message());
    }
}

#[test]
fn test_forward_matrices() {
    let f_mat_1: Matrix4<f32> = Matrix4::new(
        1.0, 0.0, 0.0, 0.0,
        0.0, 1.0, 0.0, 0.0,
        0.0, 0.0, 1.0, 5.0,
        0.0, 0.0, 0.0, 1.0,
    );

    let f_mat_2: Matrix4<f32> = Matrix4::new(
        1.0, 0.0, 0.0, 0.0,
        0.0, 1.0, 0.0, 0.0,
        0.0, 0.0, 1.0, 9.0,
        0.0, 0.0, 0.0, 1.0,
    );

    let f_mat_3: Matrix4<f32> = Matrix4::new(
        1.0, 0.0, 0.0, 0.0,
        0.0, 0.0, -1.0, 0.0,
        0.0, 1.0, 0.0, 9.0,
        0.0, 0.0, 0.0, 1.0,
    );

    let angles: Vec<f32> = vec![0.0, 0.0, PI / 2.0];
    let axes: Vec<Vector3<f32>> = vec![*Vector3::z_axis(), *Vector3::y_axis(), *Vector3::x_axis()];
    let radii: Vec<f32> = vec![5.0, 4.0, 0.0];

    let matrices: Vec<Matrix4<f32>> =
        generate_matrices::<Na>(ORIGIN, &angles, &axes, &radii).unwrap();

    let forward_mats: Vec<Matrix4<f32>> = generate_forward_matrices::<Na>(&matrices);

    assert_eq!(forward_mats.len(), 4);
    assert!(close(&ORIGIN, &forward_mats[0]));
    assert!(close(&f_mat_1, &forward_mats[1]));
    assert!(close(&f_mat_2, &forward_mats[2]));
    assert!(close(&f_mat_3, &forward_mats[3]));
}

#[test]
fn test_backward_matrices() {
    let b_mat_0: Matrix4<f32> = Matrix4::new(
        1.0, 0.0, 0.0, 0.0,
        0.0, 0.0, -1.0, 0.0,
        0.0, 1.0, 0.0, 9.0,
        0.0, 0.0, 0.0, 1.0,
    );

    let b_mat_1: Matrix4<f32> = Matrix4::new(
        1.0, 0.0, 0.0, 0.0,
        0.0, 0.0, -1.0, 0.0,
        0.0, 1.0, 0.0, 9.0,
        0.0, 0.0, 0.0, 1.0,
    );

    let b_mat_2: Matrix4<f32> = Matrix4::new(
        1.0, 0.0, 0.0, 0.0,
        0.0, 0.0, -1.0, 0.0,
        0.0, 1.0, 0.0, 4.0,
        0.0, 0.0, 0.0, 1.0,
    );

    let b_mat_3: Matrix4<f32> = Matrix4::new(
        1.0, 0.0, 0.0, 0.0,
        0.0, 0.0, -1.0, 0.0,
        0.0, 1.0, 0.0, 0.0,
        0.0, 0.0, 0.0, 1.0,
    );

    let angles: Vec<f32> = vec![0.0, 0.0, PI / 2.0];
    let axes: Vec<Vector3<f32>> = vec![*Vector3::z_axis(), *Vector3::y_axis(), *Vector3::x_axis()];
    let radii: Vec<f32> = vec![5.0, 4.0, 0.0];

    let matrices: Vec<Matrix4<f32>> =
        generate_matrices::<Na>(ORIGIN, &angles, &axes, &radii).unwrap();

    let backward_mats: Vec<Matrix4<f32>> = generate_backward_matrices::<Na>(&matrices);

    assert_eq!(backward_mats.len(), 5);
    assert!(close(&b_mat_0, &backward_mats[0]));
    assert!(close(&b_mat_1, &backward_mats[1]));
    assert!(close(&b_mat_2, &backward_mats[2]));
    assert!(close(&b_mat_3, &backward_mats[3]));
    assert!(close(&Na::identity(), &backward_mats[4]));
}

#[test]
fn test_transform_loss() {
    let actual: Matrix4<f32> = Matrix4::new(
        1.0, 0.0, 0.0, 0.0,
        0.0, 1.0, 0.0, 0.0,
        0.0, 0.0, 1.0, 0.0,
        0.0, 0.0, 0.0, 1.0,
    );

    let expected_d: Matrix4<f32> = Matrix4::new(
        1.0, 0.0, 0.0, 0.0,
        0.0, 1.0, 0.0, 0.0,
        0.0, 0.0, 1.0, 10.0,
        0.0, 0.0, 0.0, 1.0,
    );

    let expected_r: Matrix4<f32> = Matrix4::new(
        1.0, 0.0, 0.0, 0.0,
        0.0, 0.0, -1.0, 0.0,
        0.0, 1.0, 0.0, 0.0,
        0.0, 0.0, 0.0, 1.0,
    );

    let dist_correction: f32 = 10.0;
    let rot_correction: f32 = PI;

    let d_loss: f32 = transform_loss::<Na>(&actual, &expected_d, dist_correction, rot_correction);
    assert!(d_loss.relative_eq(&1.0, f32::EPSILON, f32::EPSILON));

    let r_loss: f32 = transform_loss::<Na>(&actual, &expected_r, dist_correction, rot_correction);
    assert!(r_loss.relative_eq(&(4.0 * (1.0 / (PI * PI)) / PI), f32::EPSILON, f32::EPSILON));
}

#[test]
fn length_mismatch_is_reported_with_all_three_lengths() {
    let angles: Vec<f32> = vec![0.0, 0.0];
    let axes: Vec<Vector3<f32>> = vec![*Vector3::x_axis(), *Vector3::y_axis(), *Vector3::z_axis()];
    let radii: Vec<f32> = vec![5.0, 3.0, 1.0];

    let e = generate_matrices::<Na>(ORIGIN, &angles, &axes, &radii).unwrap_err();
    assert_eq!(e, ChainError::LengthMismatch { angles: 2, axes: 3, radii: 3 });
    assert_eq!(e.message(), "Vector lengths unequal! angles: 2, axes: 3, radii: 3");
}

#[test]
fn three_joint_chain_at_rest() {
    let angles: Vec<f32> = vec![0.0, 0.0, 0.0];
    let axes: Vec<Vector3<f32>> = vec![*Vector3::x_axis(), *Vector3::y_axis(), *Vector3::z_axis()];
    let radii: Vec<f32> = vec![5.0, 3.0, 1.0];

    let mats = generate_matrices::<Na>(ORIGIN, &angles, &axes, &radii).unwrap();
    let forward = generate_forward_matrices::<Na>(&mats);
    let backward = generate_backward_matrices::<Na>(&mats);

    let lifted: Matrix4<f32> = Matrix4::new(
        1.0, 0.0, 0.0, 0.0,
        0.0, 1.0, 0.0, 0.0,
        0.0, 0.0, 1.0, 5.0,
        0.0, 0.0, 0.0, 1.0,
    );

    assert_eq!(mats.len(), 4);
    assert_eq!(forward.len(), 4);
    assert_eq!(backward.len(), 5);
    assert_eq!(forward[0], ORIGIN);
    assert_eq!(forward[1], lifted);
    assert_eq!(backward[4], Matrix4::identity());
    assert_eq!(backward[3], mats[3]);
}
