use krust::backend::Backend;
use krust::collision_handler::CollisionHandler;
use krust::error::ChainError;
use krust::matrices::{generate_forward_matrices, generate_matrices};
use nalgebra::{Isometry3, Matrix4, Vector3};
use ncollide3d::bounding_volume::{self, BoundingSphere, BoundingVolume};
use ncollide3d::query;
use ncollide3d::shape::Cuboid;

/// The backend the tests run on: single-precision numbers, nalgebra for
/// linear algebra, ncollide3d for shapes and distances.
struct Na;

impl Backend for Na {
    type Scalar = f32;
    type Vector = Vector3<f32>;
    type Transform = Matrix4<f32>;
    type Pose = Isometry3<f32>;
    type Cuboid = Cuboid<f32>;
    type Sphere = BoundingSphere<f32>;

    fn ratio(num: i32, den: i32) -> f32 {
        num as f32 / den as f32
    }

    fn pi() -> f32 {
        std::f32::consts::PI
    }

    fn largest() -> f32 {
        f32::MAX
    }

    fn plus(a: f32, b: f32) -> f32 {
        a + b
    }

    fn minus(a: f32, b: f32) -> f32 {
        a - b
    }

    fn times(a: f32, b: f32) -> f32 {
        a * b
    }

    fn over(a: f32, b: f32) -> f32 {
        a / b
    }

    fn negated(a: f32) -> f32 {
        -a
    }

    fn squared(a: f32) -> f32 {
        f32::powf(a, 2.0)
    }

    fn below(a: f32, b: f32) -> bool {
        a < b
    }

    fn at_most(a: f32, b: f32) -> bool {
        a <= b
    }

    fn larger(a: f32, b: f32) -> f32 {
        a.max(b)
    }

    fn smaller(a: f32, b: f32) -> f32 {
        a.min(b)
    }

    fn ranks_above(a: f32, b: f32) -> bool {
        a.total_cmp(&b) == std::cmp::Ordering::Greater
    }

    fn vector(x: f32, y: f32, z: f32) -> Vector3<f32> {
        Vector3::new(x, y, z)
    }

    fn z_axis() -> Vector3<f32> {
        *Vector3::z_axis()
    }

    fn z_of(v: Vector3<f32>) -> f32 {
        v.z
    }

    fn scaled(v: Vector3<f32>, k: f32) -> Vector3<f32> {
        v * k
    }

    fn identity() -> Matrix4<f32> {
        Matrix4::identity()
    }

    fn rotation(turn: Vector3<f32>) -> Matrix4<f32> {
        Matrix4::new_rotation(turn)
    }

    fn translation(offset: Vector3<f32>) -> Matrix4<f32> {
        Matrix4::new_translation(&offset)
    }

    fn compose(a: Matrix4<f32>, b: Matrix4<f32>) -> Matrix4<f32> {
        a * b
    }

    fn entry(m: Matrix4<f32>, row: usize, col: usize) -> f32 {
        m[(row, col)]
    }

    fn to_pose(m: Matrix4<f32>) -> Option<Isometry3<f32>> {
        nalgebra::try_convert(m)
    }

    fn identity_pose() -> Isometry3<f32> {
        Isometry3::identity()
    }

    fn cuboid(half_extents: Vector3<f32>) -> Cuboid<f32> {
        Cuboid::new(half_extents)
    }

    fn bounding_sphere(shape: Cuboid<f32>, pose: Isometry3<f32>) -> BoundingSphere<f32> {
        bounding_volume::bounding_sphere(&shape, &pose)
    }

    fn moved_sphere(sphere: BoundingSphere<f32>, pose: Isometry3<f32>) -> BoundingSphere<f32> {
        sphere.transform_by(&pose)
    }

    fn spheres_touch(a: BoundingSphere<f32>, b: BoundingSphere<f32>) -> bool {
        a.intersects(&b)
    }

    fn distance(
        pose_a: Isometry3<f32>,
        a: Cuboid<f32>,
        pose_b: Isometry3<f32>,
        b: Cuboid<f32>,
    ) -> f32 {
        query::distance(&pose_a, &a, &pose_b, &b)
    }
}


fn ten_link_axes() -> Vec<Vector3<f32>> {
    vec![
        *Vector3::z_axis(),
        *Vector3::y_axis(),
        *Vector3::y_axis(),
        *Vector3::z_axis(),
        *Vector3::y_axis(),
        *Vector3::y_axis(),
        *Vector3::z_axis(),
        *Vector3::y_axis(),
        *Vector3::y_axis(),
        *Vector3::z_axis(),
    ]
}

fn ten_link_radii() -> Vec<f32> {
    vec![1.0, 4.0, 4.0, 4.0, 2.0, 4.0, 4.0, 1.0, 2.0, 2.0]
}

fn forward_of(angles: &Vec<f32>, axes: &Vec<Vector3<f32>>, radii: &Vec<f32>) -> Vec<Matrix4<f32>> {
    let mats = generate_matrices::<Na>(Na::identity(), angles, axes, radii).unwrap();
    generate_forward_matrices::<Na>(&mats)
}

#[test]
fn test_arm_collisions_true() {
    let angles: Vec<f32> = vec![0.2886566990628971, -0.7049275159440052, 1.00318577714416, -0.25468406207327215, 2.179700577307322, 0.9332915810151338, -0.27952073760436214, -1.4061270559735584, -2.006117831803292, -0.3146089084602238];
    let axes = ten_link_axes();
    let radii = ten_link_radii();

    let arm: Vec<Vector3<f32>> = radii.iter().map(|length| Vector3::new(0.6, 0.6, *length / 2.0)).collect();

    let collision_handler: CollisionHandler<Na> = CollisionHandler::new(&arm, &vec![], &vec![]).unwrap();

    let forward_mats = forward_of(&angles, &axes, &radii);

    assert_eq!(collision_handler.is_arm_colliding_self_naive(&forward_mats), Ok(true));
    assert_eq!(collision_handler.find_arm_collisions_self(&forward_mats), Ok(vec![false, false, true, false, false, false, false, true, true, false]));
}

#[test]
fn test_arm_collisions_false() {
    let angles: Vec<f32> = vec![0.7767914999010721, -0.4100893989899414, 1.0667832789736131, 0.008537214886546855, 1.7568289819525176, 0.6496030444375622, 0.013711598062124932, -1.2653288134922276, -1.7978490766201884, -0.7687129563016489];
    let axes = ten_link_axes();
    let radii = ten_link_radii();

    let arm: Vec<Vector3<f32>> = radii.iter().map(|length| Vector3::new(0.6, 0.6, *length / 2.0)).collect();

    let collision_handler: CollisionHandler<Na> = CollisionHandler::new(&arm, &vec![], &vec![]).unwrap();

    let forward_mats = forward_of(&angles, &axes, &radii);

    assert_eq!(collision_handler.is_arm_colliding_self_naive(&forward_mats), Ok(false));
    assert_eq!(collision_handler.find_arm_collisions_self(&forward_mats), Ok(vec![false, false, false, false, false, false, false, false, false, false]));
}

#[test]
fn test_world_collisions_true() {
    let angles: Vec<f32> = vec![1.6165608842843704, -0.46143427543400467, 0.809012100772468, -0.019469167636494276, 1.7568695682192097, 0.9759448225973109, 0.10845480123758768, -1.3190962704639775, -1.7608831199691244, -1.4900014494665197];
    let axes = ten_link_axes();
    let radii = ten_link_radii();

    let arm: Vec<Vector3<f32>> = radii.iter().map(|length| Vector3::new(0.6, 0.6, *length / 2.0)).collect();

    let obs1: Vector3<f32> = Vector3::new(5.0, 0.5, 2.0);
    let obs2: Vector3<f32> = Vector3::new(5.0, 0.5, 2.0);

    let offset1: Vector3<f32> = Vector3::new(0.0, 5.0, 2.0);
    let offset2: Vector3<f32> = Vector3::new(0.0, 5.0, 10.0);

    let collision_handler: CollisionHandler<Na> = CollisionHandler::new(&arm, &vec![obs1, obs2], &vec![offset1, offset2]).unwrap();

    let forward_mats = forward_of(&angles, &axes, &radii);

    assert_eq!(collision_handler.is_arm_colliding_world_naive(&forward_mats), Ok(true));
    assert_eq!(collision_handler.find_arm_collisions_world(&forward_mats), Ok(vec![false, false, false, false, false, false, true, true, false, true]));
}

#[test]
fn test_world_collisions_false() {
    let angles: Vec<f32> = vec![0.7902403290998004, -0.4098993668690266, 1.0666514226729367, -0.0014371393973027246, 1.7565908821583627, 0.6499562818474293, 0.011124862179012937, -1.2653301687691405, -1.7979686318114076, -0.7780116748429015];
    let axes = ten_link_axes();
    let radii = ten_link_radii();

    let arm: Vec<Vector3<f32>> = radii.iter().map(|length| Vector3::new(0.6, 0.6, *length / 2.0)).collect();

    let obs1: Vector3<f32> = Vector3::new(5.0, 0.5, 2.0);
    let obs2: Vector3<f32> = Vector3::new(5.0, 0.5, 2.0);

    let offset1: Vector3<f32> = Vector3::new(0.0, 5.0, 2.0);
    let offset2: Vector3<f32> = Vector3::new(0.0, 5.0, 10.0);

    let collision_handler: CollisionHandler<Na> = CollisionHandler::new(&arm, &vec![obs1, obs2], &vec![offset1, offset2]).unwrap();

    let forward_mats = forward_of(&angles, &axes, &radii);

    assert_eq!(collision_handler.is_arm_colliding_world_naive(&forward_mats), Ok(false));
    assert_eq!(collision_handler.find_arm_collisions_world(&forward_mats), Ok(vec![false, false, false, false, false, false, false, false, false, false]));
}

/// Four links folded flat onto each other: every link overlaps every other.
fn folded_arm() -> (CollisionHandler<Na>, Vec<Matrix4<f32>>) {
    let arm: Vec<Vector3<f32>> = vec![Vector3::new(0.5, 0.5, 1.0); 4];
    let handler = CollisionHandler::new(&arm, &vec![], &vec![]).unwrap();
    let frames: Vec<Matrix4<f32>> = vec![Matrix4::identity(); 5];
    (handler, frames)
}

#[test]
fn neighbours_are_never_tested_against_each_other() {
    // Two links in the same place overlap, but they are neighbours.
    let arm: Vec<Vector3<f32>> = vec![Vector3::new(0.5, 0.5, 1.0); 2];
    let handler: CollisionHandler<Na> = CollisionHandler::new(&arm, &vec![], &vec![]).unwrap();
    let frames: Vec<Matrix4<f32>> = vec![Matrix4::identity(); 3];
    assert_eq!(handler.find_arm_collisions_self(&frames), Ok(vec![false, false]));
    assert_eq!(handler.is_arm_colliding_self_naive(&frames), Ok(false));
    assert_eq!(handler.is_arm_colliding_self(1, &frames), Ok(false));
}

#[test]
fn every_link_with_a_link_between_is_marked() {
    let (handler, frames) = folded_arm();
    assert_eq!(handler.find_arm_collisions_self(&frames), Ok(vec![true, true, true, true]));
    assert_eq!(handler.is_arm_colliding_self_naive(&frames), Ok(true));
}

#[test]
fn three_links_mark_only_the_outer_two() {
    let arm: Vec<Vector3<f32>> = vec![Vector3::new(0.5, 0.5, 1.0); 3];
    let handler: CollisionHandler<Na> = CollisionHandler::new(&arm, &vec![], &vec![]).unwrap();
    let frames: Vec<Matrix4<f32>> = vec![Matrix4::identity(); 4];
    assert_eq!(handler.find_arm_collisions_self(&frames), Ok(vec![true, false, true]));
}

#[test]
fn the_split_query_tests_only_pairs_across_the_split() {
    let (handler, frames) = folded_arm();
    // Nothing lies before position 0, and nothing at or after position 4.
    assert_eq!(handler.is_arm_colliding_self(0, &frames), Ok(false));
    assert_eq!(handler.is_arm_colliding_self(4, &frames), Ok(false));
    // Across position 1 link 0 meets links 2 and 3.
    assert_eq!(handler.is_arm_colliding_self(1, &frames), Ok(true));
    // Across position 3 link 3 meets links 0 and 1.
    assert_eq!(handler.is_arm_colliding_self(3, &frames), Ok(true));
}

#[test]
fn only_the_links_inside_an_obstacle_are_marked() {
    // Three unit cubes along z at heights 0, 10 and 20; the obstacle sits at height 10.
    let arm: Vec<Vector3<f32>> = vec![Vector3::new(0.5, 0.5, 0.5); 3];
    let obstacle = Vector3::new(1.0, 1.0, 1.0);
    let place = Vector3::new(0.0, 0.0, 10.25);
    let handler: CollisionHandler<Na> = CollisionHandler::new(&arm, &vec![obstacle], &vec![place]).unwrap();
    let frames: Vec<Matrix4<f32>> = vec![
        Matrix4::new_translation(&Vector3::new(0.0, 0.0, 0.0)),
        Matrix4::new_translation(&Vector3::new(0.0, 0.0, 10.0)),
        Matrix4::new_translation(&Vector3::new(0.0, 0.0, 20.0)),
    ];
    assert_eq!(handler.find_arm_collisions_world(&frames), Ok(vec![false, true, false]));
    assert_eq!(handler.is_arm_colliding_world_naive(&frames), Ok(true));
    assert_eq!(handler.is_arm_colliding_world(0, &frames), Ok(true));
    assert_eq!(handler.is_arm_colliding_world(1, &frames), Ok(true));
    assert_eq!(handler.is_arm_colliding_world(2, &frames), Ok(false));
}

#[test]
fn an_obstacle_stays_where_it_was_built() {
    let arm: Vec<Vector3<f32>> = vec![Vector3::new(0.5, 0.5, 0.5); 1];
    let obstacle = Vector3::new(1.0, 1.0, 1.0);
    let place = Vector3::new(0.0, 0.0, 10.25);
    let handler: CollisionHandler<Na> = CollisionHandler::new(&arm, &vec![obstacle], &vec![place]).unwrap();
    let near = vec![Matrix4::new_translation(&Vector3::new(0.0, 0.0, 10.0))];
    let far = vec![Matrix4::new_translation(&Vector3::new(0.0, 0.0, 50.0))];
    assert_eq!(handler.find_arm_collisions_world(&near), Ok(vec![true]));
    assert_eq!(handler.find_arm_collisions_world(&far), Ok(vec![false]));
    // Asking about the far pose has not moved the obstacle.
    assert_eq!(handler.find_arm_collisions_world(&near), Ok(vec![true]));
    let copy = handler.clone();
    assert_eq!(copy.find_arm_collisions_world(&near), Ok(vec![true]));
}

#[test]
fn unequal_obstacle_sequences_are_refused() {
    let arm: Vec<Vector3<f32>> = vec![];
    let obstacle = Vector3::new(1.0, 1.0, 1.0);
    let e = CollisionHandler::<Na>::new(&arm, &vec![obstacle, obstacle], &vec![obstacle]).err().unwrap();
    assert_eq!(e, ChainError::ObstacleMismatch { obstacles: 2, offsets: 1 });
    assert_eq!(e.message(), "Obstacle lengths unequal! obstacles: 2, offsets: 1");
}

#[test]
fn too_few_joint_frames_are_refused() {
    let (handler, _) = folded_arm();
    let frames: Vec<Matrix4<f32>> = vec![Matrix4::identity(); 3];
    let e = handler.find_arm_collisions_self(&frames).unwrap_err();
    assert_eq!(e, ChainError::MissingPose { links: 4, poses: 3 });
    assert_eq!(e.message(), "Too few link poses! links: 4, poses: 3");
    assert_eq!(handler.is_arm_colliding_world_naive(&frames), Err(e));
}

#[test]
fn a_frame_that_is_not_rigid_is_refused() {
    let (handler, mut frames) = folded_arm();
    frames[2] = Matrix4::new_scaling(3.0);
    let e = handler.find_arm_collisions_self(&frames).unwrap_err();
    assert_eq!(e, ChainError::NotRigid);
    assert_eq!(e.message(), "Matrix was not an isometry");
    assert_eq!(handler.is_arm_colliding_self_naive(&frames), Err(ChainError::NotRigid));
    assert_eq!(handler.find_arm_collisions_world(&frames), Err(ChainError::NotRigid));
}

#[test]
fn the_handler_counts_its_links_and_obstacles() {
    let arm: Vec<Vector3<f32>> = vec![Vector3::new(0.5, 0.5, 0.5); 3];
    let obstacle = Vector3::new(1.0, 1.0, 1.0);
    let handler: CollisionHandler<Na> = CollisionHandler::new(&arm, &vec![obstacle], &vec![obstacle]).unwrap();
    assert_eq!(handler.links(), 3);
    assert_eq!(handler.obstacles(), 1);
}
