//! The numeric capabilities the kinematics code is written against.
//!
//! The solvers never look inside a scalar, a vector or a transform: they only
//! hand such values to the operations below and store or compare what comes
//! back. Contracts elsewhere in the crate therefore describe results through
//! the relations of this module, each of which says "this value is what the
//! operation returned for these arguments".
use vstd::prelude::*;

verus! {

/// Linear algebra and rigid geometry over one scalar type.
///
/// An implementation picks the concrete number type and supplies every
/// primitive operation. No method promises anything about its result; a
/// caller learns only that the result came from that call.
pub trait Backend {
    /// A real number: an angle, a length, a loss.
    type Scalar: Copy;

    /// A direction or offset in three dimensions.
    type Vector: Copy;

    /// A homogeneous 4x4 transform.
    type Transform: Copy;

    /// A rigid motion: rotation followed by translation, nothing else.
    type Pose: Copy;

    /// An axis-aligned box given by its half extents.
    type Cuboid: Copy;

    /// A bounding sphere.
    type Sphere: Copy;

    /// The quotient `num / den`, rounded to the scalar type.
    fn ratio(num: i32, den: i32) -> Self::Scalar
        requires
            den != 0,
    ;

    /// The circle constant.
    fn pi() -> Self::Scalar;

    /// The largest finite scalar.
    fn largest() -> Self::Scalar;

    /// `a + b`.
    fn plus(a: Self::Scalar, b: Self::Scalar) -> Self::Scalar;

    /// `a - b`.
    fn minus(a: Self::Scalar, b: Self::Scalar) -> Self::Scalar;

    /// `a * b`.
    fn times(a: Self::Scalar, b: Self::Scalar) -> Self::Scalar;

    /// `a / b`.
    fn over(a: Self::Scalar, b: Self::Scalar) -> Self::Scalar;

    /// `-a`.
    fn negated(a: Self::Scalar) -> Self::Scalar;

    /// `a` raised to the second power.
    fn squared(a: Self::Scalar) -> Self::Scalar;

    /// Whether `a < b`.
    fn below(a: Self::Scalar, b: Self::Scalar) -> bool;

    /// Whether `a <= b`.
    fn at_most(a: Self::Scalar, b: Self::Scalar) -> bool;

    /// The larger of `a` and `b`; the one that is a number where the other
    /// is not.
    fn larger(a: Self::Scalar, b: Self::Scalar) -> Self::Scalar;

    /// The smaller of `a` and `b`; the one that is a number where the other
    /// is not.
    fn smaller(a: Self::Scalar, b: Self::Scalar) -> Self::Scalar;

    /// Whether `a` comes strictly after `b` in the total order of the scalar
    /// type (the order that also places signed zeros and non-numbers).
    fn ranks_above(a: Self::Scalar, b: Self::Scalar) -> bool;

    /// The vector with the given components.
    fn vector(x: Self::Scalar, y: Self::Scalar, z: Self::Scalar) -> Self::Vector;

    /// The unit vector along z.
    fn z_axis() -> Self::Vector;

    /// The z component of `v`.
    fn z_of(v: Self::Vector) -> Self::Scalar;

    /// `v` with every component multiplied by `k`.
    fn scaled(v: Self::Vector, k: Self::Scalar) -> Self::Vector;

    /// The transform that changes nothing.
    fn identity() -> Self::Transform;

    /// The rotation about the direction of `turn` by an angle equal to its
    /// length.
    fn rotation(turn: Self::Vector) -> Self::Transform;

    /// The translation by `offset`.
    fn translation(offset: Self::Vector) -> Self::Transform;

    /// The matrix product `a * b`.
    fn compose(a: Self::Transform, b: Self::Transform) -> Self::Transform;

    /// The entry of `m` at the given row and column.
    fn entry(m: Self::Transform, row: usize, col: usize) -> Self::Scalar
        requires
            row < 4,
            col < 4,
    ;

    /// `m` as a rigid motion, or `None` if it is not one.
    fn to_pose(m: Self::Transform) -> Option<Self::Pose>;

    /// The rigid motion that changes nothing.
    fn identity_pose() -> Self::Pose;

    /// The box with the given half extents, centred on its own origin.
    fn cuboid(half_extents: Self::Vector) -> Self::Cuboid;

    /// The bounding sphere of `shape` placed at `pose`.
    fn bounding_sphere(shape: Self::Cuboid, pose: Self::Pose) -> Self::Sphere;

    /// `sphere` carried along by `pose`.
    fn moved_sphere(sphere: Self::Sphere, pose: Self::Pose) -> Self::Sphere;

    /// Whether two spheres overlap or touch.
    fn spheres_touch(a: Self::Sphere, b: Self::Sphere) -> bool;

    /// The smallest distance between two placed boxes; zero when they
    /// intersect.
    fn distance(
        pose_a: Self::Pose,
        a: Self::Cuboid,
        pose_b: Self::Pose,
        b: Self::Cuboid,
    ) -> Self::Scalar;
}

/// `r` is what `ratio(num, den)` returned.
pub open spec fn is_ratio<B: Backend>(num: i32, den: i32, r: B::Scalar) -> bool {
    call_ensures(B::ratio, (num, den), r)
}

/// `r` is what `pi()` returned.
pub open spec fn is_pi<B: Backend>(r: B::Scalar) -> bool {
    call_ensures(B::pi, (), r)
}

/// `r` is what `largest()` returned.
pub open spec fn is_largest<B: Backend>(r: B::Scalar) -> bool {
    call_ensures(B::largest, (), r)
}

/// `r` is what `plus(a, b)` returned.
pub open spec fn is_sum<B: Backend>(a: B::Scalar, b: B::Scalar, r: B::Scalar) -> bool {
    call_ensures(B::plus, (a, b), r)
}

/// `r` is what `minus(a, b)` returned.
pub open spec fn is_difference<B: Backend>(a: B::Scalar, b: B::Scalar, r: B::Scalar) -> bool {
    call_ensures(B::minus, (a, b), r)
}

/// `r` is what `times(a, b)` returned.
pub open spec fn is_multiple<B: Backend>(a: B::Scalar, b: B::Scalar, r: B::Scalar) -> bool {
    call_ensures(B::times, (a, b), r)
}

/// `r` is what `over(a, b)` returned.
pub open spec fn is_quotient<B: Backend>(a: B::Scalar, b: B::Scalar, r: B::Scalar) -> bool {
    call_ensures(B::over, (a, b), r)
}

/// `r` is what `negated(a)` returned.
pub open spec fn is_negation<B: Backend>(a: B::Scalar, r: B::Scalar) -> bool {
    call_ensures(B::negated, (a,), r)
}

/// `r` is what `squared(a)` returned.
pub open spec fn is_square<B: Backend>(a: B::Scalar, r: B::Scalar) -> bool {
    call_ensures(B::squared, (a,), r)
}

/// `r` is what `below(a, b)` answered.
pub open spec fn is_below<B: Backend>(a: B::Scalar, b: B::Scalar, r: bool) -> bool {
    call_ensures(B::below, (a, b), r)
}

/// `r` is what `at_most(a, b)` answered.
pub open spec fn is_at_most<B: Backend>(a: B::Scalar, b: B::Scalar, r: bool) -> bool {
    call_ensures(B::at_most, (a, b), r)
}

/// `r` is what `larger(a, b)` returned.
pub open spec fn is_larger<B: Backend>(a: B::Scalar, b: B::Scalar, r: B::Scalar) -> bool {
    call_ensures(B::larger, (a, b), r)
}

/// `r` is what `smaller(a, b)` returned.
pub open spec fn is_smaller<B: Backend>(a: B::Scalar, b: B::Scalar, r: B::Scalar) -> bool {
    call_ensures(B::smaller, (a, b), r)
}

/// `r` is what `ranks_above(a, b)` answered.
pub open spec fn is_ranked_above<B: Backend>(a: B::Scalar, b: B::Scalar, r: bool) -> bool {
    call_ensures(B::ranks_above, (a, b), r)
}

/// `r` is what `vector(x, y, z)` returned.
pub open spec fn is_vector<B: Backend>(
    x: B::Scalar,
    y: B::Scalar,
    z: B::Scalar,
    r: B::Vector,
) -> bool {
    call_ensures(B::vector, (x, y, z), r)
}

/// `r` is what `z_axis()` returned.
pub open spec fn is_z_axis<B: Backend>(r: B::Vector) -> bool {
    call_ensures(B::z_axis, (), r)
}

/// `r` is what `z_of(v)` returned.
pub open spec fn is_z_of<B: Backend>(v: B::Vector, r: B::Scalar) -> bool {
    call_ensures(B::z_of, (v,), r)
}

/// `r` is what `scaled(v, k)` returned.
pub open spec fn is_scaled<B: Backend>(v: B::Vector, k: B::Scalar, r: B::Vector) -> bool {
    call_ensures(B::scaled, (v, k), r)
}

/// `r` is what `identity()` returned.
pub open spec fn is_identity<B: Backend>(r: B::Transform) -> bool {
    call_ensures(B::identity, (), r)
}

/// `r` is what `rotation(turn)` returned.
pub open spec fn is_rotation<B: Backend>(turn: B::Vector, r: B::Transform) -> bool {
    call_ensures(B::rotation, (turn,), r)
}

/// `r` is what `translation(offset)` returned.
pub open spec fn is_translation<B: Backend>(offset: B::Vector, r: B::Transform) -> bool {
    call_ensures(B::translation, (offset,), r)
}

/// `r` is what `compose(a, b)` returned.
pub open spec fn is_product<B: Backend>(a: B::Transform, b: B::Transform, r: B::Transform) -> bool {
    call_ensures(B::compose, (a, b), r)
}

/// `r` is what `entry(m, row, col)` returned.
pub open spec fn is_entry<B: Backend>(m: B::Transform, row: usize, col: usize, r: B::Scalar) -> bool {
    call_ensures(B::entry, (m, row, col), r)
}

/// `r` is what `to_pose(m)` returned.
pub open spec fn is_pose_of<B: Backend>(m: B::Transform, r: Option<B::Pose>) -> bool {
    call_ensures(B::to_pose, (m,), r)
}

/// `r` is what `identity_pose()` returned.
pub open spec fn is_identity_pose<B: Backend>(r: B::Pose) -> bool {
    call_ensures(B::identity_pose, (), r)
}

/// `r` is what `cuboid(half_extents)` returned.
pub open spec fn is_cuboid<B: Backend>(half_extents: B::Vector, r: B::Cuboid) -> bool {
    call_ensures(B::cuboid, (half_extents,), r)
}

/// `r` is what `bounding_sphere(shape, pose)` returned.
pub open spec fn is_bounding_sphere<B: Backend>(
    shape: B::Cuboid,
    pose: B::Pose,
    r: B::Sphere,
) -> bool {
    call_ensures(B::bounding_sphere, (shape, pose), r)
}

/// `r` is what `moved_sphere(sphere, pose)` returned.
pub open spec fn is_moved_sphere<B: Backend>(sphere: B::Sphere, pose: B::Pose, r: B::Sphere) -> bool {
    call_ensures(B::moved_sphere, (sphere, pose), r)
}

/// `r` is what `spheres_touch(a, b)` answered.
pub open spec fn is_touch<B: Backend>(a: B::Sphere, b: B::Sphere, r: bool) -> bool {
    call_ensures(B::spheres_touch, (a, b), r)
}

/// `r` is what `distance(pose_a, a, pose_b, b)` returned.
pub open spec fn is_distance<B: Backend>(
    pose_a: B::Pose,
    a: B::Cuboid,
    pose_b: B::Pose,
    b: B::Cuboid,
    r: B::Scalar,
) -> bool {
    call_ensures(B::distance, (pose_a, a, pose_b, b), r)
}

} // verus!
