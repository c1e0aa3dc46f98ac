//! Per-joint transforms of a chain, their partial products, and the loss that
//! measures how far one pose is from another.
use vstd::prelude::*;
use crate::backend::{
    Backend, is_difference, is_entry, is_identity, is_product, is_quotient, is_ratio, is_rotation,
    is_scaled, is_square, is_sum, is_translation, is_vector,
};
use crate::error::ChainError;

verus! {

/// `m` is the transform of one joint: rotate by `angle` about `axis`, then
/// translate by `position`.
pub open spec fn is_transform_matrix<B: Backend>(
    angle: B::Scalar,
    axis: B::Vector,
    position: B::Vector,
    m: B::Transform,
) -> bool {
    exists|turn: B::Vector, r: B::Transform, t: B::Transform|
        #![trigger is_rotation::<B>(turn, r), is_translation::<B>(position, t)]
        is_scaled::<B>(axis, angle, turn) && is_rotation::<B>(turn, r) && is_translation::<B>(
            position,
            t,
        ) && is_product::<B>(t, r, m)
}

/// `m` is the transform of a joint whose link of length `radius` runs along
/// the joint's own z direction.
pub open spec fn is_joint_matrix<B: Backend>(
    angle: B::Scalar,
    axis: B::Vector,
    radius: B::Scalar,
    m: B::Transform,
) -> bool {
    exists|zero: B::Scalar, offset: B::Vector|
        #![trigger is_vector::<B>(zero, zero, radius, offset)]
        is_ratio::<B>(0, 1, zero) && is_vector::<B>(zero, zero, radius, offset)
            && is_transform_matrix::<B>(angle, axis, offset, m)
}

/// `mats` holds the origin followed by one joint transform per joint.
pub open spec fn is_chain<B: Backend>(
    origin: B::Transform,
    angles: Seq<B::Scalar>,
    axes: Seq<B::Vector>,
    radii: Seq<B::Scalar>,
    mats: Seq<B::Transform>,
) -> bool {
    &&& angles.len() == axes.len()
    &&& angles.len() == radii.len()
    &&& mats.len() == angles.len() + 1
    &&& mats[0] == origin
    &&& forall|i: int|
        0 <= i < angles.len() ==> is_joint_matrix::<B>(
            angles[i],
            axes[i],
            radii[i],
            #[trigger] mats[i + 1],
        )
}

/// `forward` holds the left-to-right partial products of `mats`: it starts
/// with the first transform and each later element is its predecessor times
/// the next transform.
pub open spec fn is_forward_products<B: Backend>(
    mats: Seq<B::Transform>,
    forward: Seq<B::Transform>,
) -> bool {
    &&& mats.len() > 0
    &&& forward.len() == mats.len()
    &&& forward[0] == mats[0]
    &&& forall|i: int|
        1 <= i < mats.len() ==> is_product::<B>(forward[i - 1], mats[i], #[trigger] forward[i])
}

/// `backward` holds the right-to-left partial products of `mats`, closed by
/// an identity: the element before the identity is the last transform and
/// each earlier element is its transform times the element that follows.
pub open spec fn is_backward_products<B: Backend>(
    mats: Seq<B::Transform>,
    backward: Seq<B::Transform>,
) -> bool {
    &&& mats.len() > 0
    &&& backward.len() == mats.len() + 1
    &&& is_identity::<B>(backward[mats.len() as int])
    &&& backward[mats.len() - 1] == mats[mats.len() - 1]
    &&& forall|k: int|
        0 <= k < mats.len() - 1 ==> is_product::<B>(mats[k], backward[k + 1], #[trigger] backward[k])
}

/// `r` is the squared, scaled difference of two numbers:
/// `((expected - actual) / scale)` to the second power.
pub open spec fn is_squared_error<B: Backend>(
    actual: B::Scalar,
    expected: B::Scalar,
    scale: B::Scalar,
    r: B::Scalar,
) -> bool {
    exists|d: B::Scalar, q: B::Scalar|
        #![trigger is_quotient::<B>(d, scale, q)]
        is_difference::<B>(expected, actual, d) && is_quotient::<B>(d, scale, q) && is_square::<B>(
            q,
            r,
        )
}

/// `r` is the squared, scaled difference of the entries of two transforms at
/// one position.
pub open spec fn is_entry_error<B: Backend>(
    actual: B::Transform,
    expected: B::Transform,
    row: usize,
    col: usize,
    scale: B::Scalar,
    r: B::Scalar,
) -> bool {
    exists|e: B::Scalar, a: B::Scalar|
        #![trigger is_entry::<B>(expected, row, col, e), is_entry::<B>(actual, row, col, a)]
        is_entry::<B>(expected, row, col, e) && is_entry::<B>(actual, row, col, a)
            && is_squared_error::<B>(a, e, scale, r)
}

/// `r` is the positional loss: the squared distance between the translation
/// parts of two transforms, each coordinate divided by `dist_correction`
/// before squaring and the three added in the order x, y, z.
pub open spec fn is_distance_loss<B: Backend>(
    actual: B::Transform,
    expected: B::Transform,
    dist_correction: B::Scalar,
    r: B::Scalar,
) -> bool {
    exists|x: B::Scalar, y: B::Scalar, z: B::Scalar, xy: B::Scalar|
        #![trigger is_sum::<B>(x, y, xy), is_sum::<B>(xy, z, r)]
        is_entry_error::<B>(actual, expected, 0, 3, dist_correction, x) && is_entry_error::<B>(
            actual,
            expected,
            1,
            3,
            dist_correction,
            y,
        ) && is_entry_error::<B>(actual, expected, 2, 3, dist_correction, z) && is_sum::<B>(x, y, xy)
            && is_sum::<B>(xy, z, r)
}

/// `r` is the sum of the first `count` entry errors of the rotation part,
/// taken column by column and added to a zero in that order.
pub open spec fn is_rotation_sum<B: Backend>(
    actual: B::Transform,
    expected: B::Transform,
    rot_correction: B::Scalar,
    count: nat,
    r: B::Scalar,
) -> bool
    decreases count,
{
    if count == 0 {
        is_ratio::<B>(0, 1, r)
    } else {
        exists|before: B::Scalar, term: B::Scalar|
            #![trigger is_sum::<B>(before, term, r)]
            is_rotation_sum::<B>(actual, expected, rot_correction, (count - 1) as nat, before)
                && is_entry_error::<B>(
                actual,
                expected,
                ((count - 1) % 3) as usize,
                ((count - 1) / 3) as usize,
                rot_correction,
                term,
            ) && is_sum::<B>(before, term, r)
    }
}

/// `r` is the rotational loss: the nine entry errors of the rotation part
/// added up, and the sum divided once more by `rot_correction`.
pub open spec fn is_rotation_loss<B: Backend>(
    actual: B::Transform,
    expected: B::Transform,
    rot_correction: B::Scalar,
    r: B::Scalar,
) -> bool {
    exists|total: B::Scalar|
        #![trigger is_quotient::<B>(total, rot_correction, r)]
        is_rotation_sum::<B>(actual, expected, rot_correction, 9, total) && is_quotient::<B>(
            total,
            rot_correction,
            r,
        )
}

/// `r` is the combined loss: a zero, plus the positional loss, plus the
/// rotational loss.
pub open spec fn is_transform_loss<B: Backend>(
    actual: B::Transform,
    expected: B::Transform,
    dist_correction: B::Scalar,
    rot_correction: B::Scalar,
    r: B::Scalar,
) -> bool {
    exists|zero: B::Scalar, d: B::Scalar, partial: B::Scalar, rot: B::Scalar|
        #![trigger is_sum::<B>(zero, d, partial), is_sum::<B>(partial, rot, r)]
        is_ratio::<B>(0, 1, zero) && is_distance_loss::<B>(actual, expected, dist_correction, d)
            && is_sum::<B>(zero, d, partial) && is_rotation_loss::<B>(
            actual,
            expected,
            rot_correction,
            rot,
        ) && is_sum::<B>(partial, rot, r)
}

/// A copy of `v`.
pub fn copy_of<T: Copy>(v: &Vec<T>) -> (r: Vec<T>)
    ensures
        r@ == v@,
{
    let mut r: Vec<T> = Vec::new();
    let mut i: usize = 0;
    while i < v.len()
        invariant
            i <= v.len(),
            r@ == v@.take(i as int),
        decreases v.len() - i,
    {
        r.push(v[i]);
        i += 1;
    }
    r
}

/// The homogeneous transform of one joint: a rotation by `angle` about
/// `axis`, followed by a translation by `position`.
pub fn transform_matrix<B: Backend>(angle: B::Scalar, axis: &B::Vector, position: &B::Vector) -> (m:
    B::Transform)
    ensures
        is_transform_matrix::<B>(angle, *axis, *position, m),
{
    let turn = B::scaled(*axis, angle);
    let r = B::rotation(turn);
    let t = B::translation(*position);
    let m = B::compose(t, r);
    assert(is_rotation::<B>(turn, r) && is_translation::<B>(*position, t));
    m
}

/// The transform of a joint whose link of length `radius` runs along the
/// joint's own z direction.
pub fn joint_matrix<B: Backend>(angle: B::Scalar, axis: &B::Vector, radius: B::Scalar) -> (m:
    B::Transform)
    ensures
        is_joint_matrix::<B>(angle, *axis, radius, m),
{
    let zero = B::ratio(0, 1);
    let offset = B::vector(zero, zero, radius);
    let m = transform_matrix::<B>(angle, axis, &offset);
    assert(is_vector::<B>(zero, zero, radius, offset));
    m
}

/// The transforms of a chain: the origin, then one joint transform per
/// joint. Refuses sequences of unequal length.
pub fn generate_matrices<B: Backend>(
    origin: B::Transform,
    angles: &Vec<B::Scalar>,
    axes: &Vec<B::Vector>,
    radii: &Vec<B::Scalar>,
) -> (result: Result<Vec<B::Transform>, ChainError>)
    ensures
        angles.len() == axes.len() && angles.len() == radii.len() ==> result is Ok
            && is_chain::<B>(origin, angles@, axes@, radii@, result->Ok_0@),
        !(angles.len() == axes.len() && angles.len() == radii.len()) ==> result == Err::<
            Vec<B::Transform>,
            ChainError,
        >(
            ChainError::LengthMismatch {
                angles: angles.len(),
                axes: axes.len(),
                radii: radii.len(),
            },
        ),
{
    if !(angles.len() == axes.len() && angles.len() == radii.len()) {
        return Err(
            ChainError::LengthMismatch {
                angles: angles.len(),
                axes: axes.len(),
                radii: radii.len(),
            },
        );
    }
    let mut matrices: Vec<B::Transform> = Vec::new();
    matrices.push(origin);
    let mut i: usize = 0;
    while i < angles.len()
        invariant
            i <= angles.len(),
            angles.len() == axes.len(),
            angles.len() == radii.len(),
            matrices.len() == i + 1,
            matrices[0] == origin,
            forall|k: int|
                0 <= k < i ==> is_joint_matrix::<B>(
                    angles[k],
                    axes[k],
                    radii[k],
                    #[trigger] matrices[k + 1],
                ),
        decreases angles.len() - i,
    {
        let m = joint_matrix::<B>(angles[i], &axes[i], radii[i]);
        matrices.push(m);
        i += 1;
    }
    Ok(matrices)
}

/// All forward partial products `[O, O*A, O*A*B, ...]` of a chain's
/// transforms.
pub fn generate_forward_matrices<B: Backend>(matrices: &Vec<B::Transform>) -> (forward: Vec<
    B::Transform,
>)
    requires
        matrices.len() > 0,
    ensures
        is_forward_products::<B>(matrices@, forward@),
{
    let mut forward: Vec<B::Transform> = Vec::new();
    forward.push(matrices[0]);
    let mut i: usize = 1;
    while i < matrices.len()
        invariant
            1 <= i <= matrices.len(),
            forward.len() == i,
            forward[0] == matrices[0],
            forall|k: int|
                1 <= k < i ==> is_product::<B>(forward[k - 1], matrices[k], #[trigger] forward[k]),
        decreases matrices.len() - i,
    {
        let next = B::compose(forward[i - 1], matrices[i]);
        forward.push(next);
        i += 1;
    }
    forward
}

/// All backward partial products `[..., C*D*E, D*E, E]` of a chain's
/// transforms, followed by an identity that stands for "nothing left".
pub fn generate_backward_matrices<B: Backend>(matrices: &Vec<B::Transform>) -> (backward: Vec<
    B::Transform,
>)
    requires
        matrices.len() > 0,
    ensures
        is_backward_products::<B>(matrices@, backward@),
{
    let n = matrices.len();
    // Built from the end of the chain: reversed[i] is the product that starts
    // at transform n - 1 - i.
    let mut reversed: Vec<B::Transform> = Vec::new();
    reversed.push(matrices[n - 1]);
    let mut i: usize = 1;
    while i < n
        invariant
            n == matrices.len(),
            1 <= i <= n,
            reversed.len() == i,
            reversed[0] == matrices[n - 1],
            forall|k: int|
                1 <= k < i ==> is_product::<B>(
                    matrices[n - 1 - k],
                    reversed[k - 1],
                    #[trigger] reversed[k],
                ),
        decreases n - i,
    {
        let next = B::compose(matrices[n - i - 1], reversed[i - 1]);
        reversed.push(next);
        i += 1;
    }
    let mut backward: Vec<B::Transform> = Vec::new();
    let mut j: usize = 0;
    while j < n
        invariant
            n == matrices.len(),
            reversed.len() == n,
            j <= n,
            backward.len() == j,
            forall|k: int| 0 <= k < j ==> #[trigger] backward[k] == reversed[n - 1 - k],
        decreases n - j,
    {
        backward.push(reversed[n - 1 - j]);
        j += 1;
    }
    backward.push(B::identity());
    backward
}

/// The squared, scaled difference of the entries of two transforms at one
/// position.
fn entry_error<B: Backend>(
    actual: &B::Transform,
    expected: &B::Transform,
    row: usize,
    col: usize,
    scale: B::Scalar,
) -> (r: B::Scalar)
    requires
        row < 4,
        col < 4,
    ensures
        is_entry_error::<B>(*actual, *expected, row, col, scale, r),
{
    let e = B::entry(*expected, row, col);
    let a = B::entry(*actual, row, col);
    let d = B::minus(e, a);
    let q = B::over(d, scale);
    let r = B::squared(q);
    assert(is_quotient::<B>(d, scale, q));
    assert(is_entry::<B>(*expected, row, col, e) && is_entry::<B>(*actual, row, col, a));
    r
}

/// The positional loss between two poses: the squared distance of their
/// translation parts, measured in units of `dist_correction`.
pub fn distance_loss<B: Backend>(
    actual: &B::Transform,
    expected: &B::Transform,
    dist_correction: B::Scalar,
) -> (loss: B::Scalar)
    ensures
        is_distance_loss::<B>(*actual, *expected, dist_correction, loss),
{
    let x = entry_error::<B>(actual, expected, 0, 3, dist_correction);
    let y = entry_error::<B>(actual, expected, 1, 3, dist_correction);
    let z = entry_error::<B>(actual, expected, 2, 3, dist_correction);
    let xy = B::plus(x, y);
    let loss = B::plus(xy, z);
    assert(is_sum::<B>(x, y, xy) && is_sum::<B>(xy, z, loss));
    loss
}

/// The rotational loss between two poses: the squared differences of the
/// nine rotation entries, each in units of `rot_correction`, added up and
/// divided by `rot_correction` once more.
pub fn rotation_loss<B: Backend>(
    actual: &B::Transform,
    expected: &B::Transform,
    rot_correction: B::Scalar,
) -> (loss: B::Scalar)
    ensures
        is_rotation_loss::<B>(*actual, *expected, rot_correction, loss),
{
    let mut err = B::ratio(0, 1);
    let mut count: usize = 0;
    while count < 9
        invariant
            count <= 9,
            is_rotation_sum::<B>(*actual, *expected, rot_correction, count as nat, err),
        decreases 9 - count,
    {
        let term = entry_error::<B>(actual, expected, count % 3, count / 3, rot_correction);
        let next = B::plus(err, term);
        assert(is_sum::<B>(err, term, next));
        err = next;
        count += 1;
    }
    let loss = B::over(err, rot_correction);
    assert(is_quotient::<B>(err, rot_correction, loss));
    loss
}

/// The combined loss between two poses: positional plus rotational.
pub fn transform_loss<B: Backend>(
    actual: &B::Transform,
    expected: &B::Transform,
    dist_correction: B::Scalar,
    rot_correction: B::Scalar,
) -> (loss: B::Scalar)
    ensures
        is_transform_loss::<B>(*actual, *expected, dist_correction, rot_correction, loss),
{
    let zero = B::ratio(0, 1);
    let d = distance_loss::<B>(actual, expected, dist_correction);
    let partial = B::plus(zero, d);
    let rot = rotation_loss::<B>(actual, expected, rot_correction);
    let loss = B::plus(partial, rot);
    assert(is_sum::<B>(zero, d, partial) && is_sum::<B>(partial, rot, loss));
    loss
}

/// In every chain the first forward product is the chain's origin and the
/// last backward product is an identity; there is one forward product per
/// transform, and one backward product more.
pub proof fn lemma_chain_ends<B: Backend>(
    origin: B::Transform,
    angles: Seq<B::Scalar>,
    axes: Seq<B::Vector>,
    radii: Seq<B::Scalar>,
    mats: Seq<B::Transform>,
    forward: Seq<B::Transform>,
    backward: Seq<B::Transform>,
)
    requires
        is_chain::<B>(origin, angles, axes, radii, mats),
        is_forward_products::<B>(mats, forward),
        is_backward_products::<B>(mats, backward),
    ensures
        forward.len() == angles.len() + 1,
        backward.len() == angles.len() + 2,
        forward[0] == origin,
        is_identity::<B>(backward[backward.len() - 1]),
{
}

} // verus!
