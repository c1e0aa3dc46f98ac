//! Pieces that every solver shares: posing a whole chain, the length of an
//! arm, and the small numeric helpers of a descent step.
use vstd::prelude::*;
use crate::backend::{
    Backend, is_below, is_multiple, is_pi, is_product, is_quotient, is_ratio, is_sum,
};
use crate::error::ChainError;
use crate::matrices::{
    generate_backward_matrices, generate_forward_matrices, generate_matrices,
    is_backward_products, is_chain, is_forward_products, is_joint_matrix, is_transform_loss,
    joint_matrix, transform_loss,
};

verus! {

/// How a run of a solver ended.
#[derive(Clone, Copy, Debug, PartialEq, Eq, Structural)]
pub enum SolveOutcome {
    /// The loss is no longer above the threshold.
    Converged,
    /// The step limit was reached with the loss still above the threshold.
    Failed,
}

/// `r` is the sum of `values`, added front to back onto a zero.
pub open spec fn is_total<B: Backend>(values: Seq<B::Scalar>, r: B::Scalar) -> bool
    decreases values.len(),
{
    if values.len() == 0 {
        is_ratio::<B>(0, 1, r)
    } else {
        exists|before: B::Scalar|
            #![trigger is_sum::<B>(before, values.last(), r)]
            is_total::<B>(values.drop_last(), before) && is_sum::<B>(before, values.last(), r)
    }
}

/// The sum of `values`, added front to back onto a zero.
pub fn total<B: Backend>(values: &Vec<B::Scalar>) -> (r: B::Scalar)
    ensures
        is_total::<B>(values@, r),
{
    let mut acc = B::ratio(0, 1);
    let mut i: usize = 0;
    while i < values.len()
        invariant
            i <= values.len(),
            is_total::<B>(values@.take(i as int), acc),
        decreases values.len() - i,
    {
        let next = B::plus(acc, values[i]);
        proof {
            let upto = values@.take(i + 1);
            assert(upto.drop_last() =~= values@.take(i as int));
            assert(is_sum::<B>(acc, upto.last(), next));
        }
        acc = next;
        i += 1;
    }
    assert(values@.take(values.len() as int) =~= values@);
    acc
}

/// `v` holds `n` copies of one zero.
pub open spec fn is_zeros<B: Backend>(n: nat, v: Seq<B::Scalar>) -> bool {
    &&& v.len() == n
    &&& exists|zero: B::Scalar|
        #![trigger is_ratio::<B>(0, 1, zero)]
        is_ratio::<B>(0, 1, zero) && forall|i: int| 0 <= i < n ==> v[i] == zero
}

/// `n` copies of one zero.
pub fn zeros<B: Backend>(n: usize) -> (v: Vec<B::Scalar>)
    ensures
        is_zeros::<B>(n as nat, v@),
{
    let zero = B::ratio(0, 1);
    let mut v: Vec<B::Scalar> = Vec::new();
    let mut i: usize = 0;
    while i < n
        invariant
            i <= n,
            v.len() == i,
            forall|k: int| 0 <= k < i ==> v[k] == zero,
        decreases n - i,
    {
        v.push(zero);
        i += 1;
    }
    assert(is_ratio::<B>(0, 1, zero));
    v
}

/// `r` is `value` held between `low` and `high`: `low` unless `value` is
/// above it, and then `value` if it is below `high`, else `high`.
pub open spec fn is_clamped<B: Backend>(
    value: B::Scalar,
    low: B::Scalar,
    high: B::Scalar,
    r: B::Scalar,
) -> bool {
    exists|above: bool|
        #![trigger is_below::<B>(low, value, above)]
        is_below::<B>(low, value, above) && if above {
            exists|under: bool|
                #![trigger is_below::<B>(value, high, under)]
                is_below::<B>(value, high, under) && r == if under {
                    value
                } else {
                    high
                }
        } else {
            r == low
        }
}

/// `value` held between `low` and `high`.
pub fn clamp<B: Backend>(value: B::Scalar, low: B::Scalar, high: B::Scalar) -> (r: B::Scalar)
    ensures
        is_clamped::<B>(value, low, high, r),
{
    let above = B::below(low, value);
    assert(is_below::<B>(low, value, above));
    if above {
        let under = B::below(value, high);
        assert(is_below::<B>(value, high, under));
        if under {
            value
        } else {
            high
        }
    } else {
        low
    }
}

/// `inside` tells whether `value` lies strictly between `low` and `high`.
/// The upper limit is consulted only where the lower one is met.
pub open spec fn is_strictly_between<B: Backend>(
    value: B::Scalar,
    low: B::Scalar,
    high: B::Scalar,
    inside: bool,
) -> bool {
    exists|above: bool|
        #![trigger is_below::<B>(low, value, above)]
        is_below::<B>(low, value, above) && if above {
            is_below::<B>(value, high, inside)
        } else {
            !inside
        }
}

/// Whether `value` lies strictly between `low` and `high`.
pub fn strictly_between<B: Backend>(value: B::Scalar, low: B::Scalar, high: B::Scalar) -> (inside:
    bool)
    ensures
        is_strictly_between::<B>(value, low, high, inside),
{
    let above = B::below(low, value);
    assert(is_below::<B>(low, value, above));
    if above {
        B::below(value, high)
    } else {
        false
    }
}

/// A chain in one configuration: its joint transforms, both families of
/// partial products and the pose of its end effector.
pub struct Posture<B: Backend> {
    /// The origin followed by one transform per joint.
    pub mats: Vec<B::Transform>,
    /// The forward partial products of `mats`.
    pub forward_mats: Vec<B::Transform>,
    /// The backward partial products of `mats`, closed by an identity.
    pub backward_mats: Vec<B::Transform>,
    /// The last forward product.
    pub end_effector: B::Transform,
}

/// The four parts of a posture belong to the chain with the given origin,
/// angles, axes and radii.
pub open spec fn is_posture<B: Backend>(
    origin: B::Transform,
    thetas: Seq<B::Scalar>,
    axes: Seq<B::Vector>,
    radii: Seq<B::Scalar>,
    mats: Seq<B::Transform>,
    forward_mats: Seq<B::Transform>,
    backward_mats: Seq<B::Transform>,
    end_effector: B::Transform,
) -> bool {
    &&& is_chain::<B>(origin, thetas, axes, radii, mats)
    &&& is_forward_products::<B>(mats, forward_mats)
    &&& is_backward_products::<B>(mats, backward_mats)
    &&& end_effector == forward_mats[forward_mats.len() - 1]
}

/// Poses a chain: joint transforms, partial products, end effector.
/// Refuses sequences of unequal length.
pub fn pose_chain<B: Backend>(
    origin: B::Transform,
    thetas: &Vec<B::Scalar>,
    axes: &Vec<B::Vector>,
    radii: &Vec<B::Scalar>,
) -> (result: Result<Posture<B>, ChainError>)
    ensures
        thetas.len() == axes.len() && thetas.len() == radii.len() ==> result is Ok && is_posture::<
            B,
        >(
            origin,
            thetas@,
            axes@,
            radii@,
            result->Ok_0.mats@,
            result->Ok_0.forward_mats@,
            result->Ok_0.backward_mats@,
            result->Ok_0.end_effector,
        ),
        !(thetas.len() == axes.len() && thetas.len() == radii.len()) ==> result is Err
            && result->Err_0 == (ChainError::LengthMismatch {
            angles: thetas.len(),
            axes: axes.len(),
            radii: radii.len(),
        }),
{
    match generate_matrices::<B>(origin, thetas, axes, radii) {
        Err(e) => Err(e),
        Ok(mats) => {
            let forward_mats = generate_forward_matrices::<B>(&mats);
            let backward_mats = generate_backward_matrices::<B>(&mats);
            let end_effector = forward_mats[forward_mats.len() - 1];
            Ok(Posture { mats, forward_mats, backward_mats, end_effector })
        },
    }
}

/// `r` is the loss of a pose against a target: the combined loss with
/// positions measured in arm lengths and rotations in units of the circle
/// constant.
pub open spec fn is_pose_loss<B: Backend>(
    end_effector: B::Transform,
    target: B::Transform,
    arm_length: B::Scalar,
    r: B::Scalar,
) -> bool {
    exists|pi: B::Scalar|
        #![trigger is_transform_loss::<B>(end_effector, target, arm_length, pi, r)]
        is_pi::<B>(pi) && is_transform_loss::<B>(end_effector, target, arm_length, pi, r)
}

/// The loss of a pose against a target.
pub fn pose_loss<B: Backend>(
    end_effector: &B::Transform,
    target: &B::Transform,
    arm_length: B::Scalar,
) -> (r: B::Scalar)
    ensures
        is_pose_loss::<B>(*end_effector, *target, arm_length, r),
{
    let pi = B::pi();
    transform_loss::<B>(end_effector, target, arm_length, pi)
}

/// `r` is the learning rate after `iterations` steps:
/// `rate * (1 / (1 + decay * iterations))`.
pub open spec fn is_decayed<B: Backend>(
    rate: B::Scalar,
    decay: B::Scalar,
    iterations: i32,
    r: B::Scalar,
) -> bool {
    exists|one: B::Scalar, count: B::Scalar, grown: B::Scalar, divisor: B::Scalar, share: B::Scalar|
        #![trigger is_multiple::<B>(decay, count, grown), is_sum::<B>(one, grown, divisor), is_multiple::<B>(rate, share, r)]
        is_ratio::<B>(1, 1, one) && is_ratio::<B>(iterations, 1, count) && is_multiple::<B>(
            decay,
            count,
            grown,
        ) && is_sum::<B>(one, grown, divisor) && is_quotient::<B>(one, divisor, share)
            && is_multiple::<B>(rate, share, r)
}

/// The learning rate after `iterations` steps.
pub fn decayed<B: Backend>(rate: B::Scalar, decay: B::Scalar, iterations: i32) -> (r: B::Scalar)
    ensures
        is_decayed::<B>(rate, decay, iterations, r),
{
    let one = B::ratio(1, 1);
    let count = B::ratio(iterations, 1);
    let grown = B::times(decay, count);
    let divisor = B::plus(one, grown);
    let share = B::over(one, divisor);
    let r = B::times(rate, share);
    assert(is_multiple::<B>(decay, count, grown) && is_sum::<B>(one, grown, divisor)
        && is_multiple::<B>(rate, share, r));
    r
}

/// `pose` is the end effector of a posture with joint `i` alone set to
/// `angle`: the forward product before the joint, times the joint's new
/// transform, times the backward product after it.
pub open spec fn is_probe<B: Backend>(
    axes: Seq<B::Vector>,
    radii: Seq<B::Scalar>,
    forward_mats: Seq<B::Transform>,
    backward_mats: Seq<B::Transform>,
    i: int,
    angle: B::Scalar,
    pose: B::Transform,
) -> bool {
    exists|joint: B::Transform, upto: B::Transform|
        #![trigger is_product::<B>(forward_mats[i], joint, upto)]
        is_joint_matrix::<B>(angle, axes[i], radii[i], joint) && is_product::<B>(
            forward_mats[i],
            joint,
            upto,
        ) && is_product::<B>(upto, backward_mats[i + 2], pose)
}

/// The end effector of a posture with joint `i` alone set to `angle`.
pub fn probe<B: Backend>(
    axes: &Vec<B::Vector>,
    radii: &Vec<B::Scalar>,
    forward_mats: &Vec<B::Transform>,
    backward_mats: &Vec<B::Transform>,
    i: usize,
    angle: B::Scalar,
) -> (pose: B::Transform)
    requires
        i < axes.len(),
        i < radii.len(),
        i < forward_mats.len(),
        i + 2 < backward_mats.len(),
    ensures
        is_probe::<B>(axes@, radii@, forward_mats@, backward_mats@, i as int, angle, pose),
{
    let joint = joint_matrix::<B>(angle, &axes[i], radii[i]);
    let upto = B::compose(forward_mats[i], joint);
    let pose = B::compose(upto, backward_mats[i + 2]);
    assert(is_product::<B>(forward_mats@[i as int], joint, upto));
    pose
}

/// `nudge` is the step for one joint: the retained share of its momentum
/// plus the slope times the learning rate.
pub open spec fn is_nudge<B: Backend>(
    momentum: B::Scalar,
    retain: B::Scalar,
    slope: B::Scalar,
    rate: B::Scalar,
    nudge: B::Scalar,
) -> bool {
    exists|kept: B::Scalar, pull: B::Scalar|
        #![trigger is_sum::<B>(kept, pull, nudge)]
        is_multiple::<B>(momentum, retain, kept) && is_multiple::<B>(slope, rate, pull)
            && is_sum::<B>(kept, pull, nudge)
}

/// The step for one joint.
pub fn nudge_of<B: Backend>(
    momentum: B::Scalar,
    retain: B::Scalar,
    slope: B::Scalar,
    rate: B::Scalar,
) -> (nudge: B::Scalar)
    ensures
        is_nudge::<B>(momentum, retain, slope, rate, nudge),
{
    let kept = B::times(momentum, retain);
    let pull = B::times(slope, rate);
    let nudge = B::plus(kept, pull);
    assert(is_sum::<B>(kept, pull, nudge));
    nudge
}

} // verus!
