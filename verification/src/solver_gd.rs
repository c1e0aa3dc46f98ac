//! The gradient-descent solver with angle limits and collision-aware steps.
//!
//! One update poses the chain, then visits every joint once: it estimates
//! how the loss changes with the joint's angle by moving that joint alone,
//! turns the estimate and the joint's momentum into a nudge, and takes the
//! nudge only if the new angle is within the joint's limits and the arm, so
//! moved, touches neither itself nor an obstacle. A blocked joint is pushed
//! the other way instead.
use vstd::prelude::*;
use crate::backend::{
    Backend, is_below, is_difference, is_negation, is_quotient, is_ratio, is_sum,
};
use crate::chain::{
    SolveOutcome, clamp, decayed, is_clamped, is_decayed, is_nudge, is_pose_loss, is_posture,
    is_probe, is_strictly_between, is_total, is_zeros, nudge_of, pose_chain, pose_loss, probe,
    strictly_between, total, zeros,
};
use crate::collision_handler::{Colliders, CollisionHandler, is_self_query, is_world_query};
use crate::error::ChainError;
use crate::matrices::{
    copy_of, generate_forward_matrices, is_forward_products, is_joint_matrix, joint_matrix,
};

verus! {

/// The number of updates after which a run gives up.
pub const MAX_STEPS: i32 = 10;

/// What a step on one joint reads: the chain's geometry and limits, its
/// current posture and loss, the target, the step parameters and the
/// colliders. The angles and momenta of the other joints are not part of it.
pub struct DescentFrame<B: Backend> {
    /// The rotation axis of each joint.
    pub axes: Seq<B::Vector>,
    /// The link length of each joint.
    pub radii: Seq<B::Scalar>,
    /// The lower angle limit of each joint.
    pub min_angles: Seq<B::Scalar>,
    /// The upper angle limit of each joint.
    pub max_angles: Seq<B::Scalar>,
    /// The origin followed by one transform per joint.
    pub mats: Seq<B::Transform>,
    /// The forward partial products of `mats`.
    pub forward_mats: Seq<B::Transform>,
    /// The backward partial products of `mats`.
    pub backward_mats: Seq<B::Transform>,
    /// The loss of the posture.
    pub loss: B::Scalar,
    /// The pose to reach.
    pub target: B::Transform,
    /// The sum of the link lengths.
    pub arm_length: B::Scalar,
    /// The learning rate of a step.
    pub learn_rate: B::Scalar,
    /// The share of a joint's momentum that enters its next nudge.
    pub momentum_retain: B::Scalar,
    /// The colliders of the arm and its surroundings.
    pub colliders: Colliders<B>,
}

/// `slope` estimates how the loss changes with the angle of joint `i`: the
/// loss with the angle raised by a hundred-thousandth, minus the current
/// loss, divided by that step, and held between minus one half and one half.
pub open spec fn is_slope<B: Backend>(
    f: DescentFrame<B>,
    i: int,
    theta: B::Scalar,
    slope: B::Scalar,
) -> bool {
    exists|
        step: B::Scalar,
        raised: B::Scalar,
        moved: B::Transform,
        moved_loss: B::Scalar,
        rise: B::Scalar,
        raw: B::Scalar,
        low: B::Scalar,
        high: B::Scalar,
    |
        #![trigger is_sum::<B>(theta, step, raised), is_pose_loss::<B>(moved, f.target, f.arm_length, moved_loss), is_quotient::<B>(rise, step, raw), is_clamped::<B>(raw, low, high, slope)]
        is_ratio::<B>(1, 100000, step) && is_sum::<B>(theta, step, raised) && is_probe::<B>(
            f.axes,
            f.radii,
            f.forward_mats,
            f.backward_mats,
            i,
            raised,
            moved,
        ) && is_pose_loss::<B>(moved, f.target, f.arm_length, moved_loss) && is_difference::<B>(
            moved_loss,
            f.loss,
            rise,
        ) && is_quotient::<B>(rise, step, raw) && is_ratio::<B>(-1i32, 2, low) && is_ratio::<B>(
            1,
            2,
            high,
        ) && is_clamped::<B>(raw, low, high, slope)
}

/// `outcome` tells whether the arm collides once joint `i` alone is set to
/// `angle`: with itself across the joint, or else with an obstacle from link
/// `i` on. Obstacles are consulted only where the arm is clear of itself.
pub open spec fn is_blocked<B: Backend>(
    f: DescentFrame<B>,
    i: int,
    angle: B::Scalar,
    outcome: Result<bool, ChainError>,
) -> bool {
    exists|joint: B::Transform, trial: Seq<B::Transform>, own: Result<bool, ChainError>|
        #![trigger is_forward_products::<B>(f.mats.update(i + 1, joint), trial), is_self_query::<B>(f.colliders, i, trial, own)]
        is_joint_matrix::<B>(angle, f.axes[i], f.radii[i], joint) && is_forward_products::<B>(
            f.mats.update(i + 1, joint),
            trial,
        ) && is_self_query::<B>(f.colliders, i, trial, own) && match own {
            Ok(false) => is_world_query::<B>(f.colliders, i, trial, outcome),
            _ => outcome == own,
        }
}

/// `outcome` is the result of one step on joint `i`, which has the angle
/// `theta` and the momentum `momentum`: the joint's new angle and momentum,
/// or the error of a collision query that failed.
///
/// The step proposes `theta - nudge`. Outside the joint's limits nothing
/// changes. Within them the proposal is taken, with the nudge as the new
/// momentum, unless the arm would collide; then the joint moves to
/// `theta + nudge` and the momentum becomes the negated nudge.
pub open spec fn is_joint_step<B: Backend>(
    f: DescentFrame<B>,
    i: int,
    theta: B::Scalar,
    momentum: B::Scalar,
    outcome: Result<(B::Scalar, B::Scalar), ChainError>,
) -> bool {
    exists|slope: B::Scalar, nudge: B::Scalar, proposed: B::Scalar, inside: bool|
        #![trigger is_nudge::<B>(momentum, f.momentum_retain, slope, f.learn_rate, nudge), is_strictly_between::<B>(proposed, f.min_angles[i], f.max_angles[i], inside)]
        is_slope::<B>(f, i, theta, slope) && is_nudge::<B>(
            momentum,
            f.momentum_retain,
            slope,
            f.learn_rate,
            nudge,
        ) && is_difference::<B>(theta, nudge, proposed) && is_strictly_between::<B>(
            proposed,
            f.min_angles[i],
            f.max_angles[i],
            inside,
        ) && if !inside {
            outcome == Ok::<(B::Scalar, B::Scalar), ChainError>((theta, momentum))
        } else {
            exists|blocked: Result<bool, ChainError>|
                #![trigger is_blocked::<B>(f, i, proposed, blocked)]
                is_blocked::<B>(f, i, proposed, blocked) && match blocked {
                    Err(e) => outcome == Err::<(B::Scalar, B::Scalar), ChainError>(e),
                    Ok(false) => outcome == Ok::<(B::Scalar, B::Scalar), ChainError>(
                        (proposed, nudge),
                    ),
                    Ok(true) => exists|back: B::Scalar, reversed: B::Scalar|
                        #![trigger is_sum::<B>(theta, nudge, back), is_negation::<B>(nudge, reversed)]
                        is_sum::<B>(theta, nudge, back) && is_negation::<B>(nudge, reversed)
                            && outcome == Ok::<(B::Scalar, B::Scalar), ChainError>(
                            (back, reversed),
                        ),
                }
        }
}

/// `result` is the outcome of visiting every joint once, in order, starting
/// from the angles `thetas` and the momenta `momentums`. On success every
/// joint has taken its step. On failure the joints before the failing one
/// have taken theirs and the others are as they were.
pub open spec fn is_descent<B: Backend>(
    f: DescentFrame<B>,
    thetas: Seq<B::Scalar>,
    momentums: Seq<B::Scalar>,
    new_thetas: Seq<B::Scalar>,
    new_momentums: Seq<B::Scalar>,
    result: Result<(), ChainError>,
) -> bool {
    &&& new_thetas.len() == thetas.len()
    &&& new_momentums.len() == momentums.len()
    &&& match result {
        Ok(()) => forall|i: int|
            #![trigger new_thetas[i]]
            0 <= i < thetas.len() ==> is_joint_step::<B>(
                f,
                i,
                thetas[i],
                momentums[i],
                Ok((new_thetas[i], new_momentums[i])),
            ),
        Err(e) => exists|failed: int|
            #![trigger thetas[failed]]
            {
                &&& 0 <= failed < thetas.len()
                &&& is_joint_step::<B>(f, failed, thetas[failed], momentums[failed], Err(e))
                &&& forall|i: int|
                    #![trigger new_thetas[i]]
                    0 <= i < failed ==> is_joint_step::<B>(
                        f,
                        i,
                        thetas[i],
                        momentums[i],
                        Ok((new_thetas[i], new_momentums[i])),
                    )
                &&& forall|i: int|
                    #![trigger new_thetas[i]]
                    failed <= i < thetas.len() ==> new_thetas[i] == thetas[i] && new_momentums[i]
                        == momentums[i]
            },
    }
}

/// The gradient-descent solver.
pub struct IKSolverGD<B: Backend> {
    /// The rotation axis of each joint.
    pub axes: Vec<B::Vector>,
    /// The link length of each joint.
    pub radii: Vec<B::Scalar>,
    /// The current angle of each joint.
    pub thetas: Vec<B::Scalar>,
    /// The pose of the chain's base.
    pub origin: B::Transform,
    /// The lower angle limit of each joint.
    pub min_angles: Vec<B::Scalar>,
    /// The upper angle limit of each joint.
    pub max_angles: Vec<B::Scalar>,
    /// The sum of the link lengths.
    pub arm_length: B::Scalar,
    /// The pose of the end effector in the current posture.
    pub end_effector: B::Transform,
    /// The pose to reach, if one was set.
    pub target: Option<B::Transform>,
    /// The origin followed by one transform per joint.
    pub mats: Vec<B::Transform>,
    /// The forward partial products of `mats`.
    pub forward_mats: Vec<B::Transform>,
    /// The backward partial products of `mats`.
    pub backward_mats: Vec<B::Transform>,
    /// The loss of the current posture.
    pub loss: B::Scalar,
    /// The number of updates since the last reset.
    pub iterations: i32,
    /// The learning rate of a step.
    pub learn_rate: B::Scalar,
    /// The learning rate decayed by the number of updates so far.
    pub current_learn_rate: B::Scalar,
    /// How fast the learning rate decays.
    pub decay: B::Scalar,
    /// The last nudge of each joint.
    pub momentums: Vec<B::Scalar>,
    /// The share of a joint's momentum that enters its next nudge.
    pub momentum_retain: B::Scalar,
    /// The colliders of the arm and its surroundings.
    pub collision_handler: CollisionHandler<B>,
}

impl<B: Backend> IKSolverGD<B> {
    /// The number of joints.
    pub open spec fn joints(self) -> nat {
        self.thetas@.len()
    }

    /// Every per-joint sequence has one entry per joint, the collider set
    /// has no more links than the chain has joint frames, and the update
    /// count is not negative.
    pub open spec fn wf(self) -> bool {
        &&& self.axes@.len() == self.joints()
        &&& self.radii@.len() == self.joints()
        &&& self.min_angles@.len() == self.joints()
        &&& self.max_angles@.len() == self.joints()
        &&& self.momentums@.len() == self.joints()
        &&& self.collision_handler@.links() <= self.joints() + 1
        &&& self.collision_handler@.wf()
        &&& 0 <= self.iterations
    }

    /// The posture has the lengths that belong to the number of joints.
    pub open spec fn posed(self) -> bool {
        &&& self.mats@.len() == self.joints() + 1
        &&& self.forward_mats@.len() == self.joints() + 1
        &&& self.backward_mats@.len() == self.joints() + 2
    }

    /// `other` has the same geometry, limits, step parameters and colliders.
    pub open spec fn same_setup(self, other: Self) -> bool {
        &&& self.axes@ == other.axes@
        &&& self.radii@ == other.radii@
        &&& self.origin == other.origin
        &&& self.min_angles@ == other.min_angles@
        &&& self.max_angles@ == other.max_angles@
        &&& self.arm_length == other.arm_length
        &&& self.learn_rate == other.learn_rate
        &&& self.decay == other.decay
        &&& self.momentum_retain == other.momentum_retain
        &&& self.collision_handler@ == other.collision_handler@
    }

    /// `other` has the same posture and loss.
    pub open spec fn same_posture(self, other: Self) -> bool {
        &&& self.mats@ == other.mats@
        &&& self.forward_mats@ == other.forward_mats@
        &&& self.backward_mats@ == other.backward_mats@
        &&& self.end_effector == other.end_effector
        &&& self.loss == other.loss
    }

    /// What a step on one joint reads. Meaningful where a target is set.
    pub open spec fn frame(self) -> DescentFrame<B> {
        DescentFrame {
            axes: self.axes@,
            radii: self.radii@,
            min_angles: self.min_angles@,
            max_angles: self.max_angles@,
            mats: self.mats@,
            forward_mats: self.forward_mats@,
            backward_mats: self.backward_mats@,
            loss: self.loss,
            target: self.target->Some_0,
            arm_length: self.arm_length,
            learn_rate: self.learn_rate,
            momentum_retain: self.momentum_retain,
            colliders: self.collision_handler@,
        }
    }

    /// `solver` is a solver fresh from construction for the given chain:
    /// posed, without a target, at zero updates and zero momentum, with a
    /// loss of a hundred, a learning rate of seven tenths that decays by
    /// five millionths per update, and a quarter of the momentum retained.
    pub open spec fn is_fresh(
        solver: Self,
        origin: B::Transform,
        thetas: Seq<B::Scalar>,
        axes: Seq<B::Vector>,
        radii: Seq<B::Scalar>,
        min_angles: Seq<B::Scalar>,
        max_angles: Seq<B::Scalar>,
        colliders: Colliders<B>,
    ) -> bool {
        &&& solver.wf()
        &&& solver.posed()
        &&& solver.origin == origin
        &&& solver.thetas@ == thetas
        &&& solver.axes@ == axes
        &&& solver.radii@ == radii
        &&& solver.min_angles@ == min_angles
        &&& solver.max_angles@ == max_angles
        &&& solver.collision_handler@ == colliders
        &&& is_total::<B>(radii, solver.arm_length)
        &&& is_posture::<B>(
            origin,
            thetas,
            axes,
            radii,
            solver.mats@,
            solver.forward_mats@,
            solver.backward_mats@,
            solver.end_effector,
        )
        &&& solver.target is None
        &&& is_ratio::<B>(100, 1, solver.loss)
        &&& solver.iterations == 0
        &&& is_ratio::<B>(7, 10, solver.learn_rate)
        &&& solver.current_learn_rate == solver.learn_rate
        &&& is_ratio::<B>(5, 1000000, solver.decay)
        &&& is_zeros::<B>(thetas.len(), solver.momentums@)
        &&& is_ratio::<B>(1, 4, solver.momentum_retain)
    }

    /// `after` is `before` posed anew: the posture belongs to the current
    /// angles, the loss to the new end effector and the target. Without a
    /// target the loss stays.
    pub open spec fn is_posed_from(before: Self, after: Self) -> bool {
        &&& after.same_setup(before)
        &&& after.thetas@ == before.thetas@
        &&& after.momentums@ == before.momentums@
        &&& after.target == before.target
        &&& after.iterations == before.iterations
        &&& after.current_learn_rate == before.current_learn_rate
        &&& is_posture::<B>(
            before.origin,
            before.thetas@,
            before.axes@,
            before.radii@,
            after.mats@,
            after.forward_mats@,
            after.backward_mats@,
            after.end_effector,
        )
        &&& match before.target {
            Some(target) => is_pose_loss::<B>(
                after.end_effector,
                target,
                before.arm_length,
                after.loss,
            ),
            None => after.loss == before.loss,
        }
    }

    /// `after` and `result` are what one update makes of `before`.
    ///
    /// Without a target nothing happens. With one, the chain is posed from
    /// the angles of `before`, every joint takes its step against that
    /// posture, and on success the update count grows by one and the decayed
    /// learning rate follows it.
    pub open spec fn is_update(before: Self, after: Self, result: Result<(), ChainError>) -> bool {
        match before.target {
            None => result is Ok && after == before,
            Some(target) => {
                &&& after.same_setup(before)
                &&& after.target == before.target
                &&& is_posture::<B>(
                    before.origin,
                    before.thetas@,
                    before.axes@,
                    before.radii@,
                    after.mats@,
                    after.forward_mats@,
                    after.backward_mats@,
                    after.end_effector,
                )
                &&& is_pose_loss::<B>(after.end_effector, target, before.arm_length, after.loss)
                &&& is_descent::<B>(
                    after.frame(),
                    before.thetas@,
                    before.momentums@,
                    after.thetas@,
                    after.momentums@,
                    result,
                )
                &&& match result {
                    Ok(()) => after.iterations == before.iterations + 1 && is_decayed::<B>(
                        before.learn_rate,
                        before.decay,
                        after.iterations,
                        after.current_learn_rate,
                    ),
                    Err(_) => after.iterations == before.iterations && after.current_learn_rate
                        == before.current_learn_rate,
                }
            },
        }
    }

    /// `start` is `before` made ready for a run toward `target`: the target
    /// set, the update count and the momenta at zero, the loss at a hundred
    /// and the decayed learning rate back at the learning rate.
    pub open spec fn is_start(before: Self, target: Option<B::Transform>, start: Self) -> bool {
        &&& start.same_setup(before)
        &&& start.thetas@ == before.thetas@
        &&& start.mats@ == before.mats@
        &&& start.forward_mats@ == before.forward_mats@
        &&& start.backward_mats@ == before.backward_mats@
        &&& start.end_effector == before.end_effector
        &&& start.target == target
        &&& start.iterations == 0
        &&& is_ratio::<B>(100, 1, start.loss)
        &&& start.current_learn_rate == before.learn_rate
        &&& is_zeros::<B>(before.thetas@.len(), start.momentums@)
    }

    /// `state` is reached from `start` by `steps` successful updates.
    pub open spec fn is_run(start: Self, state: Self, steps: nat) -> bool
        decreases steps,
    {
        if steps == 0 {
            state == start
        } else {
            exists|mid: Self|
                #![trigger Self::is_update(mid, state, Ok(()))]
                Self::is_run(start, mid, (steps - 1) as nat) && Self::is_update(mid, state, Ok(()))
        }
    }

    /// `after` and `result` are what a run toward `target` with the loss
    /// threshold `thresh` makes of `before`.
    ///
    /// The run starts from the reset state and updates while the loss is
    /// above the threshold. It converges as soon as the loss is found not to
    /// be above it, and fails when that has not happened after
    /// [`MAX_STEPS`] updates. An update that fails ends the run with its
    /// error.
    pub open spec fn is_solve(
        before: Self,
        target: B::Transform,
        thresh: B::Scalar,
        after: Self,
        result: Result<SolveOutcome, ChainError>,
    ) -> bool {
        exists|start: Self|
            #![trigger Self::is_start(before, Some(target), start)]
            Self::is_start(before, Some(target), start) && match result {
                Ok(outcome) => {
                    &&& 0 <= after.iterations <= MAX_STEPS
                    &&& Self::is_run(start, after, after.iterations as nat)
                    &&& match outcome {
                        SolveOutcome::Converged => is_below::<B>(thresh, after.loss, false),
                        SolveOutcome::Failed => is_below::<B>(thresh, after.loss, true)
                            && after.iterations == MAX_STEPS,
                    }
                },
                Err(e) => exists|mid: Self|
                    #![trigger Self::is_update(mid, after, Err(e))]
                    0 <= mid.iterations < MAX_STEPS && Self::is_run(
                        start,
                        mid,
                        mid.iterations as nat,
                    ) && is_below::<B>(thresh, mid.loss, true) && Self::is_update(
                        mid,
                        after,
                        Err(e),
                    ),
            }
    }

    /// A solver for the chain with the given origin, angles, axes, link
    /// lengths and angle limits, guarded by `col_handler`.
    ///
    /// Refuses sequences of unequal length, and a collider set with more
    /// links than the chain has joint frames.
    pub fn new(
        origin: B::Transform,
        thetas: &Vec<B::Scalar>,
        axes: &Vec<B::Vector>,
        radii: &Vec<B::Scalar>,
        min_angles: &Vec<B::Scalar>,
        max_angles: &Vec<B::Scalar>,
        col_handler: CollisionHandler<B>,
    ) -> (result: Result<Self, ChainError>)
        ensures
            match result {
                Ok(solver) => Self::is_fresh(
                    solver,
                    origin,
                    thetas@,
                    axes@,
                    radii@,
                    min_angles@,
                    max_angles@,
                    col_handler@,
                ),
                Err(e) => if !(thetas.len() == axes.len() && thetas.len() == radii.len()
                    && thetas.len() == min_angles.len() && thetas.len() == max_angles.len()) {
                    e == (ChainError::BoundsMismatch {
                        angles: thetas.len(),
                        axes: axes.len(),
                        radii: radii.len(),
                        min_angles: min_angles.len(),
                        max_angles: max_angles.len(),
                    })
                } else {
                    col_handler@.links() > thetas.len() + 1 && e == (ChainError::MissingPose {
                        links: col_handler@.links() as usize,
                        poses: (thetas.len() + 1) as usize,
                    })
                },
            },
            result is Ok <==> thetas.len() == axes.len() && thetas.len() == radii.len()
                && thetas.len() == min_angles.len() && thetas.len() == max_angles.len()
                && col_handler@.links() <= thetas.len() + 1,
    {
        if !(thetas.len() == axes.len() && thetas.len() == radii.len() && thetas.len()
            == min_angles.len() && thetas.len() == max_angles.len()) {
            return Err(
                ChainError::BoundsMismatch {
                    angles: thetas.len(),
                    axes: axes.len(),
                    radii: radii.len(),
                    min_angles: min_angles.len(),
                    max_angles: max_angles.len(),
                },
            );
        }
        let links = col_handler.links();
        if links > 0 && links - 1 > thetas.len() {
            return Err(ChainError::MissingPose { links: links, poses: thetas.len() + 1 });
        }
        match pose_chain::<B>(origin, thetas, axes, radii) {
            Err(e) => Err(e),
            Ok(posture) => {
                let learn_rate = B::ratio(7, 10);
                Ok(
                    IKSolverGD {
                        origin: origin,
                        thetas: copy_of(thetas),
                        axes: copy_of(axes),
                        radii: copy_of(radii),
                        min_angles: copy_of(min_angles),
                        max_angles: copy_of(max_angles),
                        arm_length: total::<B>(radii),
                        end_effector: posture.end_effector,
                        target: None,
                        forward_mats: posture.forward_mats,
                        backward_mats: posture.backward_mats,
                        mats: posture.mats,
                        loss: B::ratio(100, 1),
                        iterations: 0,
                        learn_rate: learn_rate,
                        current_learn_rate: learn_rate,
                        decay: B::ratio(5, 1000000),
                        momentums: zeros::<B>(thetas.len()),
                        momentum_retain: B::ratio(1, 4),
                        collision_handler: col_handler,
                    },
                )
            },
        }
    }

    /// Poses the chain for the current angles and, where a target is set,
    /// measures the loss of the new end effector against it.
    pub fn update_matrices(&mut self)
        requires
            old(self).wf(),
        ensures
            final(self).wf(),
            final(self).posed(),
            Self::is_posed_from(*old(self), *final(self)),
    {
        match pose_chain::<B>(self.origin, &self.thetas, &self.axes, &self.radii) {
            Err(_) => {},
            Ok(posture) => {
                self.mats = posture.mats;
                self.forward_mats = posture.forward_mats;
                self.backward_mats = posture.backward_mats;
                self.end_effector = posture.end_effector;
                match self.target {
                    Some(target) => {
                        self.loss = pose_loss::<B>(&self.end_effector, &target, self.arm_length);
                    },
                    None => {},
                }
            },
        }
    }

    /// The clamped estimate of how the loss changes with the angle of joint
    /// `i`.
    fn slope(&self, i: usize, target: &B::Transform) -> (slope: B::Scalar)
        requires
            self.wf(),
            self.posed(),
            self.target == Some(*target),
            i < self.joints(),
        ensures
            is_slope::<B>(self.frame(), i as int, self.thetas[i as int], slope),
    {
        let step = B::ratio(1, 100000);
        let raised = B::plus(self.thetas[i], step);
        let moved = probe::<B>(
            &self.axes,
            &self.radii,
            &self.forward_mats,
            &self.backward_mats,
            i,
            raised,
        );
        let moved_loss = pose_loss::<B>(&moved, target, self.arm_length);
        let rise = B::minus(moved_loss, self.loss);
        let raw = B::over(rise, step);
        let low = B::ratio(-1, 2);
        let high = B::ratio(1, 2);
        let slope = clamp::<B>(raw, low, high);
        assert(is_sum::<B>(self.thetas[i as int], step, raised) && is_pose_loss::<B>(
            moved,
            self.frame().target,
            self.frame().arm_length,
            moved_loss,
        ) && is_quotient::<B>(rise, step, raw) && is_clamped::<B>(raw, low, high, slope));
        slope
    }

    /// Whether the arm collides once joint `i` alone is set to `angle`.
    fn blocked(&self, i: usize, angle: B::Scalar) -> (outcome: Result<bool, ChainError>)
        requires
            self.wf(),
            self.posed(),
            i < self.joints(),
        ensures
            is_blocked::<B>(self.frame(), i as int, angle, outcome),
    {
        let joint = joint_matrix::<B>(angle, &self.axes[i], self.radii[i]);
        let mut mats = copy_of(&self.mats);
        assert(i + 1 < mats.len());
        mats.set(i + 1, joint);
        let trial = generate_forward_matrices::<B>(&mats);
        let own = self.collision_handler.is_arm_colliding_self(i, &trial);
        assert(is_forward_products::<B>(self.frame().mats.update(i + 1, joint), trial@)
            && is_self_query::<B>(self.frame().colliders, i as int, trial@, own));
        match own {
            Ok(false) => self.collision_handler.is_arm_colliding_world(i, &trial),
            _ => own,
        }
    }

    /// One step on joint `i`: its new angle and momentum.
    fn joint_step(&self, i: usize, target: &B::Transform) -> (outcome: Result<
        (B::Scalar, B::Scalar),
        ChainError,
    >)
        requires
            self.wf(),
            self.posed(),
            self.target == Some(*target),
            i < self.joints(),
        ensures
            is_joint_step::<B>(
                self.frame(),
                i as int,
                self.thetas[i as int],
                self.momentums[i as int],
                outcome,
            ),
    {
        let theta = self.thetas[i];
        let momentum = self.momentums[i];
        let slope = self.slope(i, target);
        let nudge = nudge_of::<B>(momentum, self.momentum_retain, slope, self.learn_rate);
        assert(is_nudge::<B>(
            momentum,
            self.frame().momentum_retain,
            slope,
            self.frame().learn_rate,
            nudge,
        ));
        let proposed = B::minus(theta, nudge);
        let inside = strictly_between::<B>(proposed, self.min_angles[i], self.max_angles[i]);
        assert(is_strictly_between::<B>(
            proposed,
            self.frame().min_angles[i as int],
            self.frame().max_angles[i as int],
            inside,
        ));
        if !inside {
            return Ok((theta, momentum));
        }
        let blocked = self.blocked(i, proposed);
        match blocked {
            Err(e) => Err(e),
            Ok(false) => Ok((proposed, nudge)),
            Ok(true) => {
                let back = B::plus(theta, nudge);
                let reversed = B::negated(nudge);
                assert(is_sum::<B>(theta, nudge, back) && is_negation::<B>(nudge, reversed));
                Ok((back, reversed))
            },
        }
    }

    /// Visits every joint once, in order, and lets it take its step.
    fn update_thetas(&mut self) -> (result: Result<(), ChainError>)
        requires
            old(self).wf(),
            old(self).posed(),
            old(self).target is Some,
        ensures
            final(self).wf(),
            final(self).posed(),
            final(self).same_setup(*old(self)),
            final(self).same_posture(*old(self)),
            final(self).target == old(self).target,
            final(self).iterations == old(self).iterations,
            final(self).current_learn_rate == old(self).current_learn_rate,
            is_descent::<B>(
                old(self).frame(),
                old(self).thetas@,
                old(self).momentums@,
                final(self).thetas@,
                final(self).momentums@,
                result,
            ),
    {
        let target = match self.target {
            Some(target) => target,
            None => {
                return Ok(());
            },
        };
        let ghost frame = self.frame();
        let n = self.thetas.len();
        let mut i: usize = 0;
        while i < n
            invariant
                self.wf(),
                self.posed(),
                self.same_setup(*old(self)),
                self.same_posture(*old(self)),
                self.target == old(self).target,
                self.target == Some(target),
                self.iterations == old(self).iterations,
                self.current_learn_rate == old(self).current_learn_rate,
                frame == old(self).frame(),
                n == old(self).thetas@.len(),
                n == old(self).momentums@.len(),
                self.thetas@.len() == n,
                self.momentums@.len() == n,
                i <= n,
                forall|k: int|
                    #![trigger self.thetas@[k]]
                    0 <= k < i ==> is_joint_step::<B>(
                        frame,
                        k,
                        old(self).thetas@[k],
                        old(self).momentums@[k],
                        Ok((self.thetas@[k], self.momentums@[k])),
                    ),
                forall|k: int| i <= k < n ==> #[trigger] self.thetas@[k] == old(self).thetas@[k],
                forall|k: int|
                    i <= k < n ==> #[trigger] self.momentums@[k] == old(self).momentums@[k],
            decreases n - i,
        {
            match self.joint_step(i, &target) {
                Err(e) => {
                    return Err(e);
                },
                Ok((theta, momentum)) => {
                    self.thetas.set(i, theta);
                    self.momentums.set(i, momentum);
                },
            }
            i += 1;
        }
        Ok(())
    }

    /// Counts one more update and decays the learning rate accordingly.
    fn update_params(&mut self)
        requires
            old(self).wf(),
            old(self).iterations < i32::MAX,
        ensures
            final(self).wf(),
            final(self).same_setup(*old(self)),
            final(self).same_posture(*old(self)),
            final(self).target == old(self).target,
            final(self).thetas@ == old(self).thetas@,
            final(self).momentums@ == old(self).momentums@,
            final(self).iterations == old(self).iterations + 1,
            is_decayed::<B>(
                old(self).learn_rate,
                old(self).decay,
                final(self).iterations,
                final(self).current_learn_rate,
            ),
    {
        self.iterations += 1;
        self.current_learn_rate = decayed::<B>(self.learn_rate, self.decay, self.iterations);
    }

    /// One update: pose the chain, step every joint, count the update.
    /// Does nothing where no target is set.
    pub fn update(&mut self) -> (result: Result<(), ChainError>)
        requires
            old(self).wf(),
            old(self).iterations < i32::MAX,
        ensures
            final(self).wf(),
            final(self).same_setup(*old(self)),
            final(self).target == old(self).target,
            Self::is_update(*old(self), *final(self), result),
    {
        if self.target.is_none() {
            return Ok(());
        }
        self.update_matrices();
        match self.update_thetas() {
            Err(e) => Err(e),
            Ok(()) => {
                self.update_params();
                Ok(())
            },
        }
    }

    /// Makes the solver ready for a new run: no updates counted, no
    /// momentum, the loss at a hundred.
    pub fn reset_params(&mut self)
        requires
            old(self).wf(),
        ensures
            final(self).wf(),
            Self::is_start(*old(self), old(self).target, *final(self)),
    {
        self.iterations = 0;
        self.loss = B::ratio(100, 1);
        self.current_learn_rate = self.learn_rate;
        self.momentums = zeros::<B>(self.thetas.len());
    }

    /// Runs toward `target` until the loss is no longer above `thresh` or
    /// [`MAX_STEPS`] updates have been made. The angles found are in
    /// `thetas` either way.
    pub fn solve(&mut self, target: B::Transform, thresh: B::Scalar) -> (result: Result<
        SolveOutcome,
        ChainError,
    >)
        requires
            old(self).wf(),
        ensures
            final(self).wf(),
            final(self).same_setup(*old(self)),
            final(self).target == Some(target),
            0 <= final(self).iterations <= MAX_STEPS,
            Self::is_solve(*old(self), target, thresh, *final(self), result),
    {
        self.target = Some(target);
        self.reset_params();
        let ghost start = *self;
        loop
            invariant
                self.wf(),
                self.same_setup(*old(self)),
                self.target == Some(target),
                0 <= self.iterations <= MAX_STEPS,
                Self::is_start(*old(self), Some(target), start),
                Self::is_run(start, *self, self.iterations as nat),
            decreases MAX_STEPS - self.iterations,
        {
            let above = B::below(thresh, self.loss);
            if !above {
                return Ok(SolveOutcome::Converged);
            }
            if self.iterations < MAX_STEPS {
                let ghost mid = *self;
                match self.update() {
                    Err(e) => {
                        return Err(e);
                    },
                    Ok(()) => {
                        assert(Self::is_update(mid, *self, Ok(())));
                    },
                }
            } else {
                return Ok(SolveOutcome::Failed);
            }
        }
    }
}

} // verus!
