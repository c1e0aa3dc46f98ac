//! The plain gradient-descent solver: positions only, no angle limits, no
//! collision checks.
use vstd::prelude::*;
use crate::backend::{Backend, is_below, is_difference, is_quotient, is_ratio, is_sum};
use crate::chain::{
    SolveOutcome, clamp, decayed, is_clamped, is_decayed, is_nudge, is_posture, is_probe,
    is_total, is_zeros, nudge_of, pose_chain, probe, total, zeros,
};
use crate::error::ChainError;
use crate::matrices::{copy_of, distance_loss, is_distance_loss};

verus! {

/// The number of updates after which a run gives up.
pub const MAX_STEPS: i32 = 250;

/// What a step on one joint reads: the chain's geometry, its current
/// posture and loss, the target and the step parameters.
pub struct StepFrame<B: Backend> {
    /// The rotation axis of each joint.
    pub axes: Seq<B::Vector>,
    /// The link length of each joint.
    pub radii: Seq<B::Scalar>,
    /// The forward partial products of the posture.
    pub forward_mats: Seq<B::Transform>,
    /// The backward partial products of the posture.
    pub backward_mats: Seq<B::Transform>,
    /// The loss of the posture.
    pub loss: B::Scalar,
    /// The pose to reach.
    pub target: B::Transform,
    /// The sum of the link lengths.
    pub arm_length: B::Scalar,
    /// The learning rate of a step.
    pub learn_rate: B::Scalar,
    /// The share of a joint's momentum that enters its next nudge.
    pub momentum_retain: B::Scalar,
}

/// `slope` estimates how the positional loss changes with the angle of
/// joint `i`: the loss with the angle raised by a hundred-thousandth, minus
/// the current loss, divided by that step, and held between minus one half
/// and one half.
pub open spec fn is_slope<B: Backend>(
    f: StepFrame<B>,
    i: int,
    theta: B::Scalar,
    slope: B::Scalar,
) -> bool {
    exists|
        step: B::Scalar,
        raised: B::Scalar,
        moved: B::Transform,
        moved_loss: B::Scalar,
        rise: B::Scalar,
        raw: B::Scalar,
        low: B::Scalar,
        high: B::Scalar,
    |
        #![trigger is_sum::<B>(theta, step, raised), is_distance_loss::<B>(moved, f.target, f.arm_length, moved_loss), is_quotient::<B>(rise, step, raw), is_clamped::<B>(raw, low, high, slope)]
        is_ratio::<B>(1, 100000, step) && is_sum::<B>(theta, step, raised) && is_probe::<B>(
            f.axes,
            f.radii,
            f.forward_mats,
            f.backward_mats,
            i,
            raised,
            moved,
        ) && is_distance_loss::<B>(moved, f.target, f.arm_length, moved_loss) && is_difference::<B>(
            moved_loss,
            f.loss,
            rise,
        ) && is_quotient::<B>(rise, step, raw) && is_ratio::<B>(-1i32, 2, low) && is_ratio::<B>(
            1,
            2,
            high,
        ) && is_clamped::<B>(raw, low, high, slope)
}

/// One step on joint `i`, which has the angle `theta` and the momentum
/// `momentum`: the joint moves to `theta - nudge` and the nudge becomes its
/// momentum.
pub open spec fn is_joint_step<B: Backend>(
    f: StepFrame<B>,
    i: int,
    theta: B::Scalar,
    momentum: B::Scalar,
    new_theta: B::Scalar,
    new_momentum: B::Scalar,
) -> bool {
    exists|slope: B::Scalar|
        #![trigger is_nudge::<B>(momentum, f.momentum_retain, slope, f.learn_rate, new_momentum)]
        is_slope::<B>(f, i, theta, slope) && is_nudge::<B>(
            momentum,
            f.momentum_retain,
            slope,
            f.learn_rate,
            new_momentum,
        ) && is_difference::<B>(theta, new_momentum, new_theta)
}

/// The plain gradient-descent solver.
pub struct Solver<B: Backend> {
    /// The rotation axis of each joint.
    pub axes: Vec<B::Vector>,
    /// The link length of each joint.
    pub radii: Vec<B::Scalar>,
    /// The current angle of each joint.
    pub thetas: Vec<B::Scalar>,
    /// The pose of the chain's base.
    pub origin: B::Transform,
    /// The sum of the link lengths.
    pub arm_length: B::Scalar,
    /// The pose of the end effector in the current posture.
    pub end_effector: B::Transform,
    /// The pose to reach, if one was set.
    pub target: Option<B::Transform>,
    /// The origin followed by one transform per joint.
    pub mats: Vec<B::Transform>,
    /// The forward partial products of `mats`.
    pub forward_mats: Vec<B::Transform>,
    /// The backward partial products of `mats`.
    pub backward_mats: Vec<B::Transform>,
    /// The loss of the current posture.
    pub loss: B::Scalar,
    /// The number of updates since the last reset.
    pub iterations: i32,
    /// The learning rate of a step.
    pub learn_rate: B::Scalar,
    /// The learning rate decayed by the number of updates so far.
    pub current_learn_rate: B::Scalar,
    /// How fast the learning rate decays.
    pub decay: B::Scalar,
    /// The last nudge of each joint.
    pub momentums: Vec<B::Scalar>,
    /// The share of a joint's momentum that enters its next nudge.
    pub momentum_retain: B::Scalar,
}

impl<B: Backend> Solver<B> {
    /// The number of joints.
    pub open spec fn joints(self) -> nat {
        self.thetas@.len()
    }

    /// Every per-joint sequence has one entry per joint and the update count
    /// is not negative.
    pub open spec fn wf(self) -> bool {
        &&& self.axes@.len() == self.joints()
        &&& self.radii@.len() == self.joints()
        &&& self.momentums@.len() == self.joints()
        &&& 0 <= self.iterations
    }

    /// The posture has the lengths that belong to the number of joints.
    pub open spec fn posed(self) -> bool {
        &&& self.mats@.len() == self.joints() + 1
        &&& self.forward_mats@.len() == self.joints() + 1
        &&& self.backward_mats@.len() == self.joints() + 2
    }

    /// `other` has the same geometry and step parameters.
    pub open spec fn same_setup(self, other: Self) -> bool {
        &&& self.axes@ == other.axes@
        &&& self.radii@ == other.radii@
        &&& self.origin == other.origin
        &&& self.arm_length == other.arm_length
        &&& self.learn_rate == other.learn_rate
        &&& self.decay == other.decay
        &&& self.momentum_retain == other.momentum_retain
    }

    /// `other` has the same posture and loss.
    pub open spec fn same_posture(self, other: Self) -> bool {
        &&& self.mats@ == other.mats@
        &&& self.forward_mats@ == other.forward_mats@
        &&& self.backward_mats@ == other.backward_mats@
        &&& self.end_effector == other.end_effector
        &&& self.loss == other.loss
    }

    /// What a step on one joint reads. Meaningful where a target is set.
    pub open spec fn frame(self) -> StepFrame<B> {
        StepFrame {
            axes: self.axes@,
            radii: self.radii@,
            forward_mats: self.forward_mats@,
            backward_mats: self.backward_mats@,
            loss: self.loss,
            target: self.target->Some_0,
            arm_length: self.arm_length,
            learn_rate: self.learn_rate,
            momentum_retain: self.momentum_retain,
        }
    }

    /// `solver` is a solver fresh from construction for the given chain:
    /// posed, without a target, at zero updates and zero momentum, with a
    /// loss of a hundred, a learning rate of seven tenths that decays by
    /// five millionths per update, and a quarter of the momentum retained.
    pub open spec fn is_fresh(
        solver: Self,
        origin: B::Transform,
        thetas: Seq<B::Scalar>,
        axes: Seq<B::Vector>,
        radii: Seq<B::Scalar>,
    ) -> bool {
        &&& solver.wf()
        &&& solver.posed()
        &&& solver.origin == origin
        &&& solver.thetas@ == thetas
        &&& solver.axes@ == axes
        &&& solver.radii@ == radii
        &&& is_total::<B>(radii, solver.arm_length)
        &&& is_posture::<B>(
            origin,
            thetas,
            axes,
            radii,
            solver.mats@,
            solver.forward_mats@,
            solver.backward_mats@,
            solver.end_effector,
        )
        &&& solver.target is None
        &&& is_ratio::<B>(100, 1, solver.loss)
        &&& solver.iterations == 0
        &&& is_ratio::<B>(7, 10, solver.learn_rate)
        &&& solver.current_learn_rate == solver.learn_rate
        &&& is_ratio::<B>(5, 1000000, solver.decay)
        &&& is_zeros::<B>(thetas.len(), solver.momentums@)
        &&& is_ratio::<B>(1, 4, solver.momentum_retain)
    }

    /// `after` is `before` posed anew: the posture belongs to the current
    /// angles, the loss to the new end effector and the target. Without a
    /// target the loss stays.
    pub open spec fn is_posed_from(before: Self, after: Self) -> bool {
        &&& after.same_setup(before)
        &&& after.thetas@ == before.thetas@
        &&& after.momentums@ == before.momentums@
        &&& after.target == before.target
        &&& after.iterations == before.iterations
        &&& after.current_learn_rate == before.current_learn_rate
        &&& is_posture::<B>(
            before.origin,
            before.thetas@,
            before.axes@,
            before.radii@,
            after.mats@,
            after.forward_mats@,
            after.backward_mats@,
            after.end_effector,
        )
        &&& match before.target {
            Some(target) => is_distance_loss::<B>(
                after.end_effector,
                target,
                before.arm_length,
                after.loss,
            ),
            None => after.loss == before.loss,
        }
    }

    /// `after` is `before` with every joint stepped once against the posture
    /// of `before`.
    pub open spec fn is_stepped_from(before: Self, after: Self) -> bool {
        &&& after.same_setup(before)
        &&& after.same_posture(before)
        &&& after.target == before.target
        &&& after.iterations == before.iterations
        &&& after.current_learn_rate == before.current_learn_rate
        &&& after.thetas@.len() == before.thetas@.len()
        &&& after.momentums@.len() == before.momentums@.len()
        &&& forall|i: int|
            #![trigger after.thetas@[i]]
            0 <= i < before.thetas@.len() ==> is_joint_step::<B>(
                before.frame(),
                i,
                before.thetas@[i],
                before.momentums@[i],
                after.thetas@[i],
                after.momentums@[i],
            )
    }

    /// `after` is what one update makes of `before`.
    ///
    /// Without a target nothing happens. With one, the chain is posed from
    /// the angles of `before`, every joint takes its step against that
    /// posture, the update count grows by one and the decayed learning rate
    /// follows it.
    pub open spec fn is_update(before: Self, after: Self) -> bool {
        match before.target {
            None => after == before,
            Some(target) => {
                &&& after.same_setup(before)
                &&& after.target == before.target
                &&& is_posture::<B>(
                    before.origin,
                    before.thetas@,
                    before.axes@,
                    before.radii@,
                    after.mats@,
                    after.forward_mats@,
                    after.backward_mats@,
                    after.end_effector,
                )
                &&& is_distance_loss::<B>(after.end_effector, target, before.arm_length, after.loss)
                &&& after.thetas@.len() == before.thetas@.len()
                &&& after.momentums@.len() == before.momentums@.len()
                &&& forall|i: int|
                    #![trigger after.thetas@[i]]
                    0 <= i < before.thetas@.len() ==> is_joint_step::<B>(
                        after.frame(),
                        i,
                        before.thetas@[i],
                        before.momentums@[i],
                        after.thetas@[i],
                        after.momentums@[i],
                    )
                &&& after.iterations == before.iterations + 1
                &&& is_decayed::<B>(
                    before.learn_rate,
                    before.decay,
                    after.iterations,
                    after.current_learn_rate,
                )
            },
        }
    }

    /// `start` is `before` made ready for a run toward `target`: the target
    /// set, the update count and the momenta at zero, the loss at a hundred
    /// and the decayed learning rate back at the learning rate.
    pub open spec fn is_start(before: Self, target: Option<B::Transform>, start: Self) -> bool {
        &&& start.same_setup(before)
        &&& start.thetas@ == before.thetas@
        &&& start.mats@ == before.mats@
        &&& start.forward_mats@ == before.forward_mats@
        &&& start.backward_mats@ == before.backward_mats@
        &&& start.end_effector == before.end_effector
        &&& start.target == target
        &&& start.iterations == 0
        &&& is_ratio::<B>(100, 1, start.loss)
        &&& start.current_learn_rate == before.learn_rate
        &&& is_zeros::<B>(before.thetas@.len(), start.momentums@)
    }

    /// `state` is reached from `start` by `steps` updates.
    pub open spec fn is_run(start: Self, state: Self, steps: nat) -> bool
        decreases steps,
    {
        if steps == 0 {
            state == start
        } else {
            exists|mid: Self|
                #![trigger Self::is_update(mid, state)]
                Self::is_run(start, mid, (steps - 1) as nat) && Self::is_update(mid, state)
        }
    }

    /// `after` and `outcome` are what a run toward `target` with the loss
    /// threshold `thresh` makes of `before`.
    ///
    /// The run starts from the reset state and updates while the loss is
    /// above the threshold. It converges as soon as the loss is found not to
    /// be above it, and fails when that has not happened after
    /// [`MAX_STEPS`] updates.
    pub open spec fn is_solve(
        before: Self,
        target: B::Transform,
        thresh: B::Scalar,
        after: Self,
        outcome: SolveOutcome,
    ) -> bool {
        exists|start: Self|
            #![trigger Self::is_start(before, Some(target), start)]
            {
                &&& Self::is_start(before, Some(target), start)
                &&& 0 <= after.iterations <= MAX_STEPS
                &&& Self::is_run(start, after, after.iterations as nat)
                &&& match outcome {
                    SolveOutcome::Converged => is_below::<B>(thresh, after.loss, false),
                    SolveOutcome::Failed => is_below::<B>(thresh, after.loss, true)
                        && after.iterations == MAX_STEPS,
                }
            }
    }

    /// A solver for the chain with the given origin, angles, axes and link
    /// lengths. Refuses sequences of unequal length.
    pub fn new(
        origin: B::Transform,
        thetas: &Vec<B::Scalar>,
        axes: &Vec<B::Vector>,
        radii: &Vec<B::Scalar>,
    ) -> (result: Result<Self, ChainError>)
        ensures
            match result {
                Ok(solver) => Self::is_fresh(solver, origin, thetas@, axes@, radii@),
                Err(e) => e == (ChainError::LengthMismatch {
                    angles: thetas.len(),
                    axes: axes.len(),
                    radii: radii.len(),
                }),
            },
            result is Ok <==> thetas.len() == axes.len() && thetas.len() == radii.len(),
    {
        match pose_chain::<B>(origin, thetas, axes, radii) {
            Err(e) => Err(e),
            Ok(posture) => {
                let learn_rate = B::ratio(7, 10);
                Ok(
                    Solver {
                        origin: origin,
                        thetas: copy_of(thetas),
                        axes: copy_of(axes),
                        radii: copy_of(radii),
                        arm_length: total::<B>(radii),
                        end_effector: posture.end_effector,
                        target: None,
                        forward_mats: posture.forward_mats,
                        backward_mats: posture.backward_mats,
                        mats: posture.mats,
                        loss: B::ratio(100, 1),
                        iterations: 0,
                        learn_rate: learn_rate,
                        current_learn_rate: learn_rate,
                        decay: B::ratio(5, 1000000),
                        momentums: zeros::<B>(thetas.len()),
                        momentum_retain: B::ratio(1, 4),
                    },
                )
            },
        }
    }

    /// Poses the chain for the current angles and, where a target is set,
    /// measures the loss of the new end effector against it.
    pub fn update_matrices(&mut self)
        requires
            old(self).wf(),
        ensures
            final(self).wf(),
            final(self).posed(),
            Self::is_posed_from(*old(self), *final(self)),
    {
        match pose_chain::<B>(self.origin, &self.thetas, &self.axes, &self.radii) {
            Err(_) => {},
            Ok(posture) => {
                self.mats = posture.mats;
                self.forward_mats = posture.forward_mats;
                self.backward_mats = posture.backward_mats;
                self.end_effector = posture.end_effector;
                match self.target {
                    Some(target) => {
                        self.loss = distance_loss::<B>(
                            &self.end_effector,
                            &target,
                            self.arm_length,
                        );
                    },
                    None => {},
                }
            },
        }
    }

    /// The clamped estimate of how the loss changes with the angle of joint
    /// `i`.
    fn slope(&self, i: usize, target: &B::Transform) -> (slope: B::Scalar)
        requires
            self.wf(),
            self.posed(),
            self.target == Some(*target),
            i < self.joints(),
        ensures
            is_slope::<B>(self.frame(), i as int, self.thetas[i as int], slope),
    {
        let step = B::ratio(1, 100000);
        let raised = B::plus(self.thetas[i], step);
        let moved = probe::<B>(
            &self.axes,
            &self.radii,
            &self.forward_mats,
            &self.backward_mats,
            i,
            raised,
        );
        let moved_loss = distance_loss::<B>(&moved, target, self.arm_length);
        let rise = B::minus(moved_loss, self.loss);
        let raw = B::over(rise, step);
        let low = B::ratio(-1, 2);
        let high = B::ratio(1, 2);
        let slope = clamp::<B>(raw, low, high);
        assert(is_sum::<B>(self.thetas[i as int], step, raised) && is_distance_loss::<B>(
            moved,
            self.frame().target,
            self.frame().arm_length,
            moved_loss,
        ) && is_quotient::<B>(rise, step, raw) && is_clamped::<B>(raw, low, high, slope));
        slope
    }

    /// Visits every joint once, in order, and lets it take its step. Does
    /// nothing where no target is set.
    pub fn update_thetas(&mut self)
        requires
            old(self).wf(),
            old(self).posed(),
        ensures
            final(self).wf(),
            final(self).posed(),
            match old(self).target {
                Some(_) => Self::is_stepped_from(*old(self), *final(self)),
                None => *final(self) == *old(self),
            },
    {
        let target = match self.target {
            Some(target) => target,
            None => {
                return ;
            },
        };
        let ghost frame = self.frame();
        let n = self.thetas.len();
        let mut i: usize = 0;
        while i < n
            invariant
                self.wf(),
                self.posed(),
                self.same_setup(*old(self)),
                self.same_posture(*old(self)),
                self.target == old(self).target,
                self.target == Some(target),
                self.iterations == old(self).iterations,
                self.current_learn_rate == old(self).current_learn_rate,
                frame == old(self).frame(),
                n == old(self).thetas@.len(),
                n == old(self).momentums@.len(),
                self.thetas@.len() == n,
                self.momentums@.len() == n,
                i <= n,
                forall|k: int|
                    #![trigger self.thetas@[k]]
                    0 <= k < i ==> is_joint_step::<B>(
                        frame,
                        k,
                        old(self).thetas@[k],
                        old(self).momentums@[k],
                        self.thetas@[k],
                        self.momentums@[k],
                    ),
                forall|k: int| i <= k < n ==> #[trigger] self.thetas@[k] == old(self).thetas@[k],
                forall|k: int|
                    i <= k < n ==> #[trigger] self.momentums@[k] == old(self).momentums@[k],
            decreases n - i,
        {
            let theta = self.thetas[i];
            let momentum = self.momentums[i];
            let slope = self.slope(i, &target);
            let nudge = nudge_of::<B>(momentum, self.momentum_retain, slope, self.learn_rate);
            assert(is_nudge::<B>(momentum, frame.momentum_retain, slope, frame.learn_rate, nudge));
            let moved = B::minus(theta, nudge);
            self.thetas.set(i, moved);
            self.momentums.set(i, nudge);
            i += 1;
        }
    }

    /// Counts one more update and decays the learning rate accordingly.
    fn update_params(&mut self)
        requires
            old(self).wf(),
            old(self).iterations < i32::MAX,
        ensures
            final(self).wf(),
            final(self).same_setup(*old(self)),
            final(self).same_posture(*old(self)),
            final(self).target == old(self).target,
            final(self).thetas@ == old(self).thetas@,
            final(self).momentums@ == old(self).momentums@,
            final(self).iterations == old(self).iterations + 1,
            is_decayed::<B>(
                old(self).learn_rate,
                old(self).decay,
                final(self).iterations,
                final(self).current_learn_rate,
            ),
    {
        self.iterations += 1;
        self.current_learn_rate = decayed::<B>(self.learn_rate, self.decay, self.iterations);
    }

    /// One update: pose the chain, step every joint, count the update.
    /// Does nothing where no target is set.
    pub fn update(&mut self)
        requires
            old(self).wf(),
            old(self).iterations < i32::MAX,
        ensures
            final(self).wf(),
            final(self).same_setup(*old(self)),
            final(self).target == old(self).target,
            Self::is_update(*old(self), *final(self)),
    {
        if self.target.is_none() {
            return ;
        }
        self.update_matrices();
        self.update_thetas();
        self.update_params();
    }

    /// Makes the solver ready for a new run: no updates counted, no
    /// momentum, the loss at a hundred.
    pub fn reset_params(&mut self)
        requires
            old(self).wf(),
        ensures
            final(self).wf(),
            Self::is_start(*old(self), old(self).target, *final(self)),
    {
        self.iterations = 0;
        self.loss = B::ratio(100, 1);
        self.current_learn_rate = self.learn_rate;
        self.momentums = zeros::<B>(self.thetas.len());
    }

    /// Runs toward `target` until the loss is no longer above `thresh` or
    /// [`MAX_STEPS`] updates have been made. The angles found are in
    /// `thetas` either way.
    pub fn solve(&mut self, target: B::Transform, thresh: B::Scalar) -> (outcome: SolveOutcome)
        requires
            old(self).wf(),
        ensures
            final(self).wf(),
            final(self).same_setup(*old(self)),
            final(self).target == Some(target),
            0 <= final(self).iterations <= MAX_STEPS,
            Self::is_solve(*old(self), target, thresh, *final(self), outcome),
    {
        self.target = Some(target);
        self.reset_params();
        let ghost start = *self;
        loop
            invariant
                self.wf(),
                self.same_setup(*old(self)),
                self.target == Some(target),
                0 <= self.iterations <= MAX_STEPS,
                Self::is_start(*old(self), Some(target), start),
                Self::is_run(start, *self, self.iterations as nat),
            decreases MAX_STEPS - self.iterations,
        {
            let above = B::below(thresh, self.loss);
            if !above {
                return SolveOutcome::Converged;
            }
            if self.iterations < MAX_STEPS {
                self.update();
            } else {
                return SolveOutcome::Failed;
            }
        }
    }
}

} // verus!
