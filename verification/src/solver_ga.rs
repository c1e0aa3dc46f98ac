//! The genetic-algorithm solver.
//!
//! A population of candidate angle vectors is bred generation by generation.
//! A candidate's fitness is the reciprocal of its loss against the target;
//! a candidate whose arm collides gets a small fixed fitness instead. After
//! every generation the solver adopts the best candidate seen so far.
use vstd::prelude::*;
use crate::backend::{Backend, is_below, is_largest, is_quotient, is_ratio};
use crate::chain::{
    SolveOutcome, is_pose_loss, is_posture, is_total, pose_chain, pose_loss, total,
};
use crate::collision_handler::{
    Colliders, CollisionHandler, is_self_query_naive, is_world_query,
};
use crate::error::ChainError;
use crate::genetics::{Fitness, Population};
use crate::matrices::{
    copy_of, generate_forward_matrices, generate_matrices, is_chain, is_forward_products,
};

verus! {

/// The number of updates after which a run gives up.
pub const MAX_STEPS: i32 = 5;

/// The number of candidates in the population of a run.
pub const POPULATION_SIZE: i32 = 100;

/// `verdict` tells whether the arm with the joint frames `forward` collides:
/// with itself, or else with an obstacle. Obstacles are consulted only where
/// the arm is clear of itself.
pub open spec fn is_collision_verdict<B: Backend>(
    c: Colliders<B>,
    forward: Seq<B::Transform>,
    verdict: Result<bool, ChainError>,
) -> bool {
    exists|own: Result<bool, ChainError>|
        #![trigger is_self_query_naive::<B>(c, forward, own)]
        is_self_query_naive::<B>(c, forward, own) && match own {
            Ok(false) => is_world_query::<B>(c, 0, forward, verdict),
            _ => verdict == own,
        }
}

/// Whether the arm with the joint frames `forward` collides with itself or
/// with an obstacle.
pub fn collision_verdict<B: Backend>(handler: &CollisionHandler<B>, forward: &Vec<B::Transform>) -> (verdict:
    Result<bool, ChainError>)
    ensures
        is_collision_verdict::<B>(handler@, forward@, verdict),
{
    let own = handler.is_arm_colliding_self_naive(forward);
    match own {
        Ok(false) => handler.is_arm_colliding_world_naive(forward),
        _ => own,
    }
}

/// `r` is the fitness that belongs to the loss `loss`: its reciprocal, and
/// the largest number there is where the loss is not found to be above zero.
pub open spec fn is_reciprocal<B: Backend>(loss: B::Scalar, r: B::Scalar) -> bool {
    exists|zero: B::Scalar, positive: bool|
        #![trigger is_below::<B>(zero, loss, positive)]
        is_ratio::<B>(0, 1, zero) && is_below::<B>(zero, loss, positive) && if positive {
            exists|one: B::Scalar|
                #![trigger is_quotient::<B>(one, loss, r)]
                is_ratio::<B>(1, 1, one) && is_quotient::<B>(one, loss, r)
        } else {
            is_largest::<B>(r)
        }
}

/// The fitness that belongs to the loss `loss`.
pub fn reciprocal<B: Backend>(loss: B::Scalar) -> (r: B::Scalar)
    ensures
        is_reciprocal::<B>(loss, r),
{
    let zero = B::ratio(0, 1);
    let positive = B::below(zero, loss);
    assert(is_below::<B>(zero, loss, positive));
    if positive {
        let one = B::ratio(1, 1);
        let r = B::over(one, loss);
        assert(is_quotient::<B>(one, loss, r));
        r
    } else {
        B::largest()
    }
}

/// `result` is the loss of a posture against `target`: a penalty of a
/// thousand where the arm collides, the loss of the end effector where it
/// does not, and the error of a collision query that failed.
pub open spec fn is_guarded_loss<B: Backend>(
    c: Colliders<B>,
    forward: Seq<B::Transform>,
    end_effector: B::Transform,
    target: B::Transform,
    arm_length: B::Scalar,
    result: Result<B::Scalar, ChainError>,
) -> bool {
    exists|verdict: Result<bool, ChainError>|
        #![trigger is_collision_verdict::<B>(c, forward, verdict)]
        is_collision_verdict::<B>(c, forward, verdict) && match verdict {
            Err(e) => result == Err::<B::Scalar, ChainError>(e),
            Ok(true) => result is Ok && is_ratio::<B>(1000, 1, result->Ok_0),
            Ok(false) => result is Ok && is_pose_loss::<B>(
                end_effector,
                target,
                arm_length,
                result->Ok_0,
            ),
        }
}

/// Everything the fitness of a candidate depends on besides the candidate:
/// the chain's geometry, the target and the colliders.
pub struct ChainFitness<B: Backend> {
    /// The pose of the chain's base.
    pub origin: B::Transform,
    /// The rotation axis of each joint.
    pub axes: Vec<B::Vector>,
    /// The link length of each joint.
    pub radii: Vec<B::Scalar>,
    /// The pose to reach.
    pub target: B::Transform,
    /// The sum of the link lengths.
    pub arm_length: B::Scalar,
    /// The colliders of the arm and its surroundings.
    pub collision_handler: CollisionHandler<B>,
}

/// `result` is the fitness of the candidate `thetas`: the chain is posed
/// with these angles; a colliding arm scores a thousandth, any other the
/// reciprocal of the end effector's loss against the target. A candidate of
/// the wrong length is refused.
pub open spec fn is_chain_fitness<B: Backend>(
    f: ChainFitness<B>,
    thetas: Seq<B::Scalar>,
    result: Result<B::Scalar, ChainError>,
) -> bool {
    if !(thetas.len() == f.axes@.len() && thetas.len() == f.radii@.len()) {
        result == Err::<B::Scalar, ChainError>(
            ChainError::LengthMismatch {
                angles: thetas.len() as usize,
                axes: f.axes@.len() as usize,
                radii: f.radii@.len() as usize,
            },
        )
    } else {
        exists|mats: Seq<B::Transform>, forward: Seq<B::Transform>, verdict: Result<bool, ChainError>|
            #![trigger is_forward_products::<B>(mats, forward), is_collision_verdict::<B>(f.collision_handler@, forward, verdict)]
            is_chain::<B>(f.origin, thetas, f.axes@, f.radii@, mats) && is_forward_products::<B>(
                mats,
                forward,
            ) && is_collision_verdict::<B>(f.collision_handler@, forward, verdict) && match verdict {
                Err(e) => result == Err::<B::Scalar, ChainError>(e),
                Ok(true) => result is Ok && is_ratio::<B>(1, 1000, result->Ok_0),
                Ok(false) => result is Ok && exists|loss: B::Scalar|
                    #![trigger is_reciprocal::<B>(loss, result->Ok_0)]
                    is_pose_loss::<B>(forward[forward.len() - 1], f.target, f.arm_length, loss)
                        && is_reciprocal::<B>(loss, result->Ok_0),
            }
    }
}

impl<B: Backend> Fitness<B> for ChainFitness<B> {
    fn score(&self, thetas: &Vec<B::Scalar>) -> (result: Result<B::Scalar, ChainError>)
        ensures
            is_chain_fitness::<B>(*self, thetas@, result),
    {
        let mats = match generate_matrices::<B>(self.origin, thetas, &self.axes, &self.radii) {
            Ok(mats) => mats,
            Err(e) => {
                return Err(e);
            },
        };
        let forward = generate_forward_matrices::<B>(&mats);
        let verdict = collision_verdict::<B>(&self.collision_handler, &forward);
        match verdict {
            Err(e) => Err(e),
            Ok(true) => {
                let r = B::ratio(1, 1000);
                Ok(r)
            },
            Ok(false) => {
                let end_effector = forward[forward.len() - 1];
                let loss = pose_loss::<B>(&end_effector, &self.target, self.arm_length);
                let r = reciprocal::<B>(loss);
                let result = Ok(r);
                assert(is_pose_loss::<B>(
                    forward@[forward@.len() - 1],
                    self.target,
                    self.arm_length,
                    loss,
                ) && is_reciprocal::<B>(loss, result->Ok_0));
                result
            },
        }
    }
}

/// The genetic-algorithm solver.
pub struct IKSolverGA<B: Backend> {
    /// The rotation axis of each joint.
    pub axes: Vec<B::Vector>,
    /// The link length of each joint.
    pub radii: Vec<B::Scalar>,
    /// The current angle of each joint.
    pub thetas: Vec<B::Scalar>,
    /// The pose of the chain's base.
    pub origin: B::Transform,
    /// The lower angle limit of each joint.
    pub min_angles: Vec<B::Scalar>,
    /// The upper angle limit of each joint.
    pub max_angles: Vec<B::Scalar>,
    /// The sum of the link lengths.
    pub arm_length: B::Scalar,
    /// The pose of the end effector in the current posture.
    pub end_effector: B::Transform,
    /// The pose to reach, if one was set.
    pub target: Option<B::Transform>,
    /// The origin followed by one transform per joint.
    pub mats: Vec<B::Transform>,
    /// The forward partial products of `mats`.
    pub forward_mats: Vec<B::Transform>,
    /// The backward partial products of `mats`.
    pub backward_mats: Vec<B::Transform>,
    /// The loss of the current posture.
    pub loss: B::Scalar,
    /// The number of updates since the last reset.
    pub iterations: i32,
    /// The candidates being bred, once a target is set.
    pub population: Option<Population<B, ChainFitness<B>>>,
    /// The colliders of the arm and its surroundings.
    pub col_handler: CollisionHandler<B>,
}

impl<B: Backend> IKSolverGA<B> {
    /// The number of joints.
    pub open spec fn joints(self) -> nat {
        self.thetas@.len()
    }

    /// Every per-joint sequence has one entry per joint, the collider set
    /// has no more links than the chain has joint frames, the update count
    /// is not negative, and a population, where there is one, is in order
    /// and holds candidates with one angle per joint.
    pub open spec fn wf(self) -> bool {
        &&& self.axes@.len() == self.joints()
        &&& self.radii@.len() == self.joints()
        &&& self.min_angles@.len() == self.joints()
        &&& self.max_angles@.len() == self.joints()
        &&& self.col_handler@.links() <= self.joints() + 1
        &&& self.col_handler@.wf()
        &&& 0 <= self.iterations
        &&& match self.population {
            Some(population) => {
                &&& population.wf()
                &&& population.size > 0
                &&& population.width() == self.joints()
            },
            None => true,
        }
    }

    /// `other` has the same geometry, limits and colliders.
    pub open spec fn same_setup(self, other: Self) -> bool {
        &&& self.axes@ == other.axes@
        &&& self.radii@ == other.radii@
        &&& self.origin == other.origin
        &&& self.min_angles@ == other.min_angles@
        &&& self.max_angles@ == other.max_angles@
        &&& self.arm_length == other.arm_length
        &&& self.col_handler@ == other.col_handler@
    }

    /// `other` has the same posture.
    pub open spec fn same_posture(self, other: Self) -> bool {
        &&& self.mats@ == other.mats@
        &&& self.forward_mats@ == other.forward_mats@
        &&& self.backward_mats@ == other.backward_mats@
        &&& self.end_effector == other.end_effector
    }

    /// `solver` is a solver fresh from construction for the given chain:
    /// posed, without a target or a population, at zero updates, with a loss
    /// of a hundred.
    pub open spec fn is_fresh(
        solver: Self,
        origin: B::Transform,
        thetas: Seq<B::Scalar>,
        axes: Seq<B::Vector>,
        radii: Seq<B::Scalar>,
        min_angles: Seq<B::Scalar>,
        max_angles: Seq<B::Scalar>,
        colliders: Colliders<B>,
    ) -> bool {
        &&& solver.wf()
        &&& solver.origin == origin
        &&& solver.thetas@ == thetas
        &&& solver.axes@ == axes
        &&& solver.radii@ == radii
        &&& solver.min_angles@ == min_angles
        &&& solver.max_angles@ == max_angles
        &&& solver.col_handler@ == colliders
        &&& is_total::<B>(radii, solver.arm_length)
        &&& is_posture::<B>(
            origin,
            thetas,
            axes,
            radii,
            solver.mats@,
            solver.forward_mats@,
            solver.backward_mats@,
            solver.end_effector,
        )
        &&& solver.target is None
        &&& solver.population is None
        &&& is_ratio::<B>(100, 1, solver.loss)
        &&& solver.iterations == 0
    }

    /// `fitness` is the measure of a candidate for this solver's chain and
    /// colliders and for the given target.
    pub open spec fn is_fitness_of(self, target: B::Transform, fitness: ChainFitness<B>) -> bool {
        &&& fitness.origin == self.origin
        &&& fitness.axes@ == self.axes@
        &&& fitness.radii@ == self.radii@
        &&& fitness.target == target
        &&& fitness.arm_length == self.arm_length
        &&& fitness.collision_handler@ == self.col_handler@
    }

    /// `after` is `before` with the target `target` set: a new population
    /// of a hundred copies of the current angles, measured against the new
    /// target; everything else as before.
    pub open spec fn is_targeted(before: Self, target: B::Transform, after: Self) -> bool {
        &&& after.same_setup(before)
        &&& after.same_posture(before)
        &&& after.thetas@ == before.thetas@
        &&& after.loss == before.loss
        &&& after.iterations == before.iterations
        &&& after.target == Some(target)
        &&& after.population is Some
        &&& before.is_fitness_of(target, after.population->Some_0.fitness)
        &&& after.population->Some_0.size == POPULATION_SIZE
        &&& after.population->Some_0.generation == 0
        &&& after.population->Some_0.alpha is None
        &&& is_largest::<B>(after.population->Some_0.min_err)
        &&& after.population->Some_0.members@.len() == POPULATION_SIZE
        &&& forall|k: int|
            #![trigger after.population->Some_0.members@[k]]
            0 <= k < POPULATION_SIZE ==> after.population->Some_0.members@[k].thetas@
                == before.thetas@ && after.population->Some_0.members@[k].min_angles@
                == before.min_angles@ && after.population->Some_0.members@[k].max_angles@
                == before.max_angles@
    }

    /// `after` and `result` are what posing the chain anew makes of
    /// `before`: the posture belongs to the current angles and, where a
    /// target is set, the loss to the new posture, the target and the
    /// colliders. Where the loss cannot be measured it stays.
    pub open spec fn is_posed_from(before: Self, after: Self, result: Result<(), ChainError>) -> bool {
        &&& after.same_setup(before)
        &&& after.thetas@ == before.thetas@
        &&& after.target == before.target
        &&& after.iterations == before.iterations
        &&& after.population == before.population
        &&& is_posture::<B>(
            before.origin,
            before.thetas@,
            before.axes@,
            before.radii@,
            after.mats@,
            after.forward_mats@,
            after.backward_mats@,
            after.end_effector,
        )
        &&& match before.target {
            Some(target) => is_guarded_loss::<B>(
                before.col_handler@,
                after.forward_mats@,
                after.end_effector,
                target,
                before.arm_length,
                match result {
                    Ok(()) => Ok(after.loss),
                    Err(e) => Err(e),
                },
            ) && (result is Err ==> after.loss == before.loss),
            None => result is Ok && after.loss == before.loss,
        }
    }

    /// `after` and `result` are what adopting the next generation makes of
    /// `before`: the population breeds one generation and the solver takes
    /// the angles of the best candidate seen so far, if there is one.
    pub open spec fn is_bred_from(before: Self, after: Self, result: Result<(), ChainError>) -> bool {
        &&& after.same_setup(before)
        &&& after.same_posture(before)
        &&& after.loss == before.loss
        &&& after.target == before.target
        &&& before.population is Some
        &&& after.population is Some
        &&& Population::is_generation(
            before.population->Some_0,
            after.population->Some_0,
            result,
        )
        &&& after.thetas@ == match (result, after.population->Some_0.alpha) {
            (Ok(()), Some(alpha)) => alpha@,
            _ => before.thetas@,
        }
    }

    /// `after` and `result` are what one update makes of `before`.
    ///
    /// Without a target nothing happens. With one, the chain is posed and
    /// its loss measured, the population breeds one generation, the solver
    /// adopts the best candidate seen so far, and the update count grows by
    /// one. A failure at either step ends the update there.
    #[verifier::opaque]
    pub open spec fn is_update(before: Self, after: Self, result: Result<(), ChainError>) -> bool {
        if before.target is None || before.population is None {
            result is Ok && after == before
        } else {
            match result {
                Ok(()) => exists|posed: Self|
                    #![trigger Self::is_posed_from(before, posed, Ok(()))]
                    {
                        &&& Self::is_posed_from(before, posed, Ok(()))
                        &&& Self::is_bred_from(posed, after, Ok(()))
                        &&& after.iterations == before.iterations + 1
                    },
                Err(e) => Self::is_posed_from(before, after, Err(e)) || exists|posed: Self|
                    #![trigger Self::is_posed_from(before, posed, Ok(()))]
                    Self::is_posed_from(before, posed, Ok(())) && Self::is_bred_from(
                        posed,
                        after,
                        Err(e),
                    ) && after.iterations == before.iterations,
            }
        }
    }

    /// `start` is `before` made ready for a run toward `target`: the target
    /// and a new population set, the update count at zero and the loss at a
    /// hundred.
    pub open spec fn is_start(before: Self, target: B::Transform, start: Self) -> bool {
        exists|targeted: Self|
            #![trigger Self::is_targeted(before, target, targeted)]
            {
                &&& Self::is_targeted(before, target, targeted)
                &&& start.same_setup(targeted)
                &&& start.same_posture(targeted)
                &&& start.thetas@ == targeted.thetas@
                &&& start.target == targeted.target
                &&& start.population == targeted.population
                &&& start.iterations == 0
                &&& is_ratio::<B>(100, 1, start.loss)
            }
    }

    /// `state` is reached from `start` by `steps` successful updates.
    pub open spec fn is_run(start: Self, state: Self, steps: nat) -> bool
        decreases steps,
    {
        if steps == 0 {
            state == start
        } else {
            exists|mid: Self|
                #![trigger Self::is_update(mid, state, Ok(()))]
                Self::is_run(start, mid, (steps - 1) as nat) && Self::is_update(mid, state, Ok(()))
        }
    }

    /// `after` and `result` are what a run toward `target` with the loss
    /// threshold `thresh` makes of `before`.
    ///
    /// The run starts from the reset state and updates while the loss is
    /// above the threshold. It converges as soon as the loss is found not to
    /// be above it, and fails when that has not happened after
    /// [`MAX_STEPS`] updates. An update that fails ends the run with its
    /// error.
    pub open spec fn is_solve(
        before: Self,
        target: B::Transform,
        thresh: B::Scalar,
        after: Self,
        result: Result<SolveOutcome, ChainError>,
    ) -> bool {
        exists|start: Self|
            #![trigger Self::is_start(before, target, start)]
            Self::is_start(before, target, start) && match result {
                Ok(outcome) => {
                    &&& 0 <= after.iterations <= MAX_STEPS
                    &&& Self::is_run(start, after, after.iterations as nat)
                    &&& match outcome {
                        SolveOutcome::Converged => is_below::<B>(thresh, after.loss, false),
                        SolveOutcome::Failed => is_below::<B>(thresh, after.loss, true)
                            && after.iterations == MAX_STEPS,
                    }
                },
                Err(e) => exists|mid: Self|
                    #![trigger Self::is_update(mid, after, Err(e))]
                    0 <= mid.iterations < MAX_STEPS && Self::is_run(
                        start,
                        mid,
                        mid.iterations as nat,
                    ) && is_below::<B>(thresh, mid.loss, true) && Self::is_update(
                        mid,
                        after,
                        Err(e),
                    ),
            }
    }

    /// One more successful update extends a run by one step.
    proof fn lemma_run_step(start: Self, mid: Self, after: Self, steps: nat)
        requires
            Self::is_run(start, mid, steps),
            Self::is_update(mid, after, Ok(())),
        ensures
            Self::is_run(start, after, steps + 1),
    {
    }

    /// A solver for the chain with the given origin, angles, axes, link
    /// lengths and angle limits, guarded by `col_handler`.
    ///
    /// Refuses sequences of unequal length, and a collider set with more
    /// links than the chain has joint frames.
    pub fn new(
        origin: B::Transform,
        thetas: &Vec<B::Scalar>,
        axes: &Vec<B::Vector>,
        radii: &Vec<B::Scalar>,
        min_angles: &Vec<B::Scalar>,
        max_angles: &Vec<B::Scalar>,
        col_handler: CollisionHandler<B>,
    ) -> (result: Result<Self, ChainError>)
        ensures
            match result {
                Ok(solver) => Self::is_fresh(
                    solver,
                    origin,
                    thetas@,
                    axes@,
                    radii@,
                    min_angles@,
                    max_angles@,
                    col_handler@,
                ),
                Err(e) => if !(thetas.len() == axes.len() && thetas.len() == radii.len()) {
                    e == (ChainError::LengthMismatch {
                        angles: thetas.len(),
                        axes: axes.len(),
                        radii: radii.len(),
                    })
                } else if !(thetas.len() == min_angles.len() && thetas.len() == max_angles.len()) {
                    e == (ChainError::BoundsMismatch {
                        angles: thetas.len(),
                        axes: axes.len(),
                        radii: radii.len(),
                        min_angles: min_angles.len(),
                        max_angles: max_angles.len(),
                    })
                } else {
                    col_handler@.links() > thetas.len() + 1 && e == (ChainError::MissingPose {
                        links: col_handler@.links() as usize,
                        poses: (thetas.len() + 1) as usize,
                    })
                },
            },
            result is Ok <==> thetas.len() == axes.len() && thetas.len() == radii.len()
                && thetas.len() == min_angles.len() && thetas.len() == max_angles.len()
                && col_handler@.links() <= thetas.len() + 1,
    {
        if !(thetas.len() == axes.len() && thetas.len() == radii.len()) {
            return Err(
                ChainError::LengthMismatch {
                    angles: thetas.len(),
                    axes: axes.len(),
                    radii: radii.len(),
                },
            );
        }
        if !(thetas.len() == min_angles.len() && thetas.len() == max_angles.len()) {
            return Err(
                ChainError::BoundsMismatch {
                    angles: thetas.len(),
                    axes: axes.len(),
                    radii: radii.len(),
                    min_angles: min_angles.len(),
                    max_angles: max_angles.len(),
                },
            );
        }
        let links = col_handler.links();
        if links > 0 && links - 1 > thetas.len() {
            return Err(ChainError::MissingPose { links: links, poses: thetas.len() + 1 });
        }
        match pose_chain::<B>(origin, thetas, axes, radii) {
            Err(e) => Err(e),
            Ok(posture) => Ok(
                IKSolverGA {
                    origin: origin,
                    thetas: copy_of(thetas),
                    axes: copy_of(axes),
                    radii: copy_of(radii),
                    min_angles: copy_of(min_angles),
                    max_angles: copy_of(max_angles),
                    arm_length: total::<B>(radii),
                    end_effector: posture.end_effector,
                    target: None,
                    forward_mats: posture.forward_mats,
                    backward_mats: posture.backward_mats,
                    mats: posture.mats,
                    loss: B::ratio(100, 1),
                    iterations: 0,
                    population: None,
                    col_handler: col_handler,
                },
            ),
        }
    }

    /// The measure of a candidate for the given chain and target and for
    /// this solver's colliders.
    pub fn generate_fitness(
        &self,
        origin: B::Transform,
        axes: Vec<B::Vector>,
        radii: Vec<B::Scalar>,
        target: B::Transform,
        arm_length: B::Scalar,
    ) -> (fitness: ChainFitness<B>)
        ensures
            fitness.origin == origin,
            fitness.axes@ == axes@,
            fitness.radii@ == radii@,
            fitness.target == target,
            fitness.arm_length == arm_length,
            fitness.collision_handler@ == self.col_handler@,
    {
        ChainFitness {
            origin: origin,
            axes: axes,
            radii: radii,
            target: target,
            arm_length: arm_length,
            collision_handler: self.col_handler.clone(),
        }
    }

    /// Sets the pose to reach and starts a new population from the current
    /// angles.
    pub fn set_target(&mut self, target: B::Transform)
        requires
            old(self).wf(),
        ensures
            final(self).wf(),
            Self::is_targeted(*old(self), target, *final(self)),
    {
        self.target = Some(target);
        let fitness = self.generate_fitness(
            self.origin,
            copy_of(&self.axes),
            copy_of(&self.radii),
            target,
            self.arm_length,
        );
        let population = Population::new(
            POPULATION_SIZE,
            copy_of(&self.thetas),
            copy_of(&self.min_angles),
            copy_of(&self.max_angles),
            fitness,
        );
        self.population = Some(population);
    }

    /// The loss of the current posture against `target`.
    fn calculate_loss(&self, target: &B::Transform) -> (result: Result<B::Scalar, ChainError>)
        ensures
            is_guarded_loss::<B>(
                self.col_handler@,
                self.forward_mats@,
                self.end_effector,
                *target,
                self.arm_length,
                result,
            ),
    {
        let verdict = collision_verdict::<B>(&self.col_handler, &self.forward_mats);
        match verdict {
            Err(e) => Err(e),
            Ok(true) => Ok(B::ratio(1000, 1)),
            Ok(false) => Ok(pose_loss::<B>(&self.end_effector, target, self.arm_length)),
        }
    }

    /// Poses the chain for the current angles and, where a target is set,
    /// measures the loss of the new posture against it.
    pub fn update_matrices(&mut self) -> (result: Result<(), ChainError>)
        requires
            old(self).wf(),
        ensures
            final(self).wf(),
            Self::is_posed_from(*old(self), *final(self), result),
    {
        match pose_chain::<B>(self.origin, &self.thetas, &self.axes, &self.radii) {
            Err(e) => Err(e),
            Ok(posture) => {
                self.mats = posture.mats;
                self.forward_mats = posture.forward_mats;
                self.backward_mats = posture.backward_mats;
                self.end_effector = posture.end_effector;
                match self.target {
                    Some(target) => {
                        match self.calculate_loss(&target) {
                            Err(e) => Err(e),
                            Ok(loss) => {
                                self.loss = loss;
                                Ok(())
                            },
                        }
                    },
                    None => Ok(()),
                }
            },
        }
    }

    /// Breeds one generation and adopts the best candidate seen so far.
    fn update_thetas(&mut self) -> (result: Result<(), ChainError>)
        requires
            old(self).wf(),
            old(self).population is Some,
            old(self).population->Some_0.generation < i32::MAX,
        ensures
            final(self).wf(),
            final(self).iterations == old(self).iterations,
            result is Ok ==> final(self).population->Some_0.generation
                == old(self).population->Some_0.generation + 1,
            Self::is_bred_from(*old(self), *final(self), result),
    {
        let mut population = match self.population.take() {
            Some(population) => population,
            None => {
                return Ok(());
            },
        };
        let result = population.new_generation();
        if result.is_ok() {
            match &population.alpha {
                Some(alpha) => {
                    self.thetas = copy_of(alpha);
                },
                None => {},
            }
        }
        self.population = Some(population);
        result
    }

    /// One update: pose the chain, breed one generation, adopt the best
    /// candidate, count the update. Does nothing where no target is set.
    pub fn update(&mut self) -> (result: Result<(), ChainError>)
        requires
            old(self).wf(),
            old(self).iterations < i32::MAX,
            old(self).population is Some ==> old(self).population->Some_0.generation < i32::MAX,
        ensures
            final(self).wf(),
            final(self).same_setup(*old(self)),
            final(self).target == old(self).target,
            final(self).population is Some <==> old(self).population is Some,
            old(self).target is None || old(self).population is None ==> result is Ok
                && *final(self) == *old(self),
            result is Err ==> final(self).iterations == old(self).iterations,
            old(self).target is Some && old(self).population is Some && result is Ok
                ==> final(self).iterations == old(self).iterations + 1
                && final(self).population->Some_0.generation
                == old(self).population->Some_0.generation + 1,
            Self::is_update(*old(self), *final(self), result),
    {
        reveal(IKSolverGA::is_update);
        if self.target.is_none() || self.population.is_none() {
            return Ok(());
        }
        match self.update_matrices() {
            Err(e) => {
                return Err(e);
            },
            Ok(()) => {},
        }
        let ghost posed = *self;
        match self.update_thetas() {
            Err(e) => {
                assert(Self::is_posed_from(*old(self), posed, Ok(())));
                Err(e)
            },
            Ok(()) => {
                self.iterations += 1;
                Ok(())
            },
        }
    }

    /// Makes the solver ready for a new run: no updates counted, the loss
    /// at a hundred.
    pub fn reset_params(&mut self)
        requires
            old(self).wf(),
        ensures
            final(self).wf(),
            final(self).same_setup(*old(self)),
            final(self).same_posture(*old(self)),
            final(self).thetas@ == old(self).thetas@,
            final(self).target == old(self).target,
            final(self).population == old(self).population,
            final(self).iterations == 0,
            is_ratio::<B>(100, 1, final(self).loss),
    {
        self.iterations = 0;
        self.loss = B::ratio(100, 1);
    }

    /// Runs toward `target` until the loss is no longer above `thresh` or
    /// [`MAX_STEPS`] updates have been made. The angles found are in
    /// `thetas` either way.
    pub fn solve(&mut self, target: B::Transform, thresh: B::Scalar) -> (result: Result<
        SolveOutcome,
        ChainError,
    >)
        requires
            old(self).wf(),
        ensures
            final(self).wf(),
            final(self).same_setup(*old(self)),
            final(self).target == Some(target),
            0 <= final(self).iterations <= MAX_STEPS,
            Self::is_solve(*old(self), target, thresh, *final(self), result),
    {
        self.set_target(target);
        self.reset_params();
        let ghost start = *self;
        loop
            invariant
                self.wf(),
                self.same_setup(*old(self)),
                self.target == Some(target),
                self.population is Some,
                0 <= self.iterations <= MAX_STEPS,
                self.population->Some_0.generation == self.iterations,
                Self::is_start(*old(self), target, start),
                Self::is_run(start, *self, self.iterations as nat),
            decreases MAX_STEPS - self.iterations,
        {
            let above = B::below(thresh, self.loss);
            if !above {
                return Ok(SolveOutcome::Converged);
            }
            if self.iterations < MAX_STEPS {
                let ghost mid = *self;
                let outcome = self.update();
                match outcome {
                    Err(e) => {
                        return Err(e);
                    },
                    Ok(_done) => {
                        proof {
                            Self::lemma_run_step(start, mid, *self, mid.iterations as nat);
                        }
                    },
                }
            } else {
                return Ok(SolveOutcome::Failed);
            }
        }
    }
}

} // verus!
