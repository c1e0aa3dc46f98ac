//! Genes and populations: fitness-weighted selection, crossover and bounded
//! mutation over vectors of joint angles.
use vstd::prelude::*;
use crate::backend::{
    Backend, is_below, is_difference, is_larger, is_largest, is_multiple, is_pi, is_quotient,
    is_ranked_above, is_ratio, is_smaller, is_sum,
};
use crate::chain::{is_total, total};
use crate::error::ChainError;
use crate::matrices::copy_of;
use crate::random::{is_draw, unit_draw};

verus! {

/// A measure of how good a vector of joint angles is; higher is better.
pub trait Fitness<B: Backend> {
    /// The fitness of `thetas`, or the reason why it cannot be measured.
    fn score(&self, thetas: &Vec<B::Scalar>) -> Result<B::Scalar, ChainError>;
}

/// `r` is what `fitness` returned for `thetas`.
pub open spec fn is_score<B: Backend, F: Fitness<B>>(
    fitness: F,
    thetas: Vec<B::Scalar>,
    r: Result<B::Scalar, ChainError>,
) -> bool {
    call_ensures(F::score, (&fitness, &thetas), r)
}

/// `child` is what a child inherits at one joint for the draw `draw`: the
/// first parent's angle if the draw is above one half, the second parent's
/// otherwise.
pub open spec fn is_inherited<B: Backend>(
    first: B::Scalar,
    second: B::Scalar,
    draw: B::Scalar,
    child: B::Scalar,
) -> bool {
    exists|half: B::Scalar, high: bool|
        #![trigger is_below::<B>(half, draw, high)]
        is_ratio::<B>(1, 2, half) && is_below::<B>(half, draw, high) && child == if high {
            first
        } else {
            second
        }
}

/// `child` is what a child inherits at one joint for some draw.
pub open spec fn is_crossed<B: Backend>(first: B::Scalar, second: B::Scalar, child: B::Scalar) -> bool {
    exists|draw: B::Scalar|
        #![trigger is_inherited::<B>(first, second, draw, child)]
        is_draw::<B>(draw) && is_inherited::<B>(first, second, draw, child)
}

/// `r` is `theta` mutated with the draw `draw`: shifted by a quarter of the
/// circle constant times `draw - 1/2`, then raised to at least `low` and
/// lowered to at most `high`.
pub open spec fn is_mutated<B: Backend>(
    theta: B::Scalar,
    low: B::Scalar,
    high: B::Scalar,
    draw: B::Scalar,
    r: B::Scalar,
) -> bool {
    exists|
        size: B::Scalar,
        pi: B::Scalar,
        span: B::Scalar,
        half: B::Scalar,
        centred: B::Scalar,
        shift: B::Scalar,
        moved: B::Scalar,
        floored: B::Scalar,
    |
        #![trigger is_multiple::<B>(size, pi, span), is_difference::<B>(draw, half, centred), is_multiple::<B>(span, centred, shift), is_sum::<B>(theta, shift, moved), is_larger::<B>(low, moved, floored)]
        is_ratio::<B>(1, 4, size) && is_pi::<B>(pi) && is_multiple::<B>(size, pi, span)
            && is_ratio::<B>(1, 2, half) && is_difference::<B>(draw, half, centred)
            && is_multiple::<B>(span, centred, shift) && is_sum::<B>(theta, shift, moved)
            && is_larger::<B>(low, moved, floored) && is_smaller::<B>(high, floored, r)
}

/// `r` is what one round of mutation makes of the angle `theta`: with a
/// draw below one fifth the angle is mutated with a second draw, otherwise
/// it stays.
pub open spec fn is_mutation<B: Backend>(
    theta: B::Scalar,
    low: B::Scalar,
    high: B::Scalar,
    r: B::Scalar,
) -> bool {
    exists|chance: B::Scalar, rate: B::Scalar, hit: bool|
        #![trigger is_below::<B>(chance, rate, hit)]
        is_draw::<B>(chance) && is_ratio::<B>(1, 5, rate) && is_below::<B>(chance, rate, hit)
            && if hit {
            exists|draw: B::Scalar|
                #![trigger is_mutated::<B>(theta, low, high, draw, r)]
                is_draw::<B>(draw) && is_mutated::<B>(theta, low, high, draw, r)
        } else {
            r == theta
        }
}

/// What a child inherits at one joint for the draw `draw`.
pub fn inherited<B: Backend>(first: B::Scalar, second: B::Scalar, draw: B::Scalar) -> (child:
    B::Scalar)
    ensures
        is_inherited::<B>(first, second, draw, child),
{
    let half = B::ratio(1, 2);
    let high = B::below(half, draw);
    assert(is_below::<B>(half, draw, high));
    if high {
        first
    } else {
        second
    }
}

/// The angle `theta` mutated with the draw `draw` and held within
/// `low` and `high`.
pub fn mutated<B: Backend>(theta: B::Scalar, low: B::Scalar, high: B::Scalar, draw: B::Scalar) -> (r:
    B::Scalar)
    ensures
        is_mutated::<B>(theta, low, high, draw, r),
{
    let size = B::ratio(1, 4);
    let pi = B::pi();
    let span = B::times(size, pi);
    let half = B::ratio(1, 2);
    let centred = B::minus(draw, half);
    let shift = B::times(span, centred);
    let moved = B::plus(theta, shift);
    let floored = B::larger(low, moved);
    let r = B::smaller(high, floored);
    assert(is_multiple::<B>(size, pi, span) && is_difference::<B>(draw, half, centred)
        && is_multiple::<B>(span, centred, shift) && is_sum::<B>(theta, shift, moved)
        && is_larger::<B>(low, moved, floored));
    r
}

/// A candidate: one angle per joint, with the limits of each joint.
pub struct Gene<B: Backend> {
    /// The learning rate the candidate carries.
    pub learn_rate: B::Scalar,
    /// The angle of each joint.
    pub thetas: Vec<B::Scalar>,
    /// The lower angle limit of each joint.
    pub min_angles: Vec<B::Scalar>,
    /// The upper angle limit of each joint.
    pub max_angles: Vec<B::Scalar>,
}

impl<B: Backend> Gene<B> {
    /// Both limit sequences have one entry per joint.
    pub open spec fn wf(self) -> bool {
        &&& self.min_angles@.len() == self.thetas@.len()
        &&& self.max_angles@.len() == self.thetas@.len()
    }

    /// `other` has the same angles, limits and learning rate.
    pub open spec fn same(self, other: Self) -> bool {
        &&& self.learn_rate == other.learn_rate
        &&& self.thetas@ == other.thetas@
        &&& self.min_angles@ == other.min_angles@
        &&& self.max_angles@ == other.max_angles@
    }

    /// `child` is a cross of `first` and `second`: at every joint it has
    /// inherited from one of them by a draw of its own, and it has the
    /// limits and the learning rate of `first`.
    pub open spec fn is_cross(first: Self, second: Self, child: Self) -> bool {
        &&& first.thetas@.len() == second.thetas@.len()
        &&& child.learn_rate == first.learn_rate
        &&& child.min_angles@ == first.min_angles@
        &&& child.max_angles@ == first.max_angles@
        &&& child.thetas@.len() == first.thetas@.len()
        &&& forall|i: int|
            #![trigger child.thetas@[i]]
            0 <= i < first.thetas@.len() ==> is_crossed::<B>(
                first.thetas@[i],
                second.thetas@[i],
                child.thetas@[i],
            )
    }

    /// `after` is `before` after one round of mutation: every angle has gone
    /// through its own mutation; limits and learning rate are as before.
    pub open spec fn is_mutant(before: Self, after: Self) -> bool {
        &&& after.learn_rate == before.learn_rate
        &&& after.min_angles@ == before.min_angles@
        &&& after.max_angles@ == before.max_angles@
        &&& after.thetas@.len() == before.thetas@.len()
        &&& forall|i: int|
            #![trigger after.thetas@[i]]
            0 <= i < before.thetas@.len() ==> is_mutation::<B>(
                before.thetas@[i],
                before.min_angles@[i],
                before.max_angles@[i],
                after.thetas@[i],
            )
    }

    /// A gene with the given angles, limits and learning rate.
    pub fn new(
        thetas: &Vec<B::Scalar>,
        min_angles: &Vec<B::Scalar>,
        max_angles: &Vec<B::Scalar>,
        learn_rate: B::Scalar,
    ) -> (gene: Self)
        ensures
            gene.learn_rate == learn_rate,
            gene.thetas@ == thetas@,
            gene.min_angles@ == min_angles@,
            gene.max_angles@ == max_angles@,
    {
        Gene {
            learn_rate: learn_rate,
            thetas: copy_of(thetas),
            min_angles: copy_of(min_angles),
            max_angles: copy_of(max_angles),
        }
    }

    /// A child of two parents: every angle comes from one of them, chosen
    /// by an even draw; limits and learning rate come from the first.
    /// Refuses parents of unequal length.
    pub fn from_parents(parent1: &Self, parent2: &Self) -> (result: Result<Self, ChainError>)
        ensures
            match result {
                Ok(child) => Self::is_cross(*parent1, *parent2, child),
                Err(e) => parent1.thetas@.len() != parent2.thetas@.len() && e == (
                ChainError::ParentMismatch {
                    first: parent1.thetas.len(),
                    second: parent2.thetas.len(),
                }),
            },
            result is Ok <==> parent1.thetas@.len() == parent2.thetas@.len(),
    {
        if parent1.thetas.len() != parent2.thetas.len() {
            return Err(
                ChainError::ParentMismatch {
                    first: parent1.thetas.len(),
                    second: parent2.thetas.len(),
                },
            );
        }
        let n = parent1.thetas.len();
        let mut thetas: Vec<B::Scalar> = Vec::new();
        let mut i: usize = 0;
        while i < n
            invariant
                n == parent1.thetas@.len(),
                n == parent2.thetas@.len(),
                i <= n,
                thetas@.len() == i,
                forall|k: int|
                    #![trigger thetas@[k]]
                    0 <= k < i ==> is_crossed::<B>(
                        parent1.thetas@[k],
                        parent2.thetas@[k],
                        thetas@[k],
                    ),
            decreases n - i,
        {
            let draw = unit_draw::<B>();
            let theta = inherited::<B>(parent1.thetas[i], parent2.thetas[i], draw);
            thetas.push(theta);
            i += 1;
        }
        Ok(
            Gene {
                learn_rate: parent1.learn_rate,
                min_angles: copy_of(&parent1.min_angles),
                max_angles: copy_of(&parent1.max_angles),
                thetas: thetas,
            },
        )
    }

    /// One round of mutation: every angle is, with a chance of one in five,
    /// shifted by a bounded random amount and held within its limits.
    pub fn mutate(&mut self)
        requires
            old(self).wf(),
        ensures
            final(self).wf(),
            Self::is_mutant(*old(self), *final(self)),
    {
        let n = self.thetas.len();
        let rate = B::ratio(1, 5);
        let mut i: usize = 0;
        while i < n
            invariant
                self.wf(),
                is_ratio::<B>(1, 5, rate),
                n == old(self).thetas@.len(),
                self.thetas@.len() == n,
                i <= n,
                self.learn_rate == old(self).learn_rate,
                self.min_angles@ == old(self).min_angles@,
                self.max_angles@ == old(self).max_angles@,
                forall|k: int|
                    #![trigger self.thetas@[k]]
                    0 <= k < i ==> is_mutation::<B>(
                        old(self).thetas@[k],
                        old(self).min_angles@[k],
                        old(self).max_angles@[k],
                        self.thetas@[k],
                    ),
                forall|k: int| i <= k < n ==> #[trigger] self.thetas@[k] == old(self).thetas@[k],
            decreases n - i,
        {
            let chance = unit_draw::<B>();
            let hit = B::below(chance, rate);
            assert(is_below::<B>(chance, rate, hit));
            if hit {
                let draw = unit_draw::<B>();
                let theta = mutated::<B>(
                    self.thetas[i],
                    self.min_angles[i],
                    self.max_angles[i],
                    draw,
                );
                self.thetas.set(i, theta);
            }
            i += 1;
        }
    }
}

/// `scores` holds the fitness of every member, in member order.
pub open spec fn is_scores<B: Backend, F: Fitness<B>>(
    fitness: F,
    members: Seq<Gene<B>>,
    scores: Seq<B::Scalar>,
) -> bool {
    &&& scores.len() == members.len()
    &&& forall|k: int|
        #![trigger scores[k]]
        0 <= k < members.len() ==> is_score::<B, F>(fitness, members[k].thetas, Ok(scores[k]))
}

/// `weights` holds the selection weights for `scores`: every score divided
/// by the sum of all scores. Where the sum is not found to be above zero
/// the scores are left as they are.
pub open spec fn is_weights<B: Backend>(scores: Seq<B::Scalar>, weights: Seq<B::Scalar>) -> bool {
    exists|sum: B::Scalar, zero: B::Scalar, positive: bool|
        #![trigger is_total::<B>(scores, sum), is_below::<B>(zero, sum, positive)]
        is_total::<B>(scores, sum) && is_ratio::<B>(0, 1, zero) && is_below::<B>(
            zero,
            sum,
            positive,
        ) && weights.len() == scores.len() && if positive {
            forall|k: int|
                #![trigger weights[k]]
                0 <= k < scores.len() ==> is_quotient::<B>(scores[k], sum, weights[k])
        } else {
            weights == scores
        }
}

/// `best` is the position of the greatest among the first `count` weights:
/// going through them in order, a later weight takes the lead unless the
/// leader ranks strictly above it.
pub open spec fn is_best_upto<B: Backend>(weights: Seq<B::Scalar>, count: nat, best: int) -> bool
    decreases count,
{
    if count <= 1 {
        best == 0
    } else {
        exists|leader: int, stays: bool|
            #![trigger is_ranked_above::<B>(weights[leader], weights[count - 1], stays)]
            0 <= leader < count - 1 && is_best_upto::<B>(weights, (count - 1) as nat, leader)
                && is_ranked_above::<B>(weights[leader], weights[count - 1], stays) && best == if stays {
                leader
            } else {
                count - 1
            }
    }
}

/// `sums` holds running sums of `weights`: each entry is the previous one,
/// or a zero at the start, plus the weight at its position.
pub open spec fn is_running<B: Backend>(weights: Seq<B::Scalar>, sums: Seq<B::Scalar>) -> bool {
    &&& sums.len() <= weights.len()
    &&& exists|zero: B::Scalar|
        #![trigger is_ratio::<B>(0, 1, zero)]
        is_ratio::<B>(0, 1, zero) && forall|i: int|
            #![trigger sums[i]]
            0 <= i < sums.len() ==> is_sum::<B>(
                if i == 0 {
                    zero
                } else {
                    sums[i - 1]
                },
                weights[i],
                sums[i],
            )
}

/// `index` is where the roulette stops on the running sums `sums` for the
/// draw `draw`: at the last sum if that one is above the draw, and at
/// position zero if the sums have run through all weights without that.
pub open spec fn is_stop<B: Backend>(
    weights: Seq<B::Scalar>,
    sums: Seq<B::Scalar>,
    draw: B::Scalar,
    index: int,
) -> bool {
    if sums.len() == 0 {
        weights.len() == 0 && index == 0
    } else {
        exists|stopped: bool|
            #![trigger is_below::<B>(draw, sums[sums.len() - 1], stopped)]
            is_below::<B>(draw, sums[sums.len() - 1], stopped) && if stopped {
                index == sums.len() - 1
            } else {
                sums.len() == weights.len() && index == 0
            }
    }
}

/// `index` is where the roulette stops for the draw `draw`: at the first
/// position whose running sum of weights is above the draw, and at position
/// zero if there is none.
pub open spec fn is_roulette<B: Backend>(
    weights: Seq<B::Scalar>,
    draw: B::Scalar,
    index: int,
) -> bool {
    exists|sums: Seq<B::Scalar>|
        #![trigger is_running::<B>(weights, sums)]
        {
            &&& is_running::<B>(weights, sums)
            &&& forall|i: int|
                #![trigger sums[i]]
                0 <= i < sums.len() - 1 ==> is_below::<B>(draw, sums[i], false)
            &&& is_stop::<B>(weights, sums, draw, index)
        }
}

/// `index` is the position of a parent picked by the roulette with a draw
/// of its own.
pub open spec fn is_parent_pick<B: Backend>(weights: Seq<B::Scalar>, index: int) -> bool {
    exists|draw: B::Scalar|
        #![trigger is_roulette::<B>(weights, draw, index)]
        is_draw::<B>(draw) && is_roulette::<B>(weights, draw, index)
}

/// `child` is bred from `members`: two parents picked by the roulette over
/// `weights`, crossed, and the cross mutated.
pub open spec fn is_child<B: Backend>(
    members: Seq<Gene<B>>,
    weights: Seq<B::Scalar>,
    child: Gene<B>,
) -> bool {
    exists|first: int, second: int, cross: Gene<B>|
        #![trigger Gene::is_cross(members[first], members[second], cross)]
        {
            &&& 0 <= first < members.len()
            &&& 0 <= second < members.len()
            &&& is_parent_pick::<B>(weights, first)
            &&& is_parent_pick::<B>(weights, second)
            &&& Gene::is_cross(members[first], members[second], cross)
            &&& Gene::is_mutant(cross, child)
        }
}

/// The record of the best candidate after looking at the member at `best`:
/// its error is one over its score; if that is below the smallest error so
/// far, the member's angles and its error become the record, otherwise the
/// record stays.
pub open spec fn is_record<B: Backend>(
    members: Seq<Gene<B>>,
    scores: Seq<B::Scalar>,
    best: int,
    alpha: Option<Vec<B::Scalar>>,
    min_err: B::Scalar,
    new_alpha: Option<Vec<B::Scalar>>,
    new_min_err: B::Scalar,
) -> bool {
    exists|one: B::Scalar, err: B::Scalar, better: bool|
        #![trigger is_quotient::<B>(one, scores[best], err), is_below::<B>(err, min_err, better)]
        is_ratio::<B>(1, 1, one) && is_quotient::<B>(one, scores[best], err) && is_below::<B>(
            err,
            min_err,
            better,
        ) && if better {
            new_alpha is Some && new_alpha->Some_0@ == members[best].thetas@ && new_min_err == err
        } else {
            new_alpha == alpha && new_min_err == min_err
        }
}

/// The selection weights for `scores`.
pub fn softmax<B: Backend>(scores: &Vec<B::Scalar>) -> (weights: Vec<B::Scalar>)
    ensures
        is_weights::<B>(scores@, weights@),
{
    let sum = total::<B>(scores);
    let zero = B::ratio(0, 1);
    let positive = B::below(zero, sum);
    assert(is_total::<B>(scores@, sum) && is_below::<B>(zero, sum, positive));
    if !positive {
        return copy_of(scores);
    }
    let mut weights: Vec<B::Scalar> = Vec::new();
    let mut k: usize = 0;
    while k < scores.len()
        invariant
            k <= scores.len(),
            weights@.len() == k,
            forall|a: int|
                #![trigger weights@[a]]
                0 <= a < k ==> is_quotient::<B>(scores@[a], sum, weights@[a]),
        decreases scores.len() - k,
    {
        weights.push(B::over(scores[k], sum));
        k += 1;
    }
    weights
}

/// The position of the greatest weight; of several that rank equal, the
/// last.
pub fn argmax<B: Backend>(weights: &Vec<B::Scalar>) -> (best: usize)
    requires
        weights.len() > 0,
    ensures
        best < weights.len(),
        is_best_upto::<B>(weights@, weights@.len(), best as int),
{
    let mut best: usize = 0;
    let mut k: usize = 1;
    while k < weights.len()
        invariant
            1 <= k <= weights.len(),
            best < k,
            is_best_upto::<B>(weights@, k as nat, best as int),
        decreases weights.len() - k,
    {
        let stays = B::ranks_above(weights[best], weights[k]);
        let ghost leader = best;
        if !stays {
            best = k;
        }
        k += 1;
        assert(is_ranked_above::<B>(weights@[leader as int], weights@[k - 1], stays));
    }
    best
}

/// Where the roulette over `weights` stops for the draw `draw`.
pub fn roulette<B: Backend>(weights: &Vec<B::Scalar>, draw: B::Scalar) -> (index: usize)
    ensures
        is_roulette::<B>(weights@, draw, index as int),
        weights.len() > 0 ==> index < weights.len(),
{
    let zero = B::ratio(0, 1);
    let mut thresh = zero;
    let ghost mut sums: Seq<B::Scalar> = Seq::empty();
    let mut i: usize = 0;
    while i < weights.len()
        invariant
            i <= weights.len(),
            is_ratio::<B>(0, 1, zero),
            sums.len() == i,
            thresh == if i == 0 {
                zero
            } else {
                sums[i - 1]
            },
            forall|k: int|
                #![trigger sums[k]]
                0 <= k < i ==> is_sum::<B>(
                    if k == 0 {
                        zero
                    } else {
                        sums[k - 1]
                    },
                    weights@[k],
                    sums[k],
                ),
            forall|k: int| #![trigger sums[k]] 0 <= k < i ==> is_below::<B>(draw, sums[k], false),
        decreases weights.len() - i,
    {
        let next = B::plus(thresh, weights[i]);
        let stopped = B::below(draw, next);
        proof {
            sums = sums.push(next);
            assert(is_running::<B>(weights@, sums));
        }
        thresh = next;
        assert(is_below::<B>(draw, sums[sums.len() - 1], stopped));
        if stopped {
            return i;
        }
        i += 1;
    }
    assert(is_running::<B>(weights@, sums));
    assert(is_stop::<B>(weights@, sums, draw, 0)) by {
        if sums.len() > 0 {
            assert(is_below::<B>(draw, sums[sums.len() - 1], false));
        }
    }
    0
}

/// The position of a parent picked by the roulette over `weights`.
pub fn pick_parent<B: Backend>(weights: &Vec<B::Scalar>) -> (index: usize)
    ensures
        is_parent_pick::<B>(weights@, index as int),
        weights.len() > 0 ==> index < weights.len(),
{
    let draw = unit_draw::<B>();
    let index = roulette::<B>(weights, draw);
    index
}

/// A population of candidates that evolves toward a higher fitness.
pub struct Population<B: Backend, F: Fitness<B>> {
    /// The measure of a candidate.
    pub fitness: F,
    /// The number of members.
    pub size: i32,
    /// The number of generations bred so far.
    pub generation: i32,
    /// The angles of the best candidate seen so far.
    pub alpha: Option<Vec<B::Scalar>>,
    /// The error of the best candidate seen so far.
    pub min_err: B::Scalar,
    /// The current members.
    pub members: Vec<Gene<B>>,
}

impl<B: Backend, F: Fitness<B>> Population<B, F> {
    /// The population has as many members as its size says, all of them of
    /// one length and with limits for every joint, the best candidate so far
    /// is of that length too, and the generation count is not negative.
    pub open spec fn wf(self) -> bool {
        &&& self.members@.len() == if self.size > 0 {
            self.size as nat
        } else {
            0
        }
        &&& 0 <= self.generation
        &&& forall|k: int|
            #![trigger self.members@[k]]
            0 <= k < self.members@.len() ==> self.members@[k].wf()
                && self.members@[k].thetas@.len() == self.width()
        &&& match self.alpha {
            Some(alpha) => alpha@.len() == self.width(),
            None => true,
        }
    }

    /// The number of angles of a candidate.
    pub open spec fn width(self) -> nat {
        if self.members@.len() > 0 {
            self.members@[0].thetas@.len()
        } else {
            0
        }
    }

    /// `after` and `result` are what breeding one generation makes of
    /// `before`.
    ///
    /// Every member is scored and the scores become selection weights. The
    /// member with the greatest weight is held against the record. Then as
    /// many children as the population has members are bred, each from two
    /// parents picked by the roulette, crossed and mutated; they replace the
    /// members and the generation count grows by one. If a member cannot be
    /// scored, the population is left as it was.
    pub open spec fn is_generation(before: Self, after: Self, result: Result<(), ChainError>) -> bool {
        match result {
            Ok(()) => exists|scores: Seq<B::Scalar>, weights: Seq<B::Scalar>, best: int|
                #![trigger is_weights::<B>(scores, weights), is_best_upto::<B>(weights, weights.len(), best)]
                {
                    &&& is_scores::<B, F>(before.fitness, before.members@, scores)
                    &&& is_weights::<B>(scores, weights)
                    &&& 0 <= best < weights.len()
                    &&& is_best_upto::<B>(weights, weights.len(), best)
                    &&& is_record::<B>(
                        before.members@,
                        scores,
                        best,
                        before.alpha,
                        before.min_err,
                        after.alpha,
                        after.min_err,
                    )
                    &&& after.fitness == before.fitness
                    &&& after.size == before.size
                    &&& after.generation == before.generation + 1
                    &&& after.members@.len() == before.members@.len()
                    &&& forall|k: int|
                        #![trigger after.members@[k]]
                        0 <= k < after.members@.len() ==> is_child::<B>(
                            before.members@,
                            weights,
                            after.members@[k],
                        )
                },
            Err(e) => after == before && exists|k: int|
                #![trigger before.members@[k]]
                0 <= k < before.members@.len() && is_score::<B, F>(
                    before.fitness,
                    before.members@[k].thetas,
                    Err(e),
                ),
        }
    }

    /// Breeding a generation never makes the smallest error worse: it
    /// stays as it was, or it gives way to an error found to be below it.
    pub proof fn lemma_min_err_never_worse(before: Self, after: Self, result: Result<(), ChainError>)
        requires
            Self::is_generation(before, after, result),
        ensures
            after.min_err == before.min_err || is_below::<B>(after.min_err, before.min_err, true),
    {
    }

    /// A population of `size` copies of one candidate with the given
    /// angles and limits, measured by `fitness`. No generation has been
    /// bred, no best candidate is known and the smallest error so far is the
    /// largest number there is.
    pub fn new(
        size: i32,
        thetas: Vec<B::Scalar>,
        min_angles: Vec<B::Scalar>,
        max_angles: Vec<B::Scalar>,
        fitness: F,
    ) -> (population: Self)
        ensures
            population.fitness == fitness,
            population.size == size,
            population.generation == 0,
            population.alpha is None,
            is_largest::<B>(population.min_err),
            population.members@.len() == if size > 0 {
                size as nat
            } else {
                0
            },
            exists|half: B::Scalar|
                #![trigger is_ratio::<B>(1, 2, half)]
                is_ratio::<B>(1, 2, half) && forall|k: int|
                    #![trigger population.members@[k]]
                    0 <= k < population.members@.len() ==> population.members@[k].learn_rate
                        == half && population.members@[k].thetas@ == thetas@
                        && population.members@[k].min_angles@ == min_angles@
                        && population.members@[k].max_angles@ == max_angles@,
            thetas@.len() == min_angles@.len() && thetas@.len() == max_angles@.len()
                ==> population.wf(),
    {
        let half = B::ratio(1, 2);
        let mut first_gen: Vec<Gene<B>> = Vec::new();
        let mut i: i32 = 0;
        while i < size
            invariant
                0 <= i,
                size > 0 ==> i <= size,
                size <= 0 ==> i == 0,
                first_gen@.len() == i,
                forall|k: int|
                    #![trigger first_gen@[k]]
                    0 <= k < i ==> first_gen@[k].learn_rate == half && first_gen@[k].thetas@
                        == thetas@ && first_gen@[k].min_angles@ == min_angles@
                        && first_gen@[k].max_angles@ == max_angles@,
            decreases size - i,
        {
            first_gen.push(Gene::new(&thetas, &min_angles, &max_angles, half));
            i += 1;
        }
        assert(is_ratio::<B>(1, 2, half));
        Population {
            fitness: fitness,
            size: size,
            generation: 0,
            alpha: None,
            min_err: B::largest(),
            members: first_gen,
        }
    }

    /// The fitness of every member, in member order.
    fn get_scores(&self) -> (result: Result<Vec<B::Scalar>, ChainError>)
        ensures
            match result {
                Ok(scores) => is_scores::<B, F>(self.fitness, self.members@, scores@),
                Err(e) => exists|k: int|
                    #![trigger self.members@[k]]
                    0 <= k < self.members@.len() && is_score::<B, F>(
                        self.fitness,
                        self.members@[k].thetas,
                        Err(e),
                    ),
            },
    {
        let mut scores: Vec<B::Scalar> = Vec::new();
        let mut k: usize = 0;
        while k < self.members.len()
            invariant
                k <= self.members@.len(),
                scores@.len() == k,
                forall|a: int|
                    #![trigger scores@[a]]
                    0 <= a < k ==> is_score::<B, F>(
                        self.fitness,
                        self.members@[a].thetas,
                        Ok(scores@[a]),
                    ),
            decreases self.members@.len() - k,
        {
            match self.fitness.score(&self.members[k].thetas) {
                Err(e) => {
                    return Err(e);
                },
                Ok(score) => {
                    scores.push(score);
                },
            }
            k += 1;
        }
        Ok(scores)
    }

    /// Breeds the next generation.
    pub fn new_generation(&mut self) -> (result: Result<(), ChainError>)
        requires
            old(self).wf(),
            old(self).size > 0,
            old(self).generation < i32::MAX,
        ensures
            final(self).wf(),
            final(self).width() == old(self).width(),
            final(self).size == old(self).size,
            result is Ok ==> final(self).generation == old(self).generation + 1,
            result is Err ==> final(self).generation == old(self).generation,
            Self::is_generation(*old(self), *final(self), result),
    {
        let scores = match self.get_scores() {
            Ok(scores) => scores,
            Err(e) => {
                return Err(e);
            },
        };
        let weights = softmax::<B>(&scores);
        let index = argmax::<B>(&weights);

        let one = B::ratio(1, 1);
        let err = B::over(one, scores[index]);
        let better = B::below(err, self.min_err);
        assert(is_quotient::<B>(one, scores@[index as int], err) && is_below::<B>(
            err,
            self.min_err,
            better,
        ));

        let count = self.members.len();
        let ghost length = self.width();
        let mut new_pop: Vec<Gene<B>> = Vec::new();
        let mut i: usize = 0;
        while i < count
            invariant
                self.wf(),
                *self == *old(self),
                count == self.members@.len(),
                count > 0,
                weights@.len() == count,
                length == self.width(),
                i <= count,
                new_pop@.len() == i,
                forall|k: int|
                    #![trigger new_pop@[k]]
                    0 <= k < i ==> new_pop@[k].wf() && new_pop@[k].thetas@.len() == length
                        && is_child::<B>(self.members@, weights@, new_pop@[k]),
            decreases count - i,
        {
            let first = pick_parent::<B>(&weights);
            let second = pick_parent::<B>(&weights);
            let mut child = match Gene::from_parents(&self.members[first], &self.members[second]) {
                Ok(child) => child,
                Err(e) => {
                    return Err(e);
                },
            };
            child.mutate();
            new_pop.push(child);
            i += 1;
        }
        if better {
            self.alpha = Some(copy_of(&self.members[index].thetas));
            self.min_err = err;
        }
        self.members = new_pop;
        self.generation += 1;
        Ok(())
    }
}

} // verus!
