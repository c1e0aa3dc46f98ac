//! Self- and world-collision queries for a posed arm.
//!
//! Every link of the arm and every obstacle is a box with a bounding sphere.
//! A pair is tested in two phases: the spheres first, and only where they
//! touch the exact distance between the boxes. Obstacles do not move, so
//! their spheres are placed once when the handler is built.
use vstd::prelude::*;
use crate::backend::{
    Backend, is_at_most, is_bounding_sphere, is_cuboid, is_distance, is_identity_pose,
    is_moved_sphere, is_pose_of, is_product, is_quotient, is_ratio, is_touch, is_z_axis, is_z_of,
};
use crate::error::ChainError;
use crate::matrices::{copy_of, is_joint_matrix, is_transform_matrix, joint_matrix, transform_matrix};

verus! {

/// What a collision handler holds, as sequences.
pub struct Colliders<B: Backend> {
    /// For each link, the transform from the link's joint to the box centre.
    pub arm_offsets: Seq<B::Transform>,
    /// For each link, its box.
    pub arm_colliders: Seq<B::Cuboid>,
    /// For each link, the bounding sphere of its box about the box centre.
    pub arm_spheres: Seq<B::Sphere>,
    /// For each obstacle, its fixed transform in the world.
    pub world_offsets: Seq<B::Transform>,
    /// For each obstacle, its fixed pose in the world.
    pub world_poses: Seq<B::Pose>,
    /// For each obstacle, its box.
    pub world_colliders: Seq<B::Cuboid>,
    /// For each obstacle, the bounding sphere of its box in the world.
    pub world_spheres: Seq<B::Sphere>,
}

impl<B: Backend> Colliders<B> {
    /// The number of links of the arm.
    pub open spec fn links(self) -> nat {
        self.arm_colliders.len()
    }

    /// The number of obstacles.
    pub open spec fn obstacles(self) -> nat {
        self.world_colliders.len()
    }

    /// Every per-link sequence has one entry per link and every per-obstacle
    /// sequence one entry per obstacle.
    pub open spec fn wf(self) -> bool {
        &&& self.arm_offsets.len() == self.links()
        &&& self.arm_spheres.len() == self.links()
        &&& self.world_offsets.len() == self.obstacles()
        &&& self.world_poses.len() == self.obstacles()
        &&& self.world_spheres.len() == self.obstacles()
    }
}

/// `m` moves a link's joint frame to the centre of its box: no rotation, and
/// half the box's z extent along z.
pub open spec fn is_arm_offset<B: Backend>(extents: B::Vector, m: B::Transform) -> bool {
    exists|z: B::Scalar, two: B::Scalar, half: B::Scalar, zero: B::Scalar, axis: B::Vector|
        #![trigger is_quotient::<B>(z, two, half), is_joint_matrix::<B>(zero, axis, half, m)]
        is_z_of::<B>(extents, z) && is_ratio::<B>(2, 1, two) && is_quotient::<B>(z, two, half)
            && is_ratio::<B>(0, 1, zero) && is_z_axis::<B>(axis) && is_joint_matrix::<B>(
            zero,
            axis,
            half,
            m,
        )
}

/// `s` is the bounding sphere of a box that sits at its own origin.
pub open spec fn is_local_sphere<B: Backend>(shape: B::Cuboid, s: B::Sphere) -> bool {
    exists|here: B::Pose|
        #![trigger is_bounding_sphere::<B>(shape, here, s)]
        is_identity_pose::<B>(here) && is_bounding_sphere::<B>(shape, here, s)
}

/// `m` places an obstacle: no rotation, translated by `offset`.
pub open spec fn is_world_offset<B: Backend>(offset: B::Vector, m: B::Transform) -> bool {
    exists|zero: B::Scalar, axis: B::Vector|
        #![trigger is_transform_matrix::<B>(zero, axis, offset, m)]
        is_ratio::<B>(0, 1, zero) && is_z_axis::<B>(axis) && is_transform_matrix::<B>(
            zero,
            axis,
            offset,
            m,
        )
}

/// `c` is the collider set for an arm with the given link extents and for
/// the given obstacles: one box, one offset and one local sphere per link;
/// one box, one placement and one sphere already placed in the world per
/// obstacle.
pub open spec fn is_collider_set<B: Backend>(
    arm: Seq<B::Vector>,
    obstacles: Seq<B::Vector>,
    obstacle_offsets: Seq<B::Vector>,
    c: Colliders<B>,
) -> bool {
    &&& c.wf()
    &&& c.links() == arm.len()
    &&& c.obstacles() == obstacles.len()
    &&& obstacle_offsets.len() == obstacles.len()
    &&& forall|i: int|
        #![trigger c.arm_colliders[i]]
        0 <= i < arm.len() ==> is_cuboid::<B>(arm[i], c.arm_colliders[i]) && is_arm_offset::<B>(
            arm[i],
            c.arm_offsets[i],
        ) && is_local_sphere::<B>(c.arm_colliders[i], c.arm_spheres[i])
    &&& forall|j: int|
        #![trigger c.world_colliders[j]]
        0 <= j < obstacles.len() ==> is_cuboid::<B>(obstacles[j], c.world_colliders[j])
            && is_world_offset::<B>(obstacle_offsets[j], c.world_offsets[j]) && is_pose_of::<B>(
            c.world_offsets[j],
            Some(c.world_poses[j]),
        ) && is_bounding_sphere::<B>(c.world_colliders[j], c.world_poses[j], c.world_spheres[j])
}

/// `pose` is the rigid motion of link `i`'s box when the link's joint frame
/// is `mats[i]`.
pub open spec fn is_link_pose<B: Backend>(
    c: Colliders<B>,
    mats: Seq<B::Transform>,
    i: int,
    pose: B::Pose,
) -> bool {
    exists|m: B::Transform|
        #![trigger is_product::<B>(mats[i], c.arm_offsets[i], m)]
        is_product::<B>(mats[i], c.arm_offsets[i], m) && is_pose_of::<B>(m, Some(pose))
}

/// The box of link `i` cannot be placed: its transform is not a rigid
/// motion.
pub open spec fn link_is_not_rigid<B: Backend>(
    c: Colliders<B>,
    mats: Seq<B::Transform>,
    i: int,
) -> bool {
    exists|m: B::Transform|
        #![trigger is_product::<B>(mats[i], c.arm_offsets[i], m)]
        is_product::<B>(mats[i], c.arm_offsets[i], m) && is_pose_of::<B>(m, None)
}

/// `poses` and `spheres` place every link of the arm for the joint frames
/// `mats`.
pub open spec fn is_placement<B: Backend>(
    c: Colliders<B>,
    mats: Seq<B::Transform>,
    poses: Seq<B::Pose>,
    spheres: Seq<B::Sphere>,
) -> bool {
    &&& mats.len() >= c.links()
    &&& poses.len() == c.links()
    &&& spheres.len() == c.links()
    &&& forall|i: int|
        #![trigger poses[i]]
        0 <= i < c.links() ==> is_link_pose::<B>(c, mats, i, poses[i]) && is_moved_sphere::<B>(
            c.arm_spheres[i],
            poses[i],
            spheres[i],
        )
}

/// `e` is the error owed when the arm cannot be placed for `mats`: too few
/// joint frames, or else some link whose transform is not a rigid motion.
pub open spec fn is_placement_error<B: Backend>(
    c: Colliders<B>,
    mats: Seq<B::Transform>,
    e: ChainError,
) -> bool {
    if mats.len() < c.links() {
        e == (ChainError::MissingPose { links: c.links() as usize, poses: mats.len() as usize })
    } else {
        e == ChainError::NotRigid && exists|i: int|
            0 <= i < c.links() && #[trigger] link_is_not_rigid::<B>(c, mats, i)
    }
}

/// `hit` is the verdict of the two-phase test on one pair of placed boxes:
/// no hit where the spheres do not touch, and otherwise a hit exactly when
/// the distance between the boxes is at most zero.
pub open spec fn is_clash<B: Backend>(
    pose_a: B::Pose,
    a: B::Cuboid,
    sphere_a: B::Sphere,
    pose_b: B::Pose,
    b: B::Cuboid,
    sphere_b: B::Sphere,
    hit: bool,
) -> bool {
    exists|touch: bool|
        #![trigger is_touch::<B>(sphere_a, sphere_b, touch)]
        is_touch::<B>(sphere_a, sphere_b, touch) && if touch {
            exists|d: B::Scalar, zero: B::Scalar|
                #![trigger is_at_most::<B>(d, zero, hit)]
                is_distance::<B>(pose_a, a, pose_b, b, d) && is_ratio::<B>(0, 1, zero)
                    && is_at_most::<B>(d, zero, hit)
        } else {
            !hit
        }
}

/// `hit` is the verdict on links `i` and `j` of the placed arm.
pub open spec fn is_self_clash<B: Backend>(
    c: Colliders<B>,
    poses: Seq<B::Pose>,
    spheres: Seq<B::Sphere>,
    i: int,
    j: int,
    hit: bool,
) -> bool {
    is_clash::<B>(
        poses[i],
        c.arm_colliders[i],
        spheres[i],
        poses[j],
        c.arm_colliders[j],
        spheres[j],
        hit,
    )
}

/// `hit` is the verdict on link `i` of the placed arm and obstacle `j`. The
/// obstacle's pose and sphere are the ones stored in the collider set.
pub open spec fn is_world_clash<B: Backend>(
    c: Colliders<B>,
    poses: Seq<B::Pose>,
    spheres: Seq<B::Sphere>,
    i: int,
    j: int,
    hit: bool,
) -> bool {
    is_clash::<B>(
        poses[i],
        c.arm_colliders[i],
        spheres[i],
        c.world_poses[j],
        c.world_colliders[j],
        c.world_spheres[j],
        hit,
    )
}

/// Links `i` and `j` are tested against each other: `i` comes first and at
/// least one link lies between them.
pub open spec fn apart(i: int, j: int, links: int) -> bool {
    0 <= i && i + 1 < j && j < links
}

/// `hits` is a table of verdicts with one row and one column per link.
pub open spec fn is_self_table(hits: Seq<Seq<bool>>, links: int) -> bool {
    &&& hits.len() == links
    &&& forall|i: int| 0 <= i < links ==> (#[trigger] hits[i]).len() == links
}

/// Link `k` takes part in a hit recorded in `hits`, as the first or as the
/// second link of a tested pair.
pub open spec fn in_self_hit(hits: Seq<Seq<bool>>, k: int, links: int) -> bool {
    exists|other: int|
        #![trigger apart(k, other, links)]
        #![trigger apart(other, k, links)]
        (apart(k, other, links) && hits[k][other]) || (apart(other, k, links) && hits[other][k])
}

/// `marks` flags exactly the links that collide with another link of the
/// placed arm. Only pairs with a link between them are tested; neighbours
/// are never flagged on each other's account.
pub open spec fn is_self_report<B: Backend>(
    c: Colliders<B>,
    poses: Seq<B::Pose>,
    spheres: Seq<B::Sphere>,
    marks: Seq<bool>,
) -> bool {
    exists|hits: Seq<Seq<bool>>|
        #![trigger is_self_table(hits, c.links() as int)]
        {
            &&& is_self_table(hits, c.links() as int)
            &&& marks.len() == c.links()
            &&& forall|i: int, j: int|
                #![trigger hits[i][j]]
                apart(i, j, c.links() as int) ==> is_self_clash::<B>(
                    c,
                    poses,
                    spheres,
                    i,
                    j,
                    hits[i][j],
                )
            &&& forall|k: int|
                0 <= k < c.links() ==> (#[trigger] marks[k] <==> in_self_hit(
                    hits,
                    k,
                    c.links() as int,
                ))
        }
}

/// `hits` is a table of verdicts with one row per link and one column per
/// obstacle.
pub open spec fn is_world_table(hits: Seq<Seq<bool>>, links: int, obstacles: int) -> bool {
    &&& hits.len() == links
    &&& forall|i: int| 0 <= i < links ==> (#[trigger] hits[i]).len() == obstacles
}

/// Link `k` hits some obstacle according to `hits`.
pub open spec fn in_world_hit(hits: Seq<Seq<bool>>, k: int, obstacles: int) -> bool {
    exists|j: int| 0 <= j < obstacles && #[trigger] hits[k][j]
}

/// `marks` flags exactly the links of the placed arm that collide with an
/// obstacle.
pub open spec fn is_world_report<B: Backend>(
    c: Colliders<B>,
    poses: Seq<B::Pose>,
    spheres: Seq<B::Sphere>,
    marks: Seq<bool>,
) -> bool {
    exists|hits: Seq<Seq<bool>>|
        #![trigger is_world_table(hits, c.links() as int, c.obstacles() as int)]
        {
            &&& is_world_table(hits, c.links() as int, c.obstacles() as int)
            &&& marks.len() == c.links()
            &&& forall|i: int, j: int|
                #![trigger hits[i][j]]
                0 <= i < c.links() && 0 <= j < c.obstacles() ==> is_world_clash::<B>(
                    c,
                    poses,
                    spheres,
                    i,
                    j,
                    hits[i][j],
                )
            &&& forall|k: int|
                0 <= k < c.links() ==> (#[trigger] marks[k] <==> in_world_hit(
                    hits,
                    k,
                    c.obstacles() as int,
                ))
        }
}

/// The answer to "does any tested pair of links collide": a hit on one pair
/// if `found`, a miss on every pair otherwise. The tested pairs are those
/// with a link between them, the first before position `split` and the second
/// at or after it.
pub open spec fn is_self_answer<B: Backend>(
    c: Colliders<B>,
    poses: Seq<B::Pose>,
    spheres: Seq<B::Sphere>,
    split: int,
    found: bool,
) -> bool {
    if found {
        exists|i: int, j: int|
            #![trigger is_self_clash::<B>(c, poses, spheres, i, j, true)]
            apart(i, j, c.links() as int) && i < split <= j && is_self_clash::<B>(
                c,
                poses,
                spheres,
                i,
                j,
                true,
            )
    } else {
        forall|i: int, j: int|
            #![trigger is_self_clash::<B>(c, poses, spheres, i, j, false)]
            apart(i, j, c.links() as int) && i < split <= j ==> is_self_clash::<B>(
                c,
                poses,
                spheres,
                i,
                j,
                false,
            )
    }
}

/// The answer to "does any pair of links collide" with no split: every pair
/// with a link between them is tested.
pub open spec fn is_self_answer_naive<B: Backend>(
    c: Colliders<B>,
    poses: Seq<B::Pose>,
    spheres: Seq<B::Sphere>,
    found: bool,
) -> bool {
    if found {
        exists|i: int, j: int|
            #![trigger is_self_clash::<B>(c, poses, spheres, i, j, true)]
            apart(i, j, c.links() as int) && is_self_clash::<B>(c, poses, spheres, i, j, true)
    } else {
        forall|i: int, j: int|
            #![trigger is_self_clash::<B>(c, poses, spheres, i, j, false)]
            apart(i, j, c.links() as int) ==> is_self_clash::<B>(c, poses, spheres, i, j, false)
    }
}

/// The answer to "does any link from position `first` on hit an obstacle": a
/// hit on one link and obstacle if `found`, a miss on every such pair
/// otherwise.
pub open spec fn is_world_answer<B: Backend>(
    c: Colliders<B>,
    poses: Seq<B::Pose>,
    spheres: Seq<B::Sphere>,
    first: int,
    found: bool,
) -> bool {
    if found {
        exists|i: int, j: int|
            #![trigger is_world_clash::<B>(c, poses, spheres, i, j, true)]
            0 <= first <= i < c.links() && 0 <= j < c.obstacles() && is_world_clash::<B>(
                c,
                poses,
                spheres,
                i,
                j,
                true,
            )
    } else {
        forall|i: int, j: int|
            #![trigger is_world_clash::<B>(c, poses, spheres, i, j, false)]
            0 <= first <= i < c.links() && 0 <= j < c.obstacles() ==> is_world_clash::<B>(
                c,
                poses,
                spheres,
                i,
                j,
                false,
            )
    }
}

/// Recording the verdict of one more pair of links changes who takes part
/// in a hit only for the two links of that pair, and only if the verdict is
/// a hit.
proof fn lemma_record_self_hit(hits: Seq<Seq<bool>>, links: int, i: int, j: int, hit: bool, k: int)
    requires
        is_self_table(hits, links),
        apart(i, j, links),
        !hits[i][j],
    ensures
        is_self_table(hits.update(i, hits[i].update(j, hit)), links),
        in_self_hit(hits.update(i, hits[i].update(j, hit)), k, links) <==> (in_self_hit(
            hits,
            k,
            links,
        ) || (hit && (k == i || k == j))),
{
}

/// Recording the verdict of one more link and obstacle changes who hits an
/// obstacle only for that link, and only if the verdict is a hit.
proof fn lemma_record_world_hit(
    hits: Seq<Seq<bool>>,
    links: int,
    obstacles: int,
    i: int,
    j: int,
    hit: bool,
    k: int,
)
    requires
        is_world_table(hits, links, obstacles),
        0 <= i < links,
        0 <= j < obstacles,
        0 <= k < links,
        !hits[i][j],
    ensures
        is_world_table(hits.update(i, hits[i].update(j, hit)), links, obstacles),
        in_world_hit(hits.update(i, hits[i].update(j, hit)), k, obstacles) <==> (in_world_hit(
            hits,
            k,
            obstacles,
        ) || (hit && k == i)),
{
    let after = hits.update(i, hits[i].update(j, hit));
    assert(is_world_table(after, links, obstacles)) by {
        assert forall|a: int| 0 <= a < links implies (#[trigger] after[a]).len() == obstacles by {
            if a == i {
                assert(after[a] == hits[i].update(j, hit));
            } else {
                assert(after[a] == hits[a]);
            }
        }
    }
    assert forall|a: int, b: int| 0 <= a < links && 0 <= b < obstacles && !(a == i && b == j) implies
        after[a][b] == hits[a][b] by {
        if a == i {
            assert(after[a] == hits[i].update(j, hit));
        } else {
            assert(after[a] == hits[a]);
        }
    }
    assert(after[i][j] == hit);
    if in_world_hit(after, k, obstacles) {
        let b = choose|b: int| 0 <= b < obstacles && #[trigger] after[k][b];
        if !(k == i && b == j) {
            assert(hits[k][b]);
        }
    }
    if in_world_hit(hits, k, obstacles) {
        let b = choose|b: int| 0 <= b < obstacles && #[trigger] hits[k][b];
        assert(after[k][b]);
    }
    if hit && k == i {
        assert(after[k][j]);
    }
}

/// A vector of `n` flags, none of them set.
fn no_marks(n: usize) -> (marks: Vec<bool>)
    ensures
        marks.len() == n,
        forall|k: int| 0 <= k < n ==> !marks[k],
{
    let mut marks: Vec<bool> = Vec::new();
    let mut k: usize = 0;
    while k < n
        invariant
            k <= n,
            marks.len() == k,
            forall|a: int| 0 <= a < k ==> !marks[a],
        decreases n - k,
    {
        marks.push(false);
        k += 1;
    }
    marks
}

/// `result` is what the split self-collision query owes for the joint frames
/// `mats`: an answer over some placement of the arm, or the error of a
/// placement that failed.
pub open spec fn is_self_query<B: Backend>(
    c: Colliders<B>,
    index: int,
    mats: Seq<B::Transform>,
    result: Result<bool, ChainError>,
) -> bool {
    match result {
        Ok(found) => exists|poses: Seq<B::Pose>, spheres: Seq<B::Sphere>|
            #![trigger is_placement::<B>(c, mats, poses, spheres)]
            is_placement::<B>(c, mats, poses, spheres) && is_self_answer::<B>(
                c,
                poses,
                spheres,
                index,
                found,
            ),
        Err(e) => is_placement_error::<B>(c, mats, e),
    }
}

/// `result` is what the self-collision query over all pairs owes for the
/// joint frames `mats`.
pub open spec fn is_self_query_naive<B: Backend>(
    c: Colliders<B>,
    mats: Seq<B::Transform>,
    result: Result<bool, ChainError>,
) -> bool {
    match result {
        Ok(found) => exists|poses: Seq<B::Pose>, spheres: Seq<B::Sphere>|
            #![trigger is_placement::<B>(c, mats, poses, spheres)]
            is_placement::<B>(c, mats, poses, spheres) && is_self_answer_naive::<B>(
                c,
                poses,
                spheres,
                found,
            ),
        Err(e) => is_placement_error::<B>(c, mats, e),
    }
}

/// `result` is what the world-collision query from link `first` on owes for
/// the joint frames `mats`.
pub open spec fn is_world_query<B: Backend>(
    c: Colliders<B>,
    first: int,
    mats: Seq<B::Transform>,
    result: Result<bool, ChainError>,
) -> bool {
    match result {
        Ok(found) => exists|poses: Seq<B::Pose>, spheres: Seq<B::Sphere>|
            #![trigger is_placement::<B>(c, mats, poses, spheres)]
            is_placement::<B>(c, mats, poses, spheres) && is_world_answer::<B>(
                c,
                poses,
                spheres,
                first,
                found,
            ),
        Err(e) => is_placement_error::<B>(c, mats, e),
    }
}

/// `result` is what the per-link self-collision report owes for the joint
/// frames `mats`.
pub open spec fn is_self_survey<B: Backend>(
    c: Colliders<B>,
    mats: Seq<B::Transform>,
    result: Result<Vec<bool>, ChainError>,
) -> bool {
    match result {
        Ok(marks) => exists|poses: Seq<B::Pose>, spheres: Seq<B::Sphere>|
            #![trigger is_placement::<B>(c, mats, poses, spheres)]
            is_placement::<B>(c, mats, poses, spheres) && is_self_report::<B>(
                c,
                poses,
                spheres,
                marks@,
            ),
        Err(e) => is_placement_error::<B>(c, mats, e),
    }
}

/// `result` is what the per-link world-collision report owes for the joint
/// frames `mats`.
pub open spec fn is_world_survey<B: Backend>(
    c: Colliders<B>,
    mats: Seq<B::Transform>,
    result: Result<Vec<bool>, ChainError>,
) -> bool {
    match result {
        Ok(marks) => exists|poses: Seq<B::Pose>, spheres: Seq<B::Sphere>|
            #![trigger is_placement::<B>(c, mats, poses, spheres)]
            is_placement::<B>(c, mats, poses, spheres) && is_world_report::<B>(
                c,
                poses,
                spheres,
                marks@,
            ),
        Err(e) => is_placement_error::<B>(c, mats, e),
    }
}

/// The two-phase test on one pair of placed boxes.
fn clash<B: Backend>(
    pose_a: B::Pose,
    a: B::Cuboid,
    sphere_a: B::Sphere,
    pose_b: B::Pose,
    b: B::Cuboid,
    sphere_b: B::Sphere,
) -> (hit: bool)
    ensures
        is_clash::<B>(pose_a, a, sphere_a, pose_b, b, sphere_b, hit),
{
    let touch = B::spheres_touch(sphere_a, sphere_b);
    assert(is_touch::<B>(sphere_a, sphere_b, touch));
    if touch {
        let d = B::distance(pose_a, a, pose_b, b);
        let zero = B::ratio(0, 1);
        let hit = B::at_most(d, zero);
        assert(is_at_most::<B>(d, zero, hit));
        hit
    } else {
        false
    }
}

/// The collider set of one arm and the static obstacles around it.
pub struct CollisionHandler<B: Backend> {
    arm_offsets: Vec<B::Transform>,
    arm_colliders: Vec<B::Cuboid>,
    arm_spheres: Vec<B::Sphere>,
    world_offsets: Vec<B::Transform>,
    world_poses: Vec<B::Pose>,
    world_colliders: Vec<B::Cuboid>,
    world_spheres: Vec<B::Sphere>,
}

impl<B: Backend> View for CollisionHandler<B> {
    type V = Colliders<B>;

    closed spec fn view(&self) -> Colliders<B> {
        Colliders {
            arm_offsets: self.arm_offsets@,
            arm_colliders: self.arm_colliders@,
            arm_spheres: self.arm_spheres@,
            world_offsets: self.world_offsets@,
            world_poses: self.world_poses@,
            world_colliders: self.world_colliders@,
            world_spheres: self.world_spheres@,
        }
    }
}

impl<B: Backend> Clone for CollisionHandler<B> {
    fn clone(&self) -> (copy: Self)
        ensures
            copy@ == self@,
    {
        proof {
            use_type_invariant(self);
        }
        CollisionHandler {
            arm_offsets: copy_of(&self.arm_offsets),
            arm_colliders: copy_of(&self.arm_colliders),
            arm_spheres: copy_of(&self.arm_spheres),
            world_offsets: copy_of(&self.world_offsets),
            world_poses: copy_of(&self.world_poses),
            world_colliders: copy_of(&self.world_colliders),
            world_spheres: copy_of(&self.world_spheres),
        }
    }
}

impl<B: Backend> CollisionHandler<B> {
    /// The shape invariant of the handler: see [`Colliders::wf`].
    #[verifier::type_invariant]
    spec fn inv(self) -> bool {
        self@.wf()
    }

    /// Builds the collider set for an arm whose links have the half extents
    /// `arm` and for obstacles with the half extents `obstacles`, obstacle
    /// `j` translated by `obstacle_offsets[j]`.
    ///
    /// Refuses obstacle sequences of unequal length, and an obstacle whose
    /// placement is not a rigid motion.
    #[verifier::loop_isolation(false)]
    pub fn new(
        arm: &Vec<B::Vector>,
        obstacles: &Vec<B::Vector>,
        obstacle_offsets: &Vec<B::Vector>,
    ) -> (result: Result<CollisionHandler<B>, ChainError>)
        ensures
            obstacles.len() != obstacle_offsets.len() <==> result == Err::<
                CollisionHandler<B>,
                ChainError,
            >(
                ChainError::ObstacleMismatch {
                    obstacles: obstacles.len(),
                    offsets: obstacle_offsets.len(),
                },
            ),
            match result {
                Ok(handler) => is_collider_set::<B>(
                    arm@,
                    obstacles@,
                    obstacle_offsets@,
                    handler@,
                ),
                Err(e) => obstacles.len() == obstacle_offsets.len() ==> e == ChainError::NotRigid
                    && exists|j: int, m: B::Transform|
                        #![trigger is_world_offset::<B>(obstacle_offsets[j], m)]
                        0 <= j < obstacles.len() && is_world_offset::<B>(obstacle_offsets[j], m)
                            && is_pose_of::<B>(m, None),
            },
    {
        if obstacles.len() != obstacle_offsets.len() {
            return Err(
                ChainError::ObstacleMismatch {
                    obstacles: obstacles.len(),
                    offsets: obstacle_offsets.len(),
                },
            );
        }
        let here = B::identity_pose();
        let zero = B::ratio(0, 1);
        let axis = B::z_axis();
        let two = B::ratio(2, 1);

        let mut arm_offsets: Vec<B::Transform> = Vec::new();
        let mut arm_colliders: Vec<B::Cuboid> = Vec::new();
        let mut arm_spheres: Vec<B::Sphere> = Vec::new();
        let mut i: usize = 0;
        while i < arm.len()
            invariant
                i <= arm.len(),
                is_identity_pose::<B>(here),
                is_ratio::<B>(0, 1, zero),
                is_ratio::<B>(2, 1, two),
                is_z_axis::<B>(axis),
                arm_offsets.len() == i,
                arm_colliders.len() == i,
                arm_spheres.len() == i,
                forall|k: int|
                    #![trigger arm_colliders[k]]
                    0 <= k < i ==> is_cuboid::<B>(arm[k], arm_colliders[k]) && is_arm_offset::<B>(
                        arm[k],
                        arm_offsets[k],
                    ) && is_local_sphere::<B>(arm_colliders[k], arm_spheres[k]),
            decreases arm.len() - i,
        {
            let shape = B::cuboid(arm[i]);
            let sphere = B::bounding_sphere(shape, here);
            let z = B::z_of(arm[i]);
            let half = B::over(z, two);
            let offset = joint_matrix::<B>(zero, &axis, half);
            assert(is_bounding_sphere::<B>(shape, here, sphere));
            assert(is_quotient::<B>(z, two, half) && is_joint_matrix::<B>(zero, axis, half, offset));
            arm_colliders.push(shape);
            arm_spheres.push(sphere);
            arm_offsets.push(offset);
            i += 1;
        }

        let mut world_offsets: Vec<B::Transform> = Vec::new();
        let mut world_poses: Vec<B::Pose> = Vec::new();
        let mut world_colliders: Vec<B::Cuboid> = Vec::new();
        let mut world_spheres: Vec<B::Sphere> = Vec::new();
        let mut j: usize = 0;
        while j < obstacles.len()
            invariant
                j <= obstacles.len(),
                obstacles.len() == obstacle_offsets.len(),
                is_ratio::<B>(0, 1, zero),
                is_z_axis::<B>(axis),
                world_offsets.len() == j,
                world_poses.len() == j,
                world_colliders.len() == j,
                world_spheres.len() == j,
                forall|k: int|
                    #![trigger world_colliders[k]]
                    0 <= k < j ==> is_cuboid::<B>(obstacles[k], world_colliders[k])
                        && is_world_offset::<B>(obstacle_offsets[k], world_offsets[k])
                        && is_pose_of::<B>(world_offsets[k], Some(world_poses[k]))
                        && is_bounding_sphere::<B>(
                        world_colliders[k],
                        world_poses[k],
                        world_spheres[k],
                    ),
            decreases obstacles.len() - j,
        {
            let shape = B::cuboid(obstacles[j]);
            let offset = transform_matrix::<B>(zero, &axis, &obstacle_offsets[j]);
            assert(is_world_offset::<B>(obstacle_offsets[j as int], offset));
            match B::to_pose(offset) {
                None => {
                    return Err(ChainError::NotRigid);
                },
                Some(pose) => {
                    let sphere = B::bounding_sphere(shape, pose);
                    world_colliders.push(shape);
                    world_offsets.push(offset);
                    world_poses.push(pose);
                    world_spheres.push(sphere);
                },
            }
            j += 1;
        }
        Ok(
            CollisionHandler {
                arm_offsets,
                arm_colliders,
                arm_spheres,
                world_offsets,
                world_poses,
                world_colliders,
                world_spheres,
            },
        )
    }

    /// The number of links of the arm.
    pub fn links(&self) -> (n: usize)
        ensures
            n == self@.links(),
            self@.wf(),
    {
        proof {
            use_type_invariant(self);
        }
        self.arm_colliders.len()
    }

    /// The number of obstacles.
    pub fn obstacles(&self) -> (n: usize)
        ensures
            n == self@.obstacles(),
            self@.wf(),
    {
        proof {
            use_type_invariant(self);
        }
        self.world_colliders.len()
    }

    /// Places every link of the arm for the joint frames `matrices`.
    fn place(&self, matrices: &Vec<B::Transform>) -> (result: Result<
        (Vec<B::Pose>, Vec<B::Sphere>),
        ChainError,
    >)
        ensures
            self@.wf(),
            match result {
                Ok((poses, spheres)) => is_placement::<B>(self@, matrices@, poses@, spheres@),
                Err(e) => is_placement_error::<B>(self@, matrices@, e),
            },
    {
        proof {
            use_type_invariant(self);
        }
        let links = self.arm_colliders.len();
        if matrices.len() < links {
            return Err(ChainError::MissingPose { links: links, poses: matrices.len() });
        }
        let mut poses: Vec<B::Pose> = Vec::new();
        let mut spheres: Vec<B::Sphere> = Vec::new();
        let mut i: usize = 0;
        while i < links
            invariant
                self@.wf(),
                links == self@.links(),
                matrices.len() >= links,
                i <= links,
                poses.len() == i,
                spheres.len() == i,
                forall|k: int|
                    #![trigger poses[k]]
                    0 <= k < i ==> is_link_pose::<B>(self@, matrices@, k, poses[k])
                        && is_moved_sphere::<B>(self@.arm_spheres[k], poses[k], spheres[k]),
            decreases links - i,
        {
            let m = B::compose(matrices[i], self.arm_offsets[i]);
            assert(is_product::<B>(matrices@[i as int], self@.arm_offsets[i as int], m));
            match B::to_pose(m) {
                None => {
                    assert(link_is_not_rigid::<B>(self@, matrices@, i as int));
                    return Err(ChainError::NotRigid);
                },
                Some(pose) => {
                    let sphere = B::moved_sphere(self.arm_spheres[i], pose);
                    poses.push(pose);
                    spheres.push(sphere);
                },
            }
            i += 1;
        }
        Ok((poses, spheres))
    }

    /// Whether a link before position `index` collides with a link at or
    /// after it, for the joint frames `matrices`. Links on the same side of
    /// the split are not tested against each other, and neither are
    /// neighbours.
    pub fn is_arm_colliding_self(&self, index: usize, matrices: &Vec<B::Transform>) -> (result:
        Result<bool, ChainError>)
        ensures
            is_self_query::<B>(self@, index as int, matrices@, result),
    {
        let (poses, spheres) = match self.place(matrices) {
            Ok(placed) => placed,
            Err(e) => {
                return Err(e);
            },
        };
        let links = self.arm_colliders.len();
        let mut i: usize = 0;
        while i < index && i < links
            invariant
                self@.wf(),
                is_placement::<B>(self@, matrices@, poses@, spheres@),
                links == self@.links(),
                poses.len() == links,
                spheres.len() == links,
                i <= links,
                forall|a: int, b: int|
                    #![trigger is_self_clash::<B>(self@, poses@, spheres@, a, b, false)]
                    apart(a, b, links as int) && a < i && index <= b ==> is_self_clash::<B>(
                        self@,
                        poses@,
                        spheres@,
                        a,
                        b,
                        false,
                    ),
            decreases links - i,
        {
            let mut j: usize = index;
            while j < links
                invariant
                    self@.wf(),
                    is_placement::<B>(self@, matrices@, poses@, spheres@),
                is_placement::<B>(self@, matrices@, poses@, spheres@),
                    links == self@.links(),
                    poses.len() == links,
                    spheres.len() == links,
                    i < index <= j,
                    i < links,
                    forall|b: int|
                        #![trigger is_self_clash::<B>(self@, poses@, spheres@, i as int, b, false)]
                        apart(i as int, b, links as int) && index <= b < j ==> is_self_clash::<B>(
                            self@,
                            poses@,
                            spheres@,
                            i as int,
                            b,
                            false,
                        ),
                decreases links - j,
            {
                if j - i > 1 {
                    let hit = clash::<B>(
                        poses[i],
                        self.arm_colliders[i],
                        spheres[i],
                        poses[j],
                        self.arm_colliders[j],
                        spheres[j],
                    );
                    assert(is_self_clash::<B>(self@, poses@, spheres@, i as int, j as int, hit));
                    if hit {
                        return Ok(true);
                    }
                }
                j += 1;
            }
            i += 1;
        }
        Ok(false)
    }

    /// Whether any two links with a link between them collide, for the
    /// joint frames `matrices`.
    pub fn is_arm_colliding_self_naive(&self, matrices: &Vec<B::Transform>) -> (result: Result<
        bool,
        ChainError,
    >)
        ensures
            is_self_query_naive::<B>(self@, matrices@, result),
    {
        let (poses, spheres) = match self.place(matrices) {
            Ok(placed) => placed,
            Err(e) => {
                return Err(e);
            },
        };
        let links = self.arm_colliders.len();
        let mut i: usize = 0;
        while i < links
            invariant
                self@.wf(),
                is_placement::<B>(self@, matrices@, poses@, spheres@),
                links == self@.links(),
                poses.len() == links,
                spheres.len() == links,
                i <= links,
                forall|a: int, b: int|
                    #![trigger is_self_clash::<B>(self@, poses@, spheres@, a, b, false)]
                    apart(a, b, links as int) && a < i ==> is_self_clash::<B>(
                        self@,
                        poses@,
                        spheres@,
                        a,
                        b,
                        false,
                    ),
            decreases links - i,
        {
            let mut j: usize = i;
            while j < links
                invariant
                    self@.wf(),
                    is_placement::<B>(self@, matrices@, poses@, spheres@),
                is_placement::<B>(self@, matrices@, poses@, spheres@),
                    links == self@.links(),
                    poses.len() == links,
                    spheres.len() == links,
                    i <= j,
                    i < links,
                    forall|b: int|
                        #![trigger is_self_clash::<B>(self@, poses@, spheres@, i as int, b, false)]
                        apart(i as int, b, links as int) && b < j ==> is_self_clash::<B>(
                            self@,
                            poses@,
                            spheres@,
                            i as int,
                            b,
                            false,
                        ),
                decreases links - j,
            {
                if j - i > 1 {
                    let hit = clash::<B>(
                        poses[i],
                        self.arm_colliders[i],
                        spheres[i],
                        poses[j],
                        self.arm_colliders[j],
                        spheres[j],
                    );
                    assert(is_self_clash::<B>(self@, poses@, spheres@, i as int, j as int, hit));
                    if hit {
                        return Ok(true);
                    }
                }
                j += 1;
            }
            i += 1;
        }
        Ok(false)
    }

    /// For each link, whether it collides with another link that is not its
    /// neighbour, for the joint frames `matrices`.
    pub fn find_arm_collisions_self(&self, matrices: &Vec<B::Transform>) -> (result: Result<
        Vec<bool>,
        ChainError,
    >)
        ensures
            is_self_survey::<B>(self@, matrices@, result),
    {
        let (poses, spheres) = match self.place(matrices) {
            Ok(placed) => placed,
            Err(e) => {
                return Err(e);
            },
        };
        let links = self.arm_colliders.len();
        let mut marks = no_marks(links);
        let ghost mut hits: Seq<Seq<bool>> = Seq::new(
            links as nat,
            |a: int| Seq::new(links as nat, |b: int| false),
        );
        assert forall|k: int| 0 <= k < links implies !in_self_hit(hits, k, links as int) by {
            assert forall|other: int| !(apart(k, other, links as int) && hits[k][other]) && !(apart(
                other,
                k,
                links as int,
            ) && hits[other][k]) by {}
        }
        let mut i: usize = 0;
        while i < links
            invariant
                self@.wf(),
                links == self@.links(),
                poses.len() == links,
                spheres.len() == links,
                marks.len() == links,
                i <= links,
                is_self_table(hits, links as int),
                forall|a: int, b: int|
                    #![trigger hits[a][b]]
                    apart(a, b, links as int) && a < i ==> is_self_clash::<B>(
                        self@,
                        poses@,
                        spheres@,
                        a,
                        b,
                        hits[a][b],
                    ),
                forall|a: int, b: int|
                    #![trigger hits[a][b]]
                    i <= a < links && 0 <= b < links ==> !hits[a][b],
                forall|k: int|
                    0 <= k < links ==> (#[trigger] marks[k] <==> in_self_hit(hits, k, links as int)),
            decreases links - i,
        {
            let mut j: usize = i;
            while j < links
                invariant
                    self@.wf(),
                    links == self@.links(),
                    poses.len() == links,
                    spheres.len() == links,
                    marks.len() == links,
                    i <= j,
                    i < links,
                    is_self_table(hits, links as int),
                    forall|a: int, b: int|
                        #![trigger hits[a][b]]
                        apart(a, b, links as int) && (a < i || (a == i && b < j))
                            ==> is_self_clash::<B>(self@, poses@, spheres@, a, b, hits[a][b]),
                    forall|a: int, b: int|
                        #![trigger hits[a][b]]
                        0 <= b < links && (i < a < links || (a == i && j <= b)) ==> !hits[a][b],
                    forall|k: int|
                        0 <= k < links ==> (#[trigger] marks[k] <==> in_self_hit(
                            hits,
                            k,
                            links as int,
                        )),
                decreases links - j,
            {
                if j - i > 1 {
                    let hit = clash::<B>(
                        poses[i],
                        self.arm_colliders[i],
                        spheres[i],
                        poses[j],
                        self.arm_colliders[j],
                        spheres[j],
                    );
                    let ghost before = hits;
                    proof {
                        hits = before.update(i as int, before[i as int].update(j as int, hit));
                        assert forall|k: int| 0 <= k < links implies (in_self_hit(
                            hits,
                            k,
                            links as int,
                        ) <==> (in_self_hit(before, k, links as int) || (hit && (k == i || k
                            == j)))) by {
                            lemma_record_self_hit(before, links as int, i as int, j as int, hit, k);
                        }
                        lemma_record_self_hit(before, links as int, i as int, j as int, hit, 0);
                        assert forall|a: int, b: int|
                            0 <= a < links && 0 <= b < links && !(a == i && b == j) implies hits[a][b]
                            == before[a][b] by {
                            if a == i {
                                assert(hits[a] == before[i as int].update(j as int, hit));
                            } else {
                                assert(hits[a] == before[a]);
                            }
                        }
                    }
                    if hit {
                        marks.set(i, true);
                        marks.set(j, true);
                    }
                }
                j += 1;
            }
            i += 1;
        }
        Ok(marks)
    }

    /// Whether a link at or after position `index` collides with an
    /// obstacle, for the joint frames `matrices`.
    pub fn is_arm_colliding_world(&self, index: usize, matrices: &Vec<B::Transform>) -> (result:
        Result<bool, ChainError>)
        ensures
            is_world_query::<B>(self@, index as int, matrices@, result),
    {
        let (poses, spheres) = match self.place(matrices) {
            Ok(placed) => placed,
            Err(e) => {
                return Err(e);
            },
        };
        let links = self.arm_colliders.len();
        let obstacles = self.world_colliders.len();
        let mut i: usize = index;
        while i < links
            invariant
                self@.wf(),
                is_placement::<B>(self@, matrices@, poses@, spheres@),
                links == self@.links(),
                obstacles == self@.obstacles(),
                poses.len() == links,
                spheres.len() == links,
                index <= i,
                forall|a: int, b: int|
                    #![trigger is_world_clash::<B>(self@, poses@, spheres@, a, b, false)]
                    index <= a < i && a < links && 0 <= b < obstacles ==> is_world_clash::<B>(
                        self@,
                        poses@,
                        spheres@,
                        a,
                        b,
                        false,
                    ),
            decreases links - i,
        {
            let mut j: usize = 0;
            while j < obstacles
                invariant
                    self@.wf(),
                    is_placement::<B>(self@, matrices@, poses@, spheres@),
                is_placement::<B>(self@, matrices@, poses@, spheres@),
                    links == self@.links(),
                    obstacles == self@.obstacles(),
                    poses.len() == links,
                    spheres.len() == links,
                    index <= i < links,
                    j <= obstacles,
                    forall|b: int|
                        #![trigger is_world_clash::<B>(self@, poses@, spheres@, i as int, b, false)]
                        0 <= b < j ==> is_world_clash::<B>(
                            self@,
                            poses@,
                            spheres@,
                            i as int,
                            b,
                            false,
                        ),
                decreases obstacles - j,
            {
                let hit = clash::<B>(
                    poses[i],
                    self.arm_colliders[i],
                    spheres[i],
                    self.world_poses[j],
                    self.world_colliders[j],
                    self.world_spheres[j],
                );
                assert(is_world_clash::<B>(self@, poses@, spheres@, i as int, j as int, hit));
                if hit {
                    return Ok(true);
                }
                j += 1;
            }
            i += 1;
        }
        Ok(false)
    }

    /// Whether any link collides with an obstacle, for the joint frames
    /// `matrices`.
    pub fn is_arm_colliding_world_naive(&self, matrices: &Vec<B::Transform>) -> (result: Result<
        bool,
        ChainError,
    >)
        ensures
            is_world_query::<B>(self@, 0, matrices@, result),
    {
        self.is_arm_colliding_world(0, matrices)
    }

    /// For each link, whether it collides with an obstacle, for the joint
    /// frames `matrices`.
    pub fn find_arm_collisions_world(&self, matrices: &Vec<B::Transform>) -> (result: Result<
        Vec<bool>,
        ChainError,
    >)
        ensures
            is_world_survey::<B>(self@, matrices@, result),
    {
        let (poses, spheres) = match self.place(matrices) {
            Ok(placed) => placed,
            Err(e) => {
                return Err(e);
            },
        };
        let links = self.arm_colliders.len();
        let obstacles = self.world_colliders.len();
        let mut marks = no_marks(links);
        let ghost mut hits: Seq<Seq<bool>> = Seq::new(
            links as nat,
            |a: int| Seq::new(obstacles as nat, |b: int| false),
        );
        let mut i: usize = 0;
        while i < links
            invariant
                self@.wf(),
                links == self@.links(),
                obstacles == self@.obstacles(),
                poses.len() == links,
                spheres.len() == links,
                marks.len() == links,
                i <= links,
                is_world_table(hits, links as int, obstacles as int),
                forall|a: int, b: int|
                    #![trigger hits[a][b]]
                    0 <= a < i && 0 <= b < obstacles ==> is_world_clash::<B>(
                        self@,
                        poses@,
                        spheres@,
                        a,
                        b,
                        hits[a][b],
                    ),
                forall|a: int, b: int|
                    #![trigger hits[a][b]]
                    i <= a < links && 0 <= b < obstacles ==> !hits[a][b],
                forall|k: int|
                    0 <= k < links ==> (#[trigger] marks[k] <==> in_world_hit(
                        hits,
                        k,
                        obstacles as int,
                    )),
            decreases links - i,
        {
            let mut j: usize = 0;
            while j < obstacles
                invariant
                    self@.wf(),
                    links == self@.links(),
                    obstacles == self@.obstacles(),
                    poses.len() == links,
                    spheres.len() == links,
                    marks.len() == links,
                    i < links,
                    j <= obstacles,
                    is_world_table(hits, links as int, obstacles as int),
                    forall|a: int, b: int|
                        #![trigger hits[a][b]]
                        0 <= a < links && 0 <= b < obstacles && (a < i || (a == i && b < j))
                            ==> is_world_clash::<B>(self@, poses@, spheres@, a, b, hits[a][b]),
                    forall|a: int, b: int|
                        #![trigger hits[a][b]]
                        0 <= b < obstacles && (i < a < links || (a == i && j <= b)) ==> !hits[a][b],
                    forall|k: int|
                        0 <= k < links ==> (#[trigger] marks[k] <==> in_world_hit(
                            hits,
                            k,
                            obstacles as int,
                        )),
                decreases obstacles - j,
            {
                let hit = clash::<B>(
                    poses[i],
                    self.arm_colliders[i],
                    spheres[i],
                    self.world_poses[j],
                    self.world_colliders[j],
                    self.world_spheres[j],
                );
                let ghost before = hits;
                proof {
                    hits = before.update(i as int, before[i as int].update(j as int, hit));
                    assert forall|k: int| 0 <= k < links implies (in_world_hit(
                        hits,
                        k,
                        obstacles as int,
                    ) <==> (in_world_hit(before, k, obstacles as int) || (hit && k == i))) by {
                        lemma_record_world_hit(
                            before,
                            links as int,
                            obstacles as int,
                            i as int,
                            j as int,
                            hit,
                            k,
                        );
                    }
                    lemma_record_world_hit(
                        before,
                        links as int,
                        obstacles as int,
                        i as int,
                        j as int,
                        hit,
                        0,
                    );
                    assert forall|a: int, b: int|
                        0 <= a < links && 0 <= b < obstacles && !(a == i && b == j) implies hits[a][b]
                        == before[a][b] by {
                        if a == i {
                            assert(hits[a] == before[i as int].update(j as int, hit));
                        } else {
                            assert(hits[a] == before[a]);
                        }
                    }
                }
                if hit {
                    marks.set(i, true);
                }
                j += 1;
            }
            i += 1;
        }
        Ok(marks)
    }
}

/// What a flag in the self-collision report means for one link: a flagged
/// link has a hit with a link that is not its neighbour, and a link without
/// a flag has a miss with every such link.
pub proof fn lemma_self_report_marks<B: Backend>(
    c: Colliders<B>,
    poses: Seq<B::Pose>,
    spheres: Seq<B::Sphere>,
    marks: Seq<bool>,
    k: int,
)
    requires
        is_self_report::<B>(c, poses, spheres, marks),
        0 <= k < c.links(),
    ensures
        marks[k] ==> exists|other: int|
            #![trigger apart(k, other, c.links() as int)]
            #![trigger apart(other, k, c.links() as int)]
            (apart(k, other, c.links() as int) && is_self_clash::<B>(
                c,
                poses,
                spheres,
                k,
                other,
                true,
            )) || (apart(other, k, c.links() as int) && is_self_clash::<B>(
                c,
                poses,
                spheres,
                other,
                k,
                true,
            )),
        !marks[k] ==> forall|other: int|
            #![trigger apart(k, other, c.links() as int)]
            #![trigger apart(other, k, c.links() as int)]
            (apart(k, other, c.links() as int) ==> is_self_clash::<B>(
                c,
                poses,
                spheres,
                k,
                other,
                false,
            )) && (apart(other, k, c.links() as int) ==> is_self_clash::<B>(
                c,
                poses,
                spheres,
                other,
                k,
                false,
            )),
{
    let n = c.links() as int;
    let hits = choose|hits: Seq<Seq<bool>>|
        #![trigger is_self_table(hits, n)]
        {
            &&& is_self_table(hits, n)
            &&& marks.len() == c.links()
            &&& forall|i: int, j: int|
                #![trigger hits[i][j]]
                apart(i, j, n) ==> is_self_clash::<B>(c, poses, spheres, i, j, hits[i][j])
            &&& forall|a: int| 0 <= a < n ==> (#[trigger] marks[a] <==> in_self_hit(hits, a, n))
        };
    if marks[k] {
        assert(in_self_hit(hits, k, n));
        let other = choose|other: int|
            #![trigger apart(k, other, n)]
            #![trigger apart(other, k, n)]
            (apart(k, other, n) && hits[k][other]) || (apart(other, k, n) && hits[other][k]);
        if apart(k, other, n) && hits[k][other] {
            assert(is_self_clash::<B>(c, poses, spheres, k, other, hits[k][other]));
        } else {
            assert(is_self_clash::<B>(c, poses, spheres, other, k, hits[other][k]));
        }
    } else {
        assert(!in_self_hit(hits, k, n));
        assert forall|other: int|
            #![trigger apart(k, other, n)]
            #![trigger apart(other, k, n)]
            (apart(k, other, n) ==> is_self_clash::<B>(c, poses, spheres, k, other, false)) && (
            apart(other, k, n) ==> is_self_clash::<B>(c, poses, spheres, other, k, false)) by {
            if apart(k, other, n) {
                assert(!hits[k][other]);
                assert(is_self_clash::<B>(c, poses, spheres, k, other, hits[k][other]));
            }
            if apart(other, k, n) {
                assert(!hits[other][k]);
                assert(is_self_clash::<B>(c, poses, spheres, other, k, hits[other][k]));
            }
        }
    }
}

/// Neighbours never flag each other: in an arm of at most two links, where
/// every pair is a pair of neighbours, the self-collision report flags
/// nothing, whatever the links overlap.
pub proof fn lemma_neighbours_are_never_flagged<B: Backend>(
    c: Colliders<B>,
    poses: Seq<B::Pose>,
    spheres: Seq<B::Sphere>,
    marks: Seq<bool>,
)
    requires
        is_self_report::<B>(c, poses, spheres, marks),
        c.links() <= 2,
    ensures
        forall|k: int| 0 <= k < marks.len() ==> !#[trigger] marks[k],
{
    assert forall|k: int| 0 <= k < marks.len() implies !#[trigger] marks[k] by {
        lemma_self_report_marks::<B>(c, poses, spheres, marks, k);
    }
}

/// What a flag in the world-collision report means for one link: a flagged
/// link has a hit with an obstacle, and a link without a flag has a miss
/// with every obstacle.
pub proof fn lemma_world_report_marks<B: Backend>(
    c: Colliders<B>,
    poses: Seq<B::Pose>,
    spheres: Seq<B::Sphere>,
    marks: Seq<bool>,
    k: int,
)
    requires
        is_world_report::<B>(c, poses, spheres, marks),
        0 <= k < c.links(),
    ensures
        marks[k] ==> exists|j: int|
            #![trigger is_world_clash::<B>(c, poses, spheres, k, j, true)]
            0 <= j < c.obstacles() && is_world_clash::<B>(c, poses, spheres, k, j, true),
        !marks[k] ==> forall|j: int|
            #![trigger is_world_clash::<B>(c, poses, spheres, k, j, false)]
            0 <= j < c.obstacles() ==> is_world_clash::<B>(c, poses, spheres, k, j, false),
{
    let n = c.links() as int;
    let m = c.obstacles() as int;
    let hits = choose|hits: Seq<Seq<bool>>|
        #![trigger is_world_table(hits, n, m)]
        {
            &&& is_world_table(hits, n, m)
            &&& marks.len() == c.links()
            &&& forall|i: int, j: int|
                #![trigger hits[i][j]]
                0 <= i < n && 0 <= j < m ==> is_world_clash::<B>(
                    c,
                    poses,
                    spheres,
                    i,
                    j,
                    hits[i][j],
                )
            &&& forall|a: int| 0 <= a < n ==> (#[trigger] marks[a] <==> in_world_hit(hits, a, m))
        };
    if marks[k] {
        assert(in_world_hit(hits, k, m));
        let j = choose|j: int| 0 <= j < m && #[trigger] hits[k][j];
        assert(is_world_clash::<B>(c, poses, spheres, k, j, hits[k][j]));
    } else {
        assert(!in_world_hit(hits, k, m));
        assert forall|j: int|
            #![trigger is_world_clash::<B>(c, poses, spheres, k, j, false)]
            0 <= j < m implies is_world_clash::<B>(c, poses, spheres, k, j, false) by {
            assert(!hits[k][j]);
            assert(is_world_clash::<B>(c, poses, spheres, k, j, hits[k][j]));
        }
    }
}

/// An obstacle stays where the collider set has it: the verdict on a link
/// and an obstacle depends on the pose of that link alone, so no change
/// elsewhere in the arm can alter it.
pub proof fn lemma_obstacles_stay_put<B: Backend>(
    c: Colliders<B>,
    poses: Seq<B::Pose>,
    spheres: Seq<B::Sphere>,
    other_poses: Seq<B::Pose>,
    other_spheres: Seq<B::Sphere>,
    i: int,
    j: int,
    hit: bool,
)
    requires
        poses[i] == other_poses[i],
        spheres[i] == other_spheres[i],
    ensures
        is_world_clash::<B>(c, poses, spheres, i, j, hit) == is_world_clash::<B>(
            c,
            other_poses,
            other_spheres,
            i,
            j,
            hit,
        ),
{
}

} // verus!
