//! The collision-pair filter.
//!
//! Two bodies connected by a joint often overlap by design; a contact
//! constraint between them would compete with the joint constraint and make
//! the solved result depend on solver iteration order. The filter therefore
//! removes, every step, every collision pair whose two bodies are the two
//! bodies of some active joint. Removing a pair that is not present is a
//! no-op, never an error.

use vstd::prelude::*;

verus! {

/// A revolute joint, referencing its two bodies by identity.
#[derive(Clone, Copy, Debug, PartialEq, Eq, Structural)]
pub struct Joint {
    pub entity1: u64,
    pub entity2: u64,
}

/// An unordered pair of body identities currently in contact.
#[derive(Clone, Copy, Debug, PartialEq, Eq, Structural)]
pub struct CollisionPair {
    pub body_a: u64,
    pub body_b: u64,
}

/// The joint references exactly the two bodies of the pair, in either order.
pub open spec fn connects(j: Joint, p: CollisionPair) -> bool {
    (j.entity1 == p.body_a && j.entity2 == p.body_b) || (j.entity1 == p.body_b && j.entity2
        == p.body_a)
}

/// Some joint of the set connects the two bodies of the pair.
pub open spec fn joined(joints: Seq<Joint>, p: CollisionPair) -> bool {
    exists|i: int| 0 <= i < joints.len() && connects(#[trigger] joints[i], p)
}

/// The collision-pair set after suppression: the pairs not connected by any
/// joint, in their original order.
pub open spec fn suppressed(joints: Seq<Joint>, pairs: Seq<CollisionPair>) -> Seq<CollisionPair> {
    pairs.filter(|p: CollisionPair| !joined(joints, p))
}

/// Decides whether some joint connects the two bodies of `p`.
fn pair_is_joined(joints: &Vec<Joint>, p: &CollisionPair) -> (r: bool)
    ensures
        r == joined(joints@, *p),
{
    let mut i: usize = 0;
    while i < joints.len()
        invariant
            0 <= i <= joints@.len(),
            forall|k: int| 0 <= k < i ==> !connects(#[trigger] joints@[k], *p),
        decreases joints@.len() - i,
    {
        let j = joints[i];
        if (j.entity1 == p.body_a && j.entity2 == p.body_b) || (j.entity1 == p.body_b && j.entity2
            == p.body_a) {
            assert(connects(joints@[i as int], *p));
            return true;
        }
        i = i + 1;
    }
    false
}

/// Removes from `pairs` every collision pair between the two bodies of any
/// joint in `joints`; the surviving pairs keep their order. Running the
/// filter on its own output changes nothing (`lemma_suppression_idempotent`).
pub fn filter_collisions(joints: &Vec<Joint>, pairs: &Vec<CollisionPair>) -> (r: Vec<CollisionPair>)
    ensures
        r@ == suppressed(joints@, pairs@),
{
    proof {
        reveal(Seq::filter);
    }
    let ghost pred = |p: CollisionPair| !joined(joints@, p);
    let mut r: Vec<CollisionPair> = Vec::new();
    assert(r@ =~= pairs@.subrange(0, 0).filter(pred));
    let mut i: usize = 0;
    while i < pairs.len()
        invariant
            0 <= i <= pairs@.len(),
            r@ == pairs@.subrange(0, i as int).filter(pred),
            pred == (|p: CollisionPair| !joined(joints@, p)),
        decreases pairs@.len() - i,
    {
        let keep = !pair_is_joined(joints, &pairs[i]);
        proof {
            reveal(Seq::filter);
            assert(pairs@.subrange(0, i + 1).drop_last() =~= pairs@.subrange(0, i as int));
            assert(pairs@.subrange(0, i + 1).last() == pairs@[i as int]);
        }
        if keep {
            r.push(pairs[i]);
        }
        i = i + 1;
    }
    assert(pairs@.subrange(0, pairs@.len() as int) =~= pairs@);
    r
}

/// Collision suppression: after the filter runs, no collision pair between
/// the two bodies of any active joint remains in the set.
pub proof fn lemma_no_joint_pair_survives(
    joints: Seq<Joint>,
    pairs: Seq<CollisionPair>,
    j: Joint,
    p: CollisionPair,
)
    requires
        joints.contains(j),
        connects(j, p),
    ensures
        !suppressed(joints, pairs).contains(p),
{
    let pred = |q: CollisionPair| !joined(joints, q);
    if suppressed(joints, pairs).contains(p) {
        let i = choose|i: int|
            0 <= i < pairs.filter(pred).len() && pairs.filter(pred)[i] == p;
        pairs.lemma_filter_pred(pred, i);
        let k = choose|k: int| 0 <= k < joints.len() && joints[k] == j;
        assert(connects(joints[k], p));
        assert(joined(joints, p));
    }
}

/// Suppression is idempotent: filtering an already filtered pair set removes
/// nothing further. Removing an absent pair is a no-op, not an error.
pub proof fn lemma_suppression_idempotent(joints: Seq<Joint>, pairs: Seq<CollisionPair>)
    ensures
        suppressed(joints, suppressed(joints, pairs)) == suppressed(joints, pairs),
    decreases pairs.len(),
{
    reveal(Seq::filter);
    let pred = |q: CollisionPair| !joined(joints, q);
    if pairs.len() == 0 {
    } else {
        lemma_suppression_idempotent(joints, pairs.drop_last());
        let g = pairs.drop_last().filter(pred);
        if pred(pairs.last()) {
            assert(pairs.filter(pred) == g.push(pairs.last()));
            assert(g.push(pairs.last()).drop_last() =~= g);
            assert(g.push(pairs.last()).last() == pairs.last());
        } else {
            assert(pairs.filter(pred) == g);
        }
    }
}

} // verus!
