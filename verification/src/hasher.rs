//! The state hasher: a reproducible 32-bit fingerprint of a pose set.
//!
//! Entity iteration order is engine-internal and not stable, so the poses
//! are sorted by ascending x-coordinate key before the byte fold. The sort
//! key carries no documented tie-break: when two poses share an x key the
//! sorted order, and with it the fingerprint, is pinned down only up to the
//! placement of the tied poses. With pairwise-distinct keys the fingerprint
//! is a function of the pose multiset alone (`lemma_fingerprint_unique`).

use vstd::prelude::*;
use vstd::seq_lib::group_to_multiset_ensures;
use vstd::multiset::group_multiset_axioms;

use crate::hash::{djb2_fold, djb2_hash};
use crate::pose::{pose_bytes, pose_to_bytes, Pose};

verus! {

/// Seed of the byte fold.
pub const HASH_SEED: u32 = 5381;

/// The poses are ordered by ascending x key.
pub open spec fn sorted_by_x(s: Seq<Pose>) -> bool {
    forall|i: int, j: int|
        0 <= i < j < s.len() ==> #[trigger] s[i].x_key <= #[trigger] s[j].x_key
}

/// No two positions of the sequence hold the same x key.
pub open spec fn distinct_x_keys(s: Seq<Pose>) -> bool {
    forall|i: int, j: int|
        0 <= i < j < s.len() ==> #[trigger] s[i].x_key != #[trigger] s[j].x_key
}

/// The accumulator after folding the byte records of `ps`, front to back.
pub open spec fn fold_poses(h: u32, ps: Seq<Pose>) -> u32
    decreases ps.len(),
{
    if ps.len() == 0 {
        h
    } else {
        fold_poses(djb2_fold(h, pose_bytes(ps[0])), ps.drop_first())
    }
}

/// `h` is a fingerprint of the pose collection `ps`: the byte fold of some
/// ordering of `ps` that is sorted by ascending x key.
pub open spec fn is_fingerprint(h: u32, ps: Seq<Pose>) -> bool {
    exists|s: Seq<Pose>|
        sorted_by_x(s) && s.to_multiset() == ps.to_multiset() && h == fold_poses(HASH_SEED, s)
}

/// Inserts `p` into the sorted vector `r`, keeping it sorted.
fn insert_sorted(r: &mut Vec<Pose>, p: Pose)
    requires
        sorted_by_x(old(r)@),
        old(r)@.len() < usize::MAX,
    ensures
        sorted_by_x(final(r)@),
        final(r)@.to_multiset() == old(r)@.to_multiset().insert(p),
        final(r)@.len() == old(r)@.len() + 1,
{
    broadcast use group_to_multiset_ensures;

    let mut j: usize = 0;
    while j < r.len() && r[j].x_key <= p.x_key
        invariant
            0 <= j <= r@.len(),
            forall|k: int| 0 <= k < j ==> #[trigger] r@[k].x_key <= p.x_key,
            sorted_by_x(r@),
            r@ == old(r)@,
        decreases r@.len() - j,
    {
        j = j + 1;
    }
    assert(forall|k: int| j <= k < r@.len() ==> p.x_key < #[trigger] r@[k].x_key);
    r.insert(j, p);
    assert(sorted_by_x(r@)) by {
        assert(forall|k: int|
            0 <= k < r@.len() && k != j ==> r@[k] == (if k < j {
                old(r)@[k]
            } else {
                old(r)@[k - 1]
            }));
    }
}

/// Sorts the poses by ascending x key. The result holds exactly the poses
/// of the input, as a multiset.
pub fn sort_poses(poses: &Vec<Pose>) -> (r: Vec<Pose>)
    ensures
        sorted_by_x(r@),
        r@.to_multiset() == poses@.to_multiset(),
        r@.len() == poses@.len(),
{
    broadcast use group_to_multiset_ensures;

    let mut r: Vec<Pose> = Vec::new();
    assert(r@ =~= poses@.subrange(0, 0));
    let mut i: usize = 0;
    while i < poses.len()
        invariant
            0 <= i <= poses@.len(),
            sorted_by_x(r@),
            r@.len() == i,
            r@.to_multiset() == poses@.subrange(0, i as int).to_multiset(),
        decreases poses@.len() - i,
    {
        insert_sorted(&mut r, poses[i]);
        proof {
            assert(poses@.subrange(0, i + 1) =~= poses@.subrange(0, i as int).push(
                poses@[i as int],
            ));
            vstd::seq_lib::to_multiset_build::<Pose>(
                poses@.subrange(0, i as int),
                poses@[i as int],
            );
        }
        i = i + 1;
    }
    assert(poses@.subrange(0, poses@.len() as int) =~= poses@);
    r
}

/// Folds the byte records of the poses, in the order given, into the
/// accumulator, starting from the seed.
pub fn fold_pose_records(poses: &Vec<Pose>) -> (r: u32)
    ensures
        r == fold_poses(HASH_SEED, poses@),
{
    let mut h: u32 = HASH_SEED;
    let mut i: usize = 0;
    assert(poses@.subrange(0, poses@.len() as int) =~= poses@);
    while i < poses.len()
        invariant
            0 <= i <= poses@.len(),
            fold_poses(HASH_SEED, poses@) == fold_poses(
                h,
                poses@.subrange(i as int, poses@.len() as int),
            ),
        decreases poses@.len() - i,
    {
        let bytes = pose_to_bytes(&poses[i]);
        let ghost rest = poses@.subrange(i as int, poses@.len() as int);
        h = djb2_hash(h, &bytes);
        proof {
            assert(rest[0] == poses@[i as int]);
            assert(rest.drop_first() =~= poses@.subrange(i + 1, poses@.len() as int));
        }
        i = i + 1;
    }
    h
}

/// Computes the fingerprint of the pose set: the poses are sorted by
/// ascending x key and their 28-byte records are folded, front to back,
/// into the seeded accumulator.
pub fn hash_poses(poses: &Vec<Pose>) -> (r: u32)
    ensures
        is_fingerprint(r, poses@),
{
    let sorted = sort_poses(poses);
    let r = fold_pose_records(&sorted);
    proof {
        assert(sorted_by_x(sorted@) && sorted@.to_multiset() == poses@.to_multiset() && r
            == fold_poses(HASH_SEED, sorted@));
    }
    r
}

/// Two sequences sorted by ascending x key, holding the same poses and with
/// pairwise-distinct x keys, are the same sequence.
pub proof fn lemma_sorted_distinct_unique(s1: Seq<Pose>, s2: Seq<Pose>)
    requires
        sorted_by_x(s1),
        sorted_by_x(s2),
        distinct_x_keys(s1),
        s1.to_multiset() == s2.to_multiset(),
    ensures
        s1 == s2,
    decreases s1.len(),
{
    broadcast use group_to_multiset_ensures;
    broadcast use group_multiset_axioms;

    assert(s1.to_multiset().len() == s1.len());
    assert(s2.to_multiset().len() == s2.len());
    if s1.len() == 0 {
        assert(s1 =~= s2);
    } else {
        assert(s2.len() == s1.len());
        assert(s1.contains(s1[0]) && s2.contains(s2[0]));
        assert(s1.to_multiset().count(s2[0]) > 0);
        assert(s2.to_multiset().count(s1[0]) > 0);
        let i = choose|i: int| 0 <= i < s2.len() && s2[i] == s1[0];
        let j = choose|j: int| 0 <= j < s1.len() && s1[j] == s2[0];
        assert(s2[0].x_key <= s2[i].x_key);
        assert(s1[0].x_key <= s1[j].x_key);
        assert(s1[0].x_key == s2[0].x_key);
        assert(j == 0);
        assert(s1[0] == s2[0]);
        assert(s1.drop_first() =~= s1.remove(0));
        assert(s2.drop_first() =~= s2.remove(0));
        assert(s1.remove(0).to_multiset() == s1.to_multiset().remove(s1[0]));
        assert(s2.remove(0).to_multiset() == s2.to_multiset().remove(s2[0]));
        assert(forall|a: int, b: int|
            0 <= a < b < s1.drop_first().len() ==> #[trigger] s1.drop_first()[a].x_key
                != #[trigger] s1.drop_first()[b].x_key) by {
            assert(forall|a: int|
                0 <= a < s1.drop_first().len() ==> #[trigger] s1.drop_first()[a] == s1[a + 1]);
        }
        lemma_sorted_distinct_unique(s1.drop_first(), s2.drop_first());
        assert(s1 =~= s2) by {
            assert(forall|k: int|
                1 <= k < s1.len() ==> #[trigger] s1[k] == s1.drop_first()[k - 1]
                    && #[trigger] s2[k] == s2.drop_first()[k - 1]);
        }
    }
}

/// Sort stability under permutation: the fingerprint of a pose collection
/// with pairwise-distinct x keys is a function of the collection alone --
/// any two fingerprints of pose sequences holding the same poses are equal,
/// whatever order either sequence lists them in.
pub proof fn lemma_fingerprint_unique(h1: u32, h2: u32, ps1: Seq<Pose>, ps2: Seq<Pose>)
    requires
        ps1.to_multiset() == ps2.to_multiset(),
        distinct_x_keys(ps1),
        is_fingerprint(h1, ps1),
        is_fingerprint(h2, ps2),
    ensures
        h1 == h2,
{
    broadcast use group_to_multiset_ensures;
    broadcast use group_multiset_axioms;

    let s1 = choose|s: Seq<Pose>|
        sorted_by_x(s) && s.to_multiset() == ps1.to_multiset() && h1 == fold_poses(HASH_SEED, s);
    let s2 = choose|s: Seq<Pose>|
        sorted_by_x(s) && s.to_multiset() == ps2.to_multiset() && h2 == fold_poses(HASH_SEED, s);
    lemma_multiset_distinct_x_keys(ps1, s1);
    lemma_sorted_distinct_unique(s1, s2);
}

/// Distinctness of x keys carries over to any reordering of the poses.
pub proof fn lemma_multiset_distinct_x_keys(s: Seq<Pose>, t: Seq<Pose>)
    requires
        distinct_x_keys(s),
        s.to_multiset() == t.to_multiset(),
    ensures
        distinct_x_keys(t),
{
    broadcast use group_to_multiset_ensures;
    broadcast use group_multiset_axioms;

    assert forall|i: int, j: int|
        0 <= i < s.len() && 0 <= j < s.len() && i != j implies s[i] != s[j] by {
        if i < j {
            assert(s[i].x_key != s[j].x_key);
        } else {
            assert(s[j].x_key != s[i].x_key);
        }
    }
    assert(s.no_duplicates());
    s.lemma_multiset_has_no_duplicates();
    t.lemma_multiset_has_no_duplicates_conv();
    assert forall|i: int, j: int| 0 <= i < j < t.len() implies #[trigger] t[i].x_key
        != #[trigger] t[j].x_key by {
        assert(t[i] != t[j]);
        assert(s.to_multiset().count(t[i]) > 0 && s.to_multiset().count(t[j]) > 0);
        assert(s.contains(t[i]) && s.contains(t[j]));
        let a = choose|a: int| 0 <= a < s.len() && s[a] == t[i];
        let b = choose|b: int| 0 <= b < s.len() && s[b] == t[j];
        assert(a != b);
    }
}

} // verus!
