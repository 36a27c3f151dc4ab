//! The step counter and the harness state it gates.
//!
//! The harness counts fixed simulation ticks since the last reset. On every
//! tick it recomputes the fingerprint of the dynamic-body pose set -- until
//! the step counter passes `STEP_COUNT`, after which the last fingerprint is
//! frozen: later ticks advance the counter but never touch the hash again,
//! until a reset restarts the counter at zero.

use vstd::prelude::*;

use crate::hasher::{distinct_x_keys, hash_poses, is_fingerprint, lemma_fingerprint_unique};
use crate::pose::Pose;
use crate::STEP_COUNT;

verus! {

/// The harness state: the tick counter since the last reset, and the last
/// fingerprint computed inside the hashing window (none before the first
/// tick).
pub struct Harness {
    pub step: usize,
    pub hash: Option<u32>,
}

impl Harness {
    /// A fresh harness: no tick has run, no fingerprint exists.
    pub fn new() -> (r: Harness)
        ensures
            r.step == 0,
            r.hash is None,
    {
        Harness { step: 0, hash: None }
    }

    /// One fixed simulation tick. Returns the step number to display (the
    /// pre-increment value) and advances the counter. Within the hashing
    /// window the fingerprint of the tick's pose set is recorded; past the
    /// horizon the previous hash is left untouched -- frozen, not
    /// recomputed.
    pub fn tick(&mut self, poses: &Vec<Pose>) -> (shown: usize)
        requires
            old(self).step < usize::MAX,
        ensures
            shown == old(self).step,
            final(self).step == old(self).step + 1,
            old(self).step < STEP_COUNT ==> (final(self).hash matches Some(h) && is_fingerprint(
                h,
                poses@,
            )),
            old(self).step >= STEP_COUNT ==> final(self).hash == old(self).hash,
    {
        let shown = self.step;
        self.step = self.step + 1;
        if self.step > STEP_COUNT {
            return shown;
        }
        let h = hash_poses(poses);
        self.hash = Some(h);
        shown
    }

    /// An external reset: the simulation entities are torn down and rebuilt
    /// by the caller; the harness restarts its counter at zero. The stale
    /// hash stays displayed until the first tick overwrites it.
    pub fn reset(&mut self)
        ensures
            final(self).step == 0,
            final(self).hash == old(self).hash,
    {
        self.step = 0;
    }
}

/// What one tick is allowed to do to the harness state, exactly as `tick`
/// ensures it: the counter advances by one, a fingerprint of the tick's
/// poses is recorded inside the hashing window, and the hash is left frozen
/// past the horizon.
pub open spec fn tick_rel(pre: Harness, post: Harness, poses: Seq<Pose>) -> bool {
    &&& pre.step < usize::MAX
    &&& post.step == pre.step + 1
    &&& (pre.step < STEP_COUNT ==> (post.hash matches Some(h) && is_fingerprint(h, poses)))
    &&& (pre.step >= STEP_COUNT ==> post.hash == pre.hash)
}

/// `states` is a run: `states[k+1]` comes from `states[k]` by one tick on
/// the pose set `ticks[k]`.
pub open spec fn run_rel(states: Seq<Harness>, ticks: Seq<Seq<Pose>>) -> bool {
    &&& states.len() == ticks.len() + 1
    &&& forall|k: int|
        0 <= k < ticks.len() ==> tick_rel(states[k], states[k + 1], #[trigger] ticks[k])
}

/// In a run starting at step zero, the counter simply counts the ticks.
pub proof fn lemma_run_steps(states: Seq<Harness>, ticks: Seq<Seq<Pose>>, k: int)
    requires
        run_rel(states, ticks),
        states[0].step == 0,
        0 <= k < states.len(),
    ensures
        states[k].step == k,
    decreases k,
{
    if k > 0 {
        lemma_run_steps(states, ticks, k - 1);
        assert(tick_rel(states[k - 1], states[k], ticks[k - 1]));
    }
}

/// Reset idempotence: a reset harness behaves exactly like a fresh one.
/// Two runs that both start at step zero and are fed the same pose sets,
/// each with pairwise-distinct x keys, hold the same step counter and --
/// from the first tick on -- the same fingerprint at every point, whatever
/// stale hash either harness started with.
pub proof fn lemma_reset_run_matches_fresh_run(
    sa: Seq<Harness>,
    sb: Seq<Harness>,
    ticks: Seq<Seq<Pose>>,
    k: int,
)
    requires
        run_rel(sa, ticks),
        run_rel(sb, ticks),
        sa[0].step == 0,
        sb[0].step == 0,
        forall|i: int| 0 <= i < ticks.len() ==> distinct_x_keys(#[trigger] ticks[i]),
        0 <= k < sa.len(),
    ensures
        sa[k].step == sb[k].step,
        k >= 1 ==> sa[k].hash == sb[k].hash,
    decreases k,
{
    lemma_run_steps(sa, ticks, k);
    lemma_run_steps(sb, ticks, k);
    if k >= 1 {
        lemma_run_steps(sa, ticks, k - 1);
        lemma_run_steps(sb, ticks, k - 1);
        assert(tick_rel(sa[k - 1], sa[k], ticks[k - 1]));
        assert(tick_rel(sb[k - 1], sb[k], ticks[k - 1]));
        if k - 1 < STEP_COUNT {
            let ha = sa[k].hash->Some_0;
            let hb = sb[k].hash->Some_0;
            lemma_fingerprint_unique(ha, hb, ticks[k - 1], ticks[k - 1]);
        } else {
            lemma_reset_run_matches_fresh_run(sa, sb, ticks, k - 1);
        }
    }
}

/// Freeze after the horizon: once the counter has passed `STEP_COUNT`, the
/// displayed hash never changes again within the run.
pub proof fn lemma_hash_frozen_past_horizon(
    states: Seq<Harness>,
    ticks: Seq<Seq<Pose>>,
    k: int,
    m: int,
)
    requires
        run_rel(states, ticks),
        states[0].step == 0,
        STEP_COUNT <= k <= m < states.len(),
    ensures
        states[m].hash == states[k].hash,
    decreases m - k,
{
    if m > k {
        lemma_run_steps(states, ticks, m - 1);
        assert(tick_rel(states[m - 1], states[m], ticks[m - 1]));
        lemma_hash_frozen_past_horizon(states, ticks, k, m - 1);
    }
}

} // verus!
