//! Atomic batch append: gather target actions with shared timing, then
//! commit them to the timeline as one concurrent batch.
//!
//! The builder accumulates configuration through chained setters; the
//! explicit [`AnimBuilder::build`] call performs exactly one timeline
//! append, so every action configured together is enqueued with one shared
//! start time and can never be split across two `process` observations.

use vstd::prelude::*;

use crate::action::Action;
use crate::animation::{Animation, Status, TargetAction};
use crate::ease::EaseType;
use crate::scene::Scene;
use crate::timeline::{spec_max_run, spec_stamp};
use crate::units::{DEFAULT_RUN_TIME, MAX_RUN_TIME};

verus! {

/// A batch of target actions plus the duration and rate curve they will
/// share.
#[derive(Debug)]
pub struct AnimBuilder {
    pub target_actions: Vec<TargetAction>,
    pub run_time: u64,
    pub rate_func: EaseType,
}

/// The rate curve a fresh builder starts with: quadratic ease for batches
/// that draw an object on, linear otherwise.
pub open spec fn spec_default_rate(tas: Seq<TargetAction>) -> EaseType {
    if exists|i: int| 0 <= i < tas.len() && (#[trigger] tas[i].action) is ShowCreation {
        EaseType::Quad
    } else {
        EaseType::Linear
    }
}

/// The animations a builder commits: each target action paired with the
/// shared duration and rate curve, not yet started.
pub open spec fn spec_batch(tas: Seq<TargetAction>, run_time: u64, rate_func: EaseType) -> Seq<
    Animation,
> {
    Seq::new(
        tas.len(),
        |i: int|
            Animation {
                object: tas[i].target,
                action: tas[i].action,
                run_time,
                rate_func,
                status: Status::NotStarted,
            },
    )
}

impl AnimBuilder {
    /// Every gathered action is in range and the shared duration is
    /// representable.
    pub open spec fn inv(self) -> bool {
        &&& self.run_time <= MAX_RUN_TIME
        &&& forall|i: int|
            0 <= i < self.target_actions@.len() ==> (#[trigger] self.target_actions@[i]).action.inv()
    }

    /// Gather a batch with the default duration and rate curve.
    pub fn new(target_actions: Vec<TargetAction>) -> (r: AnimBuilder)
        requires
            forall|i: int|
                0 <= i < target_actions@.len() ==> (#[trigger] target_actions@[i]).action.inv(),
        ensures
            r.target_actions@ == target_actions@,
            r.run_time == DEFAULT_RUN_TIME,
            r.rate_func == spec_default_rate(target_actions@),
            r.inv(),
    {
        let mut has_creation = false;
        let n = target_actions.len();
        let mut i: usize = 0;
        while i < n
            invariant
                n == target_actions@.len(),
                i <= n,
                has_creation == exists|k: int|
                    0 <= k < i && (#[trigger] target_actions@[k].action) is ShowCreation,
            decreases n - i,
        {
            let ta = target_actions[i];
            if let Action::ShowCreation = ta.action {
                has_creation = true;
            }
            i = i + 1;
        }
        let rate_func = if has_creation {
            EaseType::Quad
        } else {
            EaseType::Linear
        };
        AnimBuilder { target_actions, run_time: DEFAULT_RUN_TIME, rate_func }
    }

    /// Set the shared duration.
    pub fn run_time(self, duration: u64) -> (r: AnimBuilder)
        requires
            duration <= MAX_RUN_TIME,
        ensures
            r.target_actions@ == self.target_actions@,
            r.run_time == duration,
            r.rate_func == self.rate_func,
    {
        AnimBuilder { run_time: duration, ..self }
    }

    /// Set the shared rate curve.
    pub fn rate_func(self, rate_func: EaseType) -> (r: AnimBuilder)
        ensures
            r.target_actions@ == self.target_actions@,
            r.run_time == self.run_time,
            r.rate_func == rate_func,
    {
        AnimBuilder { rate_func, ..self }
    }

    /// Commit the batch: one timeline append in which every animation is
    /// stamped with the same start time.
    pub fn build(self, scene: &mut Scene)
        requires
            self.inv(),
            old(scene).wf(),
            old(scene).commands.end as int + MAX_RUN_TIME as int <= u64::MAX as int,
        ensures
            final(scene).wf(),
            final(scene).commands.cmds@ == old(scene).commands.cmds@ + spec_stamp(
                spec_batch(self.target_actions@, self.run_time, self.rate_func),
                old(scene).commands.end,
            ),
            final(scene).commands.end == old(scene).commands.end + spec_max_run(
                spec_batch(self.target_actions@, self.run_time, self.rate_func),
            ),
            final(scene).objects == old(scene).objects,
            final(scene).prev_command == old(scene).prev_command,
            final(scene).resource == old(scene).resource,
            final(scene).last_time == old(scene).last_time,
    {
        let mut animations: Vec<Animation> = Vec::new();
        let n = self.target_actions.len();
        let mut i: usize = 0;
        while i < n
            invariant
                n == self.target_actions@.len(),
                i <= n,
                self.inv(),
                animations@ == spec_batch(self.target_actions@.take(i as int), self.run_time, self.rate_func),
                forall|k: int| 0 <= k < animations@.len() ==> (#[trigger] animations@[k]).inv(),
            decreases n - i,
        {
            let ta = self.target_actions[i];
            animations.push(
                Animation {
                    object: ta.target,
                    action: ta.action,
                    run_time: self.run_time,
                    rate_func: self.rate_func,
                    status: Status::NotStarted,
                },
            );
            proof {
                assert(animations@ =~= spec_batch(
                    self.target_actions@.take(i + 1),
                    self.run_time,
                    self.rate_func,
                ));
            }
            i = i + 1;
        }
        proof {
            assert(self.target_actions@.take(n as int) =~= self.target_actions@);
        }
        scene.commands.play(animations);
    }
}

} // verus!
