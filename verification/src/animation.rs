//! The animation finite state machine, and the laws its updates obey.
//!
//! An [`Animation`] wraps an [`Action`] with a target handle, a duration,
//! a rate curve and a status.  The status runs `NotStarted` to
//! `Animating(progress)` to `Complete` (terminal): the first tick with
//! positive elapsed time captures the action's start state, every tick
//! writes the eased interpolation, and reaching the full duration — or a
//! forced [`Animation::finish`] — lands exactly on the target state.

use vstd::prelude::*;

use crate::action::{Action, spec_action_init_action, spec_action_init_object, spec_action_update};
use crate::arena::Id;
use crate::ease::{EaseType, lemma_ease_props, spec_ease};
use crate::object::Object;
use crate::resource::Resource;
use crate::units::{
    DEFAULT_RUN_TIME, MAX_RUN_TIME, UNIT, lemma_progress_raw_bounds, progress_raw,
    spec_progress_raw,
};

verus! {

/// Where an animation stands: untouched, mid-flight at a raw linear
/// progress, or finished.
#[derive(Debug, Clone, Copy, PartialEq, Eq, Structural)]
pub enum Status {
    NotStarted,
    Animating(u64),
    Complete,
}

/// A handle and an action paired: either applied instantly through an
/// `act` command, or promoted into a timed [`Animation`].
#[derive(Debug, Clone, Copy, PartialEq, Eq, Structural)]
pub struct TargetAction {
    pub target: Id,
    pub action: Action,
    pub finish_on_drop: bool,
}

impl TargetAction {
    /// Pair a handle with an action.
    pub fn new(target: Id, action: Action, finish_on_drop: bool) -> (r: TargetAction)
        ensures
            r == (TargetAction { target, action, finish_on_drop }),
    {
        TargetAction { target, action, finish_on_drop }
    }

    /// Apply the action's full effect: capture the start state, then write
    /// the final interpolation.
    pub fn finish(&mut self, object: &mut Object, resource: &Resource)
        requires
            old(self).action.inv(),
            old(object).inv(),
            resource.inv(),
        ensures
            final(self).action == spec_action_init_action(
                old(self).action,
                *old(object),
                *resource,
            ),
            final(self).target == old(self).target,
            final(self).finish_on_drop == old(self).finish_on_drop,
            *final(object) == spec_target_finish_object(old(self).action, *old(object), *resource),
            final(self).action.inv(),
            final(object).inv(),
    {
        self.action.init(object, resource);
        self.action.complete(object);
    }
}

/// The object after an instant action runs to completion: initialisation
/// effects, then the final interpolation of the initialised action.
pub open spec fn spec_target_finish_object(a: Action, o: Object, res: Resource) -> Object {
    spec_action_update(
        spec_action_init_action(a, o, res),
        spec_action_init_object(a, o),
        UNIT as int,
    )
}

/// An action scheduled against one object for a stretch of scene time.
#[derive(Debug, Clone, Copy, PartialEq, Eq, Structural)]
pub struct Animation {
    pub object: Id,
    pub action: Action,
    pub run_time: u64,
    pub rate_func: EaseType,
    pub status: Status,
}

impl Animation {
    /// The action's scalars are in range, the duration is representable,
    /// and any recorded progress is a valid fraction.
    pub open spec fn inv(self) -> bool {
        &&& self.action.inv()
        &&& self.run_time <= MAX_RUN_TIME
        &&& match self.status {
            Status::Animating(p) => p <= UNIT,
            _ => true,
        }
    }

    /// A not-yet-started animation with the default duration and linear
    /// rate curve.
    pub fn new(object: Id, action: Action) -> (r: Animation)
        ensures
            r == (Animation {
                object,
                action,
                run_time: DEFAULT_RUN_TIME as u64,
                rate_func: EaseType::Linear,
                status: Status::NotStarted,
            }),
            action.inv() ==> r.inv(),
    {
        Animation {
            object,
            action,
            run_time: DEFAULT_RUN_TIME,
            rate_func: EaseType::Linear,
            status: Status::NotStarted,
        }
    }

    /// Whether the animation has reached its terminal state.
    pub fn is_complete(&self) -> (r: bool)
        ensures
            r == (self.status is Complete),
    {
        match self.status {
            Status::Complete => true,
            _ => false,
        }
    }

    /// Force the final state: capture the start state if no tick was ever
    /// observed, write the full interpolation, and mark the animation
    /// complete.  Idempotent: a complete animation is left untouched.
    pub fn finish(&mut self, object: &mut Object, resource: &Resource)
        requires
            old(self).inv(),
            old(object).inv(),
            resource.inv(),
        ensures
            (*final(self), *final(object)) == spec_anim_finish(*old(self), *old(object), *resource),
            final(self).inv(),
            final(object).inv(),
            final(self).status is Complete,
    {
        match self.status {
            Status::Complete => {},
            Status::NotStarted => {
                self.action.init(object, resource);
                self.action.complete(object);
                self.status = Status::Complete;
            },
            Status::Animating(_) => {
                self.action.complete(object);
                self.status = Status::Complete;
            },
        }
    }

    /// Mark the animation complete when its target object is gone: the
    /// status still advances so the timeline's bookkeeping stays exact,
    /// but nothing is written.
    pub fn finish_absent(&mut self)
        ensures
            *final(self) == (Animation { status: Status::Complete, ..*old(self) }),
    {
        self.status = Status::Complete;
    }

    /// Advance the animation to elapsed time `t` (clamped to the
    /// duration) and write the eased interpolation to the object.
    ///
    /// The first call with positive elapsed time captures the action's
    /// start state; a zero-duration animation completes immediately; once
    /// complete, further updates are no-ops.  Reaching the full duration
    /// lands exactly on the target state and marks the animation complete.
    pub fn update(&mut self, object: &mut Object, t: u64, resource: &Resource)
        requires
            old(self).inv(),
            old(object).inv(),
            resource.inv(),
        ensures
            (*final(self), *final(object)) == spec_anim_update(
                *old(self),
                *old(object),
                t as int,
                *resource,
            ),
            final(self).inv(),
            final(object).inv(),
    {
        if self.is_complete() {
            return ;
        }
        if self.run_time == 0 {
            self.finish(object, resource);
            return ;
        }
        let e = if t < self.run_time {
            t
        } else {
            self.run_time
        };
        if e == 0 {
            return ;
        }
        if let Status::NotStarted = self.status {
            self.action.init(object, resource);
        }
        let raw = progress_raw(e, self.run_time);
        let p = self.rate_func.calculate(raw);
        self.action.update(object, p);
        if e == self.run_time {
            self.status = Status::Complete;
        } else {
            self.status = Status::Animating(raw);
        }
    }

    /// Advance only the status when the target object is gone: the same
    /// transitions as [`Animation::update`], with no writes.
    pub fn update_absent(&mut self, t: u64)
        requires
            old(self).inv(),
        ensures
            *final(self) == spec_anim_update_absent(*old(self), t as int),
            final(self).inv(),
    {
        if self.is_complete() {
            return ;
        }
        if self.run_time == 0 {
            self.status = Status::Complete;
            return ;
        }
        let e = if t < self.run_time {
            t
        } else {
            self.run_time
        };
        if e == 0 {
            return ;
        }
        let raw = progress_raw(e, self.run_time);
        if e == self.run_time {
            self.status = Status::Complete;
        } else {
            self.status = Status::Animating(raw);
        }
    }
}

/// The animation and object after a forced finish.
pub open spec fn spec_anim_finish(anim: Animation, o: Object, res: Resource) -> (Animation, Object) {
    if anim.status is Complete {
        (anim, o)
    } else {
        let a1 = if anim.status is NotStarted {
            spec_action_init_action(anim.action, o, res)
        } else {
            anim.action
        };
        let o1 = if anim.status is NotStarted {
            spec_action_init_object(anim.action, o)
        } else {
            o
        };
        (
            Animation { action: a1, status: Status::Complete, ..anim },
            spec_action_update(a1, o1, UNIT as int),
        )
    }
}

/// The animation and object after advancing to elapsed time `t`.
pub open spec fn spec_anim_update(anim: Animation, o: Object, t: int, res: Resource) -> (
    Animation,
    Object,
) {
    if anim.status is Complete {
        (anim, o)
    } else if anim.run_time == 0 {
        spec_anim_finish(anim, o, res)
    } else {
        let e = if t < anim.run_time as int {
            t
        } else {
            anim.run_time as int
        };
        if e == 0 {
            (anim, o)
        } else {
            let a1 = if anim.status is NotStarted {
                spec_action_init_action(anim.action, o, res)
            } else {
                anim.action
            };
            let o1 = if anim.status is NotStarted {
                spec_action_init_object(anim.action, o)
            } else {
                o
            };
            let raw = spec_progress_raw(e, anim.run_time as int);
            let status = if e == anim.run_time as int {
                Status::Complete
            } else {
                Status::Animating(raw as u64)
            };
            (
                Animation { action: a1, status, ..anim },
                spec_action_update(a1, o1, spec_ease(anim.rate_func, raw)),
            )
        }
    }
}

/// The status-only transition taken when the target object is gone.
pub open spec fn spec_anim_update_absent(anim: Animation, t: int) -> Animation {
    if anim.status is Complete {
        anim
    } else if anim.run_time == 0 {
        Animation { status: Status::Complete, ..anim }
    } else {
        let e = if t < anim.run_time as int {
            t
        } else {
            anim.run_time as int
        };
        if e == 0 {
            anim
        } else {
            let raw = spec_progress_raw(e, anim.run_time as int);
            let status = if e == anim.run_time as int {
                Status::Complete
            } else {
                Status::Animating(raw as u64)
            };
            Animation { status, ..anim }
        }
    }
}

/// Writing an action's interpolation is memoryless: a later write at
/// progress `q` fully overwrites an earlier write at progress `p`, so the
/// object ends exactly as if only the later write had happened.
pub proof fn lemma_action_update_last_write_wins(a: Action, o: Object, p: int, q: int)
    requires
        a.inv(),
        o.inv(),
        0 <= p <= UNIT as int,
        0 <= q <= UNIT as int,
    ensures
        spec_action_update(a, spec_action_update(a, o, p), q) == spec_action_update(a, o, q),
{
}

/// Idempotence: updating an object twice at the same progress leaves it
/// exactly as one update does.
pub proof fn lemma_action_update_idempotent(a: Action, o: Object, p: int)
    requires
        a.inv(),
        o.inv(),
        0 <= p <= UNIT as int,
    ensures
        spec_action_update(a, spec_action_update(a, o, p), p) == spec_action_update(a, o, p),
{
    lemma_action_update_last_write_wins(a, o, p, p);
}

/// Interpolated updates keep a well-formed object well-formed.
pub proof fn lemma_action_update_preserves_inv(a: Action, o: Object, p: int)
    requires
        a.inv(),
        o.inv(),
        0 <= p <= UNIT as int,
    ensures
        spec_action_update(a, o, p).inv(),
{
    lemma_update_shapes(a, o, p);
}

/// Helper: every update writes clamped values, so the invariant holds.
proof fn lemma_update_shapes(a: Action, o: Object, p: int)
    requires
        a.inv(),
        o.inv(),
        0 <= p <= UNIT as int,
    ensures
        spec_action_update(a, o, p).inv(),
{
    match a {
        Action::MoveBy { from, by } => {
            crate::units::lemma_lerp_bounds(from.x as int, from.x as int + by.x as int, p);
            crate::units::lemma_lerp_bounds(from.y as int, from.y as int + by.y as int, p);
        },
        Action::MoveTo { from, to } => {
            crate::units::lemma_lerp_bounds(from.x as int, to.x as int, p);
            crate::units::lemma_lerp_bounds(from.y as int, to.y as int, p);
        },
        Action::ToEdge { from, to, .. } => {
            crate::units::lemma_lerp_bounds(from.x as int, to.x as int, p);
            crate::units::lemma_lerp_bounds(from.y as int, to.y as int, p);
        },
        Action::ChangeSize(cs) => {
            match cs {
                crate::action::ChangeSize::SetWidth { from, to } => {
                    crate::units::lemma_lerp_bounds(from as int, to as int, p);
                },
                crate::action::ChangeSize::SetHeight { from, to } => {
                    crate::units::lemma_lerp_bounds(from as int, to as int, p);
                },
                crate::action::ChangeSize::SetDimension { from, to } => {
                    crate::units::lemma_lerp_bounds(from.width as int, to.width as int, p);
                    crate::units::lemma_lerp_bounds(from.height as int, to.height as int, p);
                },
                crate::action::ChangeSize::ScaleDimension { from, to, .. } => {
                    crate::units::lemma_lerp_bounds(from.width as int, to.width as int, p);
                    crate::units::lemma_lerp_bounds(from.height as int, to.height as int, p);
                },
            }
        },
        Action::RotateTo { from, to } => {
            crate::units::lemma_lerp_bounds(from as int, to as int, p);
        },
        Action::RotateBy { from, by } => {
            crate::units::lemma_lerp_bounds(from as int, from as int + by as int, p);
        },
        Action::CircleAction(ca) => {
            match ca {
                crate::action::CircleAction::SetRadius { from, to } => {
                    crate::units::lemma_lerp_bounds(from as int, to as int, p);
                },
                crate::action::CircleAction::Inert => {},
            }
        },
        Action::RectangleAction(ra) => {
            match ra {
                crate::action::RectangleAction::SetWidth { from, to } => {
                    crate::units::lemma_lerp_bounds(from as int, to as int, p);
                },
                crate::action::RectangleAction::SetHeight { from, to } => {
                    crate::units::lemma_lerp_bounds(from as int, to as int, p);
                },
                crate::action::RectangleAction::Scale { from, to } => {
                    crate::units::lemma_lerp_bounds(from.width as int, to.width as int, p);
                    crate::units::lemma_lerp_bounds(from.height as int, to.height as int, p);
                },
            }
        },
        Action::TextAction(ta) => {
            match ta {
                crate::action::TextAction::SetSize { from, to } => {
                    crate::units::lemma_lerp_bounds(from as int, to as int, p);
                },
                crate::action::TextAction::ScaleSize { from, to, .. } => {
                    crate::units::lemma_lerp_bounds(from as int, to as int, p);
                },
            }
        },
        _ => {},
    }
}

/// Determinism of replay: advancing an animation in two steps — first to
/// elapsed time `t1`, then to a later `t2` — leaves the animation and the
/// object exactly as one direct advance to `t2` does.
pub proof fn lemma_anim_update_two_steps(
    anim: Animation,
    o: Object,
    t1: int,
    t2: int,
    res: Resource,
)
    requires
        anim.inv(),
        o.inv(),
        res.inv(),
        0 <= t1 <= t2,
    ensures
        ({
            let (a1, o1) = spec_anim_update(anim, o, t1, res);
            spec_anim_update(a1, o1, t2, res)
        }) == spec_anim_update(anim, o, t2, res),
{
    let (a1, o1) = spec_anim_update(anim, o, t1, res);
    if anim.status is Complete {
    } else if anim.run_time == 0 {
        lemma_anim_init_preserves_inv(anim, o, res);
    } else {
        let rt = anim.run_time as int;
        let e1 = if t1 < rt {
            t1
        } else {
            rt
        };
        let e2 = if t2 < rt {
            t2
        } else {
            rt
        };
        if e1 == 0 {
        } else {
            let ai = if anim.status is NotStarted {
                spec_action_init_action(anim.action, o, res)
            } else {
                anim.action
            };
            let oi = if anim.status is NotStarted {
                spec_action_init_object(anim.action, o)
            } else {
                o
            };
            lemma_anim_init_preserves_inv(anim, o, res);
            lemma_progress_raw_bounds(e1, rt);
            lemma_progress_raw_bounds(e2, rt);
            lemma_ease_props(anim.rate_func, spec_progress_raw(e1, rt));
            lemma_ease_props(anim.rate_func, spec_progress_raw(e2, rt));
            lemma_action_update_preserves_inv(ai, oi, spec_ease(anim.rate_func, spec_progress_raw(e1, rt)));
            if e1 == rt {
                assert(a1.status is Complete);
                assert(e2 == rt);
                assert(spec_ease(anim.rate_func, spec_progress_raw(e1, rt)) == UNIT as int);
            } else {
                lemma_action_update_last_write_wins(
                    ai,
                    oi,
                    spec_ease(anim.rate_func, spec_progress_raw(e1, rt)),
                    spec_ease(anim.rate_func, spec_progress_raw(e2, rt)),
                );
            }
        }
    }
}

/// Advancing an animation preserves both invariants, also at the level of
/// the functional model.
pub proof fn lemma_spec_anim_update_preserves_inv(anim: Animation, o: Object, t: int, res: Resource)
    requires
        anim.inv(),
        o.inv(),
        res.inv(),
        0 <= t,
    ensures
        spec_anim_update(anim, o, t, res).0.inv(),
        spec_anim_update(anim, o, t, res).1.inv(),
        spec_anim_update(anim, o, t, res).0.run_time == anim.run_time,
        spec_anim_update(anim, o, t, res).0.object == anim.object,
        spec_anim_update(anim, o, t, res).0.rate_func == anim.rate_func,
{
    lemma_anim_init_preserves_inv(anim, o, res);
    lemma_spec_anim_finish_preserves_inv(anim, o, res);
    if !(anim.status is Complete) && anim.run_time > 0 {
        let rt = anim.run_time as int;
        let e = if t < rt {
            t
        } else {
            rt
        };
        if e != 0 {
            let ai = if anim.status is NotStarted {
                spec_action_init_action(anim.action, o, res)
            } else {
                anim.action
            };
            let oi = if anim.status is NotStarted {
                spec_action_init_object(anim.action, o)
            } else {
                o
            };
            lemma_progress_raw_bounds(e, rt);
            lemma_ease_props(anim.rate_func, spec_progress_raw(e, rt));
            lemma_action_update_preserves_inv(
                ai,
                oi,
                spec_ease(anim.rate_func, spec_progress_raw(e, rt)),
            );
        }
    }
}

/// Forcing the final state preserves both invariants, also at the level
/// of the functional model.
pub proof fn lemma_spec_anim_finish_preserves_inv(anim: Animation, o: Object, res: Resource)
    requires
        anim.inv(),
        o.inv(),
        res.inv(),
    ensures
        spec_anim_finish(anim, o, res).0.inv(),
        spec_anim_finish(anim, o, res).1.inv(),
        spec_anim_finish(anim, o, res).0.run_time == anim.run_time,
        spec_anim_finish(anim, o, res).0.object == anim.object,
{
    lemma_anim_init_preserves_inv(anim, o, res);
    if !(anim.status is Complete) {
        let ai = if anim.status is NotStarted {
            spec_action_init_action(anim.action, o, res)
        } else {
            anim.action
        };
        let oi = if anim.status is NotStarted {
            spec_action_init_object(anim.action, o)
        } else {
            o
        };
        lemma_action_update_preserves_inv(ai, oi, UNIT as int);
    }
}

/// The status-only transition preserves the animation invariant and
/// changes nothing but the status.
pub proof fn lemma_spec_anim_update_absent_preserves_inv(anim: Animation, t: int)
    requires
        anim.inv(),
        0 <= t,
    ensures
        spec_anim_update_absent(anim, t).inv(),
        spec_anim_update_absent(anim, t).run_time == anim.run_time,
        spec_anim_update_absent(anim, t).object == anim.object,
        spec_anim_update_absent(anim, t).action == anim.action,
{
    if !(anim.status is Complete) && anim.run_time > 0 {
        let rt = anim.run_time as int;
        let e = if t < rt {
            t
        } else {
            rt
        };
        if e != 0 {
            lemma_progress_raw_bounds(e, rt);
        }
    }
}

/// The status-only transition composes like the full update: advancing to
/// `t1` and then to a later `t2` equals advancing straight to `t2`.
pub proof fn lemma_update_absent_two_steps(anim: Animation, t1: int, t2: int)
    requires
        anim.inv(),
        0 <= t1 <= t2,
    ensures
        spec_anim_update_absent(spec_anim_update_absent(anim, t1), t2) == spec_anim_update_absent(
            anim,
            t2,
        ),
{
    if !(anim.status is Complete) && anim.run_time > 0 {
        let rt = anim.run_time as int;
        let e1 = if t1 < rt {
            t1
        } else {
            rt
        };
        let e2 = if t2 < rt {
            t2
        } else {
            rt
        };
        if e1 != 0 {
            lemma_progress_raw_bounds(e1, rt);
            lemma_progress_raw_bounds(e2, rt);
        }
    }
}

/// Forcing the final state after any partial advance lands exactly where
/// forcing it directly would: catch-up after skipped ticks reaches the
/// played-to-completion state.
pub proof fn lemma_finish_after_update(anim: Animation, o: Object, t: int, res: Resource)
    requires
        anim.inv(),
        o.inv(),
        res.inv(),
        0 <= t,
    ensures
        ({
            let (a1, o1) = spec_anim_update(anim, o, t, res);
            spec_anim_finish(a1, o1, res) == spec_anim_finish(anim, o, res)
        }),
{
    let (a1, o1) = spec_anim_update(anim, o, t, res);
    if anim.status is Complete {
    } else if anim.run_time == 0 {
        lemma_anim_init_preserves_inv(anim, o, res);
    } else {
        let rt = anim.run_time as int;
        let e = if t < rt {
            t
        } else {
            rt
        };
        if e != 0 {
            let ai = if anim.status is NotStarted {
                spec_action_init_action(anim.action, o, res)
            } else {
                anim.action
            };
            let oi = if anim.status is NotStarted {
                spec_action_init_object(anim.action, o)
            } else {
                o
            };
            lemma_anim_init_preserves_inv(anim, o, res);
            lemma_progress_raw_bounds(e, rt);
            lemma_ease_props(anim.rate_func, spec_progress_raw(e, rt));
            if e == rt {
                assert(spec_ease(anim.rate_func, spec_progress_raw(e, rt)) == UNIT as int);
            } else {
                lemma_action_update_last_write_wins(
                    ai,
                    oi,
                    spec_ease(anim.rate_func, spec_progress_raw(e, rt)),
                    UNIT as int,
                );
            }
        }
    }
}

/// The status-only transition is idempotent at a fixed elapsed time.
pub proof fn lemma_update_absent_idempotent(anim: Animation, t: int)
    requires
        anim.inv(),
        0 <= t,
    ensures
        spec_anim_update_absent(spec_anim_update_absent(anim, t), t) == spec_anim_update_absent(
            anim,
            t,
        ),
{
    if !(anim.status is Complete) && anim.run_time > 0 {
        let rt = anim.run_time as int;
        let e = if t < rt {
            t
        } else {
            rt
        };
        if e != 0 {
            lemma_progress_raw_bounds(e, rt);
        }
    }
}

/// The animation and object after a whole schedule of updates, applied in
/// order.
pub open spec fn spec_anim_run(anim: Animation, o: Object, ts: Seq<int>, res: Resource) -> (
    Animation,
    Object,
)
    decreases ts.len(),
{
    if ts.len() == 0 {
        (anim, o)
    } else {
        let prev = spec_anim_run(anim, o, ts.drop_last(), res);
        spec_anim_update(prev.0, prev.1, ts.last(), res)
    }
}

/// Determinism of replay, over a whole schedule: feeding an animation any
/// non-decreasing sequence of elapsed times leaves the animation and the
/// object exactly as one direct advance to the final time does.
pub proof fn lemma_anim_replay_deterministic(
    anim: Animation,
    o: Object,
    ts: Seq<int>,
    res: Resource,
)
    requires
        anim.inv(),
        o.inv(),
        res.inv(),
        ts.len() > 0,
        forall|i: int| 0 <= i < ts.len() ==> 0 <= #[trigger] ts[i],
        forall|i: int, j: int| 0 <= i <= j < ts.len() ==> ts[i] <= ts[j],
    ensures
        spec_anim_run(anim, o, ts, res) == spec_anim_update(anim, o, ts.last(), res),
    decreases ts.len(),
{
    if ts.len() == 1 {
        assert(ts.drop_last().len() == 0);
        assert(spec_anim_run(anim, o, ts.drop_last(), res) == (anim, o));
        assert(spec_anim_run(anim, o, ts, res) == spec_anim_update(anim, o, ts.last(), res));
    } else {
        lemma_anim_replay_deterministic(anim, o, ts.drop_last(), res);
        assert(ts.drop_last().last() == ts[ts.len() - 2]);
        assert(spec_anim_run(anim, o, ts.drop_last(), res) == spec_anim_update(
            anim,
            o,
            ts[ts.len() - 2],
            res,
        ));
        lemma_anim_update_two_steps(anim, o, ts[ts.len() - 2], ts.last(), res);
        assert(spec_anim_run(anim, o, ts, res) == spec_anim_update(
            spec_anim_run(anim, o, ts.drop_last(), res).0,
            spec_anim_run(anim, o, ts.drop_last(), res).1,
            ts.last(),
            res,
        ));
    }
}

/// Capturing the start state preserves both invariants.
pub proof fn lemma_anim_init_preserves_inv(anim: Animation, o: Object, res: Resource)
    requires
        anim.inv(),
        o.inv(),
        res.inv(),
    ensures
        spec_action_init_action(anim.action, o, res).inv(),
        spec_action_init_object(anim.action, o).inv(),
{
}

/// A forced finish and a full-duration update agree on the object: both
/// land it in the played-to-completion state.
pub proof fn lemma_finish_matches_full_update(anim: Animation, o: Object, res: Resource)
    requires
        anim.inv(),
        o.inv(),
        res.inv(),
        anim.run_time > 0,
    ensures
        spec_anim_finish(anim, o, res).1 == spec_anim_update(anim, o, anim.run_time as int, res).1,
{
    if !(anim.status is Complete) {
        lemma_progress_raw_bounds(anim.run_time as int, anim.run_time as int);
        lemma_ease_props(anim.rate_func, UNIT as int);
    }
}

} // verus!
