//! The command timeline and its replay scheduler.
//!
//! Authoring appends [`TimedCommand`]s whose absolute start times are
//! derived from the running end time; playback calls [`Timeline::process`]
//! with a non-decreasing scene time.  Each `process` call first catches up
//! every command strictly before the active batch — forcing skipped
//! animations to exactly their played-to-completion state, in append order
//! — and then interpolates every member of the active batch at the same
//! elapsed time.  A missing object never faults: the object write is
//! skipped while the bookkeeping still advances.

use vstd::prelude::*;

use crate::animation::{
    Animation, Status, TargetAction, spec_anim_finish, spec_anim_update, spec_anim_update_absent,
    spec_target_finish_object,
};
use crate::arena::{Arena, Id, Node};
use crate::object::Object;
use crate::opacity::Opacity;
use crate::resource::Resource;
use crate::units::UNIT;

verus! {

/// One operation on the scene, stamped onto the timeline.
#[derive(Debug, Clone, Copy, PartialEq, Eq, Structural)]
pub enum Command {
    /// Play an animation interpolated through its duration.
    Play(Animation),
    /// Apply a change instantly when the playhead passes it.
    Act(TargetAction),
    /// Make an object visible.
    Show(Id),
    /// Marker for an object removed from the scene.
    Remove(Id),
    /// Occupy scene time without touching any object.
    Wait(u64),
}

impl Command {
    /// How much scene time the command occupies.
    pub open spec fn spec_run_time(self) -> u64 {
        match self {
            Command::Play(anim) => anim.run_time,
            Command::Wait(t) => t,
            _ => 0u64,
        }
    }

    /// How much scene time the command occupies.
    pub fn run_time(&self) -> (r: u64)
        ensures
            r == self.spec_run_time(),
    {
        match self {
            Command::Play(anim) => anim.run_time,
            Command::Wait(t) => *t,
            _ => 0,
        }
    }

    /// The command's stored scalars are all in range.
    pub open spec fn inv(self) -> bool {
        match self {
            Command::Play(anim) => anim.inv(),
            Command::Act(ta) => ta.action.inv(),
            _ => true,
        }
    }

    /// Whether this is a play command that has not finished.
    pub fn need_finish(&self) -> (r: bool)
        ensures
            r == (self matches Command::Play(a) && !(a.status is Complete)),
    {
        if let Command::Play(anim) = self {
            !anim.is_complete()
        } else {
            false
        }
    }
}

/// A command stamped with its absolute start time.
#[derive(Debug, Clone, Copy, PartialEq, Eq, Structural)]
pub struct TimedCommand {
    pub event_time: u64,
    pub inner: Command,
}

/// The append-ordered command log plus its derived end time.
#[derive(Debug)]
pub struct Timeline {
    pub cmds: Vec<TimedCommand>,
    pub end: u64,
}

/// Every play command before index `n` has been observed complete.
pub open spec fn spec_caught_up(cmds: Seq<TimedCommand>, n: int) -> bool {
    forall|j: int|
        0 <= j < n && j < cmds.len() ==> match #[trigger] cmds[j].inner {
            Command::Play(a) => a.status is Complete,
            _ => true,
        }
}

/// The largest duration in a batch of animations.
pub open spec fn spec_max_run(s: Seq<Animation>) -> int
    decreases s.len(),
{
    if s.len() == 0 {
        0
    } else {
        let m = spec_max_run(s.drop_last());
        if s.last().run_time as int > m {
            s.last().run_time as int
        } else {
            m
        }
    }
}

/// A batch of animations stamped with one shared start time.
pub open spec fn spec_stamp(s: Seq<Animation>, at: u64) -> Seq<TimedCommand> {
    Seq::new(s.len(), |i: int| TimedCommand { event_time: at, inner: Command::Play(s[i]) })
}

impl Timeline {
    /// Start times are non-decreasing and begin at zero, every command's
    /// scalars are in range, and `end` bounds every command's span.
    pub open spec fn wf(self) -> bool {
        &&& forall|i: int| 0 <= i < self.cmds@.len() ==> (#[trigger] self.cmds@[i].inner).inv()
        &&& forall|i: int, j: int|
            0 <= i <= j < self.cmds@.len() ==> self.cmds@[i].event_time <= self.cmds@[j].event_time
        &&& self.cmds@.len() > 0 ==> self.cmds@[0].event_time == 0
        &&& self.cmds@.len() == 0 ==> self.end == 0
        &&& forall|i: int|
            0 <= i < self.cmds@.len() ==> (#[trigger] self.cmds@[i]).event_time as int
                + self.cmds@[i].inner.spec_run_time() as int <= self.end as int
    }

    /// An empty timeline.
    pub fn new() -> (r: Timeline)
        ensures
            r.wf(),
            r.cmds@.len() == 0,
            r.end == 0,
    {
        Timeline { cmds: Vec::new(), end: 0 }
    }

    /// The time at which a newly appended command would start.
    pub fn end_time(&self) -> (r: u64)
        ensures
            r == self.end,
    {
        self.end
    }

    /// The durations of all commands, in append order.
    pub fn run_times(&self) -> (r: Vec<u64>)
        ensures
            r@.len() == self.cmds@.len(),
            forall|i: int| 0 <= i < r@.len() ==> r@[i] == self.cmds@[i].inner.spec_run_time(),
    {
        let mut r: Vec<u64> = Vec::new();
        let n = self.cmds.len();
        let mut i: usize = 0;
        while i < n
            invariant
                n == self.cmds@.len(),
                i <= n,
                r@.len() == i,
                forall|k: int| 0 <= k < i ==> r@[k] == self.cmds@[k].inner.spec_run_time(),
            decreases n - i,
        {
            let rt = self.cmds[i].inner.run_time();
            r.push(rt);
            i = i + 1;
        }
        r
    }

    /// The absolute start times of all commands, in append order.
    pub fn time_stamps(&self) -> (r: Vec<u64>)
        ensures
            r@.len() == self.cmds@.len(),
            forall|i: int| 0 <= i < r@.len() ==> r@[i] == self.cmds@[i].event_time,
    {
        let mut r: Vec<u64> = Vec::new();
        let n = self.cmds.len();
        let mut i: usize = 0;
        while i < n
            invariant
                n == self.cmds@.len(),
                i <= n,
                r@.len() == i,
                forall|k: int| 0 <= k < i ==> r@[k] == self.cmds@[k].event_time,
            decreases n - i,
        {
            let t = self.cmds[i].event_time;
            r.push(t);
            i = i + 1;
        }
        r
    }

    /// Append a pause of `t` ticks at the current end time.
    pub fn wait(&mut self, t: u64)
        requires
            old(self).wf(),
            old(self).end as int + t as int <= u64::MAX as int,
        ensures
            final(self).wf(),
            final(self).cmds@ == old(self).cmds@.push(
                TimedCommand { event_time: old(self).end, inner: Command::Wait(t) },
            ),
            final(self).end == old(self).end + t,
    {
        let at = self.end;
        self.cmds.push(TimedCommand { event_time: at, inner: Command::Wait(t) });
        self.end = at + t;
    }

    /// Append a zero-duration show command at the current end time.
    pub fn show(&mut self, object: Id)
        requires
            old(self).wf(),
        ensures
            final(self).wf(),
            final(self).cmds@ == old(self).cmds@.push(
                TimedCommand { event_time: old(self).end, inner: Command::Show(object) },
            ),
            final(self).end == old(self).end,
    {
        let at = self.end;
        self.cmds.push(TimedCommand { event_time: at, inner: Command::Show(object) });
    }

    /// Append a zero-duration instant action at the current end time.
    pub fn act(&mut self, ta: TargetAction)
        requires
            old(self).wf(),
            ta.action.inv(),
        ensures
            final(self).wf(),
            final(self).cmds@ == old(self).cmds@.push(
                TimedCommand { event_time: old(self).end, inner: Command::Act(ta) },
            ),
            final(self).end == old(self).end,
    {
        let at = self.end;
        self.cmds.push(TimedCommand { event_time: at, inner: Command::Act(ta) });
    }

    /// Append a batch of animations sharing one start time — the current
    /// end time — and advance the end time by the batch's longest
    /// duration.
    #[verifier::loop_isolation(false)]
    pub fn play(&mut self, animations: Vec<Animation>)
        requires
            old(self).wf(),
            forall|i: int| 0 <= i < animations@.len() ==> (#[trigger] animations@[i]).inv(),
            old(self).end as int + crate::units::MAX_RUN_TIME as int <= u64::MAX as int,
        ensures
            final(self).wf(),
            final(self).cmds@ == old(self).cmds@ + spec_stamp(animations@, old(self).end),
            final(self).end == old(self).end + spec_max_run(animations@),
    {
        let start = self.end;
        let mut maxd: u64 = 0;
        let n = animations.len();
        let mut i: usize = 0;
        while i < n
            invariant
                forall|k: int| 0 <= k < self.cmds@.len() ==> (#[trigger] self.cmds@[k].inner).inv(),
                forall|k: int, l: int|
                    0 <= k <= l < self.cmds@.len() ==> self.cmds@[k].event_time
                        <= self.cmds@[l].event_time,
                self.cmds@.len() > 0 ==> self.cmds@[0].event_time == 0,
                forall|k: int|
                    0 <= k < old(self).cmds@.len() ==> (#[trigger] self.cmds@[k]).event_time as int
                        + self.cmds@[k].inner.spec_run_time() as int <= old(self).end as int,
                forall|k: int|
                    old(self).cmds@.len() <= k < self.cmds@.len()
                        ==> (#[trigger] self.cmds@[k]).event_time == start,
                n == animations@.len(),
                forall|k: int| 0 <= k < n ==> (#[trigger] animations@[k]).inv(),
                i <= n,
                start == old(self).end,
                self.end == old(self).end,
                self.cmds@ == old(self).cmds@ + spec_stamp(animations@.take(i as int), start),
                maxd as int == spec_max_run(animations@.take(i as int)),
                maxd <= crate::units::MAX_RUN_TIME,
                forall|k: int|
                    old(self).cmds@.len() <= k < self.cmds@.len() ==> (#[trigger] self.cmds@[k]).inner.spec_run_time()
                        <= maxd,
            decreases n - i,
        {
            let a = animations[i];
            if a.run_time > maxd {
                maxd = a.run_time;
            }
            self.cmds.push(TimedCommand { event_time: start, inner: Command::Play(a) });
            proof {
                assert(animations@.take(i + 1).drop_last() =~= animations@.take(i as int));
                assert(animations@.take(i + 1).last() == animations@[i as int]);
                assert(self.cmds@ =~= old(self).cmds@ + spec_stamp(
                    animations@.take(i + 1),
                    start,
                ));
            }
            i = i + 1;
        }
        proof {
            assert(animations@.take(n as int) =~= animations@);
        }
        self.end = start + maxd;
    }

    /// Locate the playhead for `time`: the start time of the latest
    /// command at or before `time`, the first command of its batch with
    /// nonzero duration (falling back to the latest), and the latest
    /// command itself.
    #[verifier::loop_isolation(false)]
    pub fn find_index(&self, time: u64) -> (r: (u64, usize, usize))
        requires
            self.wf(),
            self.cmds@.len() > 0,
        ensures
            ({
                let (start, istart, iend) = r;
                &&& iend < self.cmds@.len()
                &&& iend as int == spec_idx_end(self.cmds@, time as int)
                &&& istart as int == spec_idx_start(self.cmds@, time as int)
                &&& start == self.cmds@[iend as int].event_time
                &&& start <= time
                &&& istart <= iend
                &&& forall|k: int|
                    istart as int <= k <= iend as int ==> (#[trigger] self.cmds@[k]).event_time
                        == start
                &&& forall|j: int|
                    iend < j < self.cmds@.len() ==> (#[trigger] self.cmds@[j]).event_time > time
            }),
    {
        let n = self.cmds.len();
        let mut iend: usize = n - 1;
        while self.cmds[iend].event_time > time
            invariant
                iend < n,
                forall|j: int|
                    iend < j < n ==> (#[trigger] self.cmds@[j]).event_time > time,
            decreases iend,
        {
            iend = iend - 1;
        }
        let start = self.cmds[iend].event_time;
        let mut istart: usize = iend;
        let mut found = false;
        let mut j: usize = 0;
        while j < iend
            invariant
                j <= iend,
                iend < n,
                start == self.cmds@[iend as int].event_time,
                found ==> istart < iend && self.cmds@[istart as int].event_time == start && self.cmds@[istart as int].inner.spec_run_time() > 0 && (forall|k: int|
                    0 <= k < istart as int ==> !((#[trigger] self.cmds@[k]).event_time == start
                        && self.cmds@[k].inner.spec_run_time() > 0)),
                !found ==> istart == iend && (forall|k: int|
                    0 <= k < j ==> !((#[trigger] self.cmds@[k]).event_time == start
                        && self.cmds@[k].inner.spec_run_time() > 0)),
            decreases n - j,
        {
            if !found {
                let c = self.cmds[j];
                if c.event_time == start && c.inner.run_time() > 0 {
                    istart = j;
                    found = true;
                }
            }
            j = j + 1;
        }
        proof {
            lemma_find_index_props(self.cmds@, time as int);
            let sie = spec_idx_end(self.cmds@, time as int);
            if (iend as int) < sie {
                assert(self.cmds@[sie].event_time > time);
                assert(false);
            }
            if (iend as int) > sie {
                assert(self.cmds@[iend as int].event_time > time);
                assert(false);
            }
            let sis = spec_idx_start(self.cmds@, time as int);
            if (istart as int) < sis {
                assert(false);
            }
            if sis < (istart as int) {
                assert(false);
            }
        }
        (start, istart, iend)
    }

    /// Advance playback to scene time `time`.
    ///
    /// Every command strictly between the previous playhead `prev` and
    /// the active batch is first forced to its final state, in append
    /// order; then every play command of the active batch is advanced by
    /// the same elapsed time.  The returned index is the active batch's
    /// start — to be passed back as `prev` on the next call — and every
    /// play command whose span has fully elapsed is complete afterwards.
    /// A missing object is silently skipped, never an error.
    #[verifier::loop_isolation(false)]
    #[verifier::rlimit(100)]
    pub fn process(&mut self, prev: usize, time: u64, objects: &mut Arena, resource: &Resource) -> (
        r: usize)
        requires
            old(self).wf(),
            old(self).cmds@.len() > 0,
            old(objects).wf(),
            spec_objs_inv(old(objects).contents()),
            resource.inv(),
            spec_caught_up(old(self).cmds@, prev as int),
        ensures
            final(self).wf(),
            final(objects).wf(),
            spec_objs_inv(final(objects).contents()),
            final(objects).contents().dom() == old(objects).contents().dom(),
            final(objects).generation == old(objects).generation,
            final(self).end == old(self).end,
            final(self).cmds@.len() == old(self).cmds@.len(),
            forall|k: int|
                0 <= k < old(self).cmds@.len() ==> (#[trigger] final(self).cmds@[k]).event_time
                    == old(self).cmds@[k].event_time && final(self).cmds@[k].inner.spec_run_time()
                    == old(self).cmds@[k].inner.spec_run_time(),
            r as int == spec_idx_start(old(self).cmds@, time as int),
            r < old(self).cmds@.len(),
            (final(self).cmds@, final(objects).contents()) == spec_process(
                old(self).cmds@,
                old(objects).contents(),
                *resource,
                prev as int,
                time as int,
            ),
            spec_caught_up(final(self).cmds@, r as int),
            forall|k: int|
                0 <= k < final(self).cmds@.len() ==> match (#[trigger] final(self).cmds@[k]).inner {
                    Command::Play(a) => final(self).cmds@[k].event_time as int + a.run_time as int
                        <= time as int ==> a.status is Complete,
                    _ => true,
                },
    {
        let ghost cmds0 = self.cmds@;
        let ghost objs0 = objects.contents();
        let (start, istart, iend) = self.find_index(time);
        let dt = time - start;
        let mut j: usize = prev;
        if prev < istart {
            while j < istart
                invariant
                    prev <= j <= istart,
                    self.cmds@.len() == cmds0.len(),
                    objects.wf(),
                    spec_objs_inv(objects.contents()),
                    objects.contents().dom() == objs0.dom(),
                    objects.generation == old(objects).generation,
                    self.end == old(self).end,
                    forall|k: int|
                        0 <= k < cmds0.len() ==> (#[trigger] self.cmds@[k]).event_time
                            == cmds0[k].event_time && self.cmds@[k].inner.spec_run_time()
                            == cmds0[k].inner.spec_run_time(),
                    forall|k: int|
                        0 <= k < cmds0.len() && !(prev as int <= k < j as int)
                            ==> #[trigger] self.cmds@[k] == cmds0[k],
                    forall|k: int| 0 <= k < cmds0.len() ==> (#[trigger] self.cmds@[k].inner).inv(),
                    (self.cmds@, objects.contents()) == spec_catch_range(
                        cmds0,
                        objs0,
                        *resource,
                        prev as int,
                        j as int,
                    ),
                    forall|k: int|
                        prev as int <= k < j as int ==> match (#[trigger] self.cmds@[k]).inner {
                            Command::Play(a) => a.status is Complete,
                            _ => true,
                        },
                decreases istart - j,
            {
                let c = self.cmds[j];
                let c2 = catch_step(c, objects, resource);
                self.cmds[j] = c2;
                j = j + 1;
            }
        }
        let ghost caught = spec_catch_range(cmds0, objs0, *resource, prev as int, istart as int);
        let ghost cmds1 = self.cmds@;
        let ghost objs1 = objects.contents();
        proof {
            assert((cmds1, objs1) == caught);
        }
        let mut j2: usize = istart;
        while j2 <= iend
            invariant
                istart <= j2 <= iend + 1,
                self.cmds@.len() == cmds0.len(),
                objects.wf(),
                spec_objs_inv(objects.contents()),
                objects.contents().dom() == objs0.dom(),
                objects.generation == old(objects).generation,
                self.end == old(self).end,
                forall|k: int|
                    0 <= k < cmds0.len() ==> (#[trigger] self.cmds@[k]).event_time
                        == cmds0[k].event_time && self.cmds@[k].inner.spec_run_time()
                        == cmds0[k].inner.spec_run_time(),
                forall|k: int|
                    0 <= k < cmds0.len() && !(istart as int <= k < j2 as int)
                        ==> #[trigger] self.cmds@[k] == cmds1[k],
                forall|k: int| 0 <= k < cmds0.len() ==> (#[trigger] self.cmds@[k].inner).inv(),
                (self.cmds@, objects.contents()) == spec_active_range(
                    caught.0,
                    caught.1,
                    dt as int,
                    *resource,
                    istart as int,
                    j2 as int,
                ),
                forall|k: int|
                    prev as int <= k < istart as int ==> match (#[trigger] self.cmds@[k]).inner {
                        Command::Play(a) => a.status is Complete,
                        _ => true,
                    },
                forall|k: int|
                    istart as int <= k < j2 as int ==> match (#[trigger] self.cmds@[k]).inner {
                        Command::Play(a) => self.cmds@[k].event_time as int + a.run_time as int
                            <= time as int ==> a.status is Complete,
                        _ => true,
                    },
            decreases iend + 1 - j2,
        {
            let n_now = self.cmds.len();
            let c = self.cmds[j2];
            let c2 = active_step(c, objects, dt, resource);
            self.cmds[j2] = c2;
            proof {
                assert(j2 < n_now);
            }
            j2 = j2 + 1;
        }
        proof {
            assert(self.wf());
            assert((self.cmds@, objects.contents()) == spec_process(
                cmds0,
                objs0,
                *resource,
                prev as int,
                time as int,
            ));
        }
        istart
    }
}

/// Every live object in the pool is well-formed.
pub open spec fn spec_objs_inv(m: Map<Id, Node>) -> bool {
    forall|id: Id| m.contains_key(id) ==> (#[trigger] m[id]).inner.inv()
}

/// One catch-up step: force a skipped command to its final state.  A play
/// or instant action runs to completion against its object; a show makes
/// its object visible; a missing object skips the write while a play's
/// status still becomes complete.
pub open spec fn spec_catch_cmd(c: TimedCommand, objs: Map<Id, Node>, res: Resource) -> (
    TimedCommand,
    Map<Id, Node>,
) {
    match c.inner {
        Command::Play(anim) => {
            if objs.contains_key(anim.object) {
                let node = objs[anim.object];
                let (a2, o2) = spec_anim_finish(anim, node.inner, res);
                (
                    TimedCommand { event_time: c.event_time, inner: Command::Play(a2) },
                    objs.insert(anim.object, Node { inner: o2, ..node }),
                )
            } else {
                (
                    TimedCommand {
                        event_time: c.event_time,
                        inner: Command::Play(Animation { status: Status::Complete, ..anim }),
                    },
                    objs,
                )
            }
        },
        Command::Act(ta) => {
            if objs.contains_key(ta.target) {
                let node = objs[ta.target];
                let a2 = crate::action::spec_action_init_action(ta.action, node.inner, res);
                let o2 = spec_target_finish_object(ta.action, node.inner, res);
                (
                    TimedCommand {
                        event_time: c.event_time,
                        inner: Command::Act(TargetAction { action: a2, ..ta }),
                    },
                    objs.insert(ta.target, Node { inner: o2, ..node }),
                )
            } else {
                (c, objs)
            }
        },
        Command::Show(id) => {
            if objs.contains_key(id) {
                let node = objs[id];
                (
                    c,
                    objs.insert(
                        id,
                        Node {
                            inner: Object {
                                opacity: Opacity { visible: true, alpha: UNIT as u64 },
                                ..node.inner
                            },
                            ..node
                        },
                    ),
                )
            } else {
                (c, objs)
            }
        },
        _ => (c, objs),
    }
}

/// One active step: advance a play command to elapsed time `dt`.  A
/// missing object advances only the status.
pub open spec fn spec_active_cmd(c: TimedCommand, objs: Map<Id, Node>, dt: int, res: Resource) -> (
    TimedCommand,
    Map<Id, Node>,
) {
    match c.inner {
        Command::Play(anim) => {
            if objs.contains_key(anim.object) {
                let node = objs[anim.object];
                let (a2, o2) = spec_anim_update(anim, node.inner, dt, res);
                (
                    TimedCommand { event_time: c.event_time, inner: Command::Play(a2) },
                    objs.insert(anim.object, Node { inner: o2, ..node }),
                )
            } else {
                (
                    TimedCommand {
                        event_time: c.event_time,
                        inner: Command::Play(spec_anim_update_absent(anim, dt)),
                    },
                    objs,
                )
            }
        },
        _ => (c, objs),
    }
}

/// Catch up the commands at indices `[lo, hi)`, in append order.
pub open spec fn spec_catch_range(
    cmds: Seq<TimedCommand>,
    objs: Map<Id, Node>,
    res: Resource,
    lo: int,
    hi: int,
) -> (Seq<TimedCommand>, Map<Id, Node>)
    decreases hi - lo,
{
    if hi <= lo {
        (cmds, objs)
    } else {
        let prefix = spec_catch_range(cmds, objs, res, lo, hi - 1);
        let step = spec_catch_cmd(prefix.0[hi - 1], prefix.1, res);
        (prefix.0.update(hi - 1, step.0), step.1)
    }
}

/// Advance the commands at indices `[lo, hi)` to elapsed time `dt`, in
/// append order.
pub open spec fn spec_active_range(
    cmds: Seq<TimedCommand>,
    objs: Map<Id, Node>,
    dt: int,
    res: Resource,
    lo: int,
    hi: int,
) -> (Seq<TimedCommand>, Map<Id, Node>)
    decreases hi - lo,
{
    if hi <= lo {
        (cmds, objs)
    } else {
        let prefix = spec_active_range(cmds, objs, dt, res, lo, hi - 1);
        let step = spec_active_cmd(prefix.0[hi - 1], prefix.1, dt, res);
        (prefix.0.update(hi - 1, step.0), step.1)
    }
}

/// The timeline and object pool after one whole `process` call at scene
/// time `time` with previous playhead `prev`: catch-up of `[prev,
/// idx_start)`, then the active pass over `[idx_start, idx_end]`.
pub open spec fn spec_process(
    cmds: Seq<TimedCommand>,
    objs: Map<Id, Node>,
    res: Resource,
    prev: int,
    time: int,
) -> (Seq<TimedCommand>, Map<Id, Node>) {
    let iend = spec_idx_end(cmds, time);
    let istart = spec_idx_start(cmds, time);
    let dt = time - spec_start_time(cmds, time);
    let caught = spec_catch_range(cmds, objs, res, prev, istart);
    spec_active_range(caught.0, caught.1, dt, res, istart, iend + 1)
}

/// Execute one catch-up step against the object pool.
fn catch_step(c: TimedCommand, objects: &mut Arena, resource: &Resource) -> (c2: TimedCommand)
    requires
        c.inner.inv(),
        old(objects).wf(),
        spec_objs_inv(old(objects).contents()),
        resource.inv(),
    ensures
        final(objects).wf(),
        spec_objs_inv(final(objects).contents()),
        final(objects).contents().dom() == old(objects).contents().dom(),
        final(objects).generation == old(objects).generation,
        (c2, final(objects).contents()) == spec_catch_cmd(c, old(objects).contents(), *resource),
        c2.event_time == c.event_time,
        c2.inner.spec_run_time() == c.inner.spec_run_time(),
        c2.inner.inv(),
        c.inner is Play ==> match c2.inner {
            Command::Play(a) => a.status is Complete,
            _ => false,
        },
{
    match c.inner {
        Command::Play(anim_in) => {
            let mut anim = anim_in;
            match objects.get(anim.object) {
                Some(node) => {
                    let mut obj = node.inner;
                    anim.finish(&mut obj, resource);
                    let node2 = Node { inner: obj, ..node };
                    let _ = objects.put(anim.object, node2);
                    proof {
                        assert(objects.contents().dom() =~= old(objects).contents().dom());
                    }
                },
                None => {
                    anim.finish_absent();
                },
            }
            TimedCommand { event_time: c.event_time, inner: Command::Play(anim) }
        },
        Command::Act(ta_in) => {
            let mut ta = ta_in;
            match objects.get(ta.target) {
                Some(node) => {
                    let mut obj = node.inner;
                    ta.finish(&mut obj, resource);
                    let node2 = Node { inner: obj, ..node };
                    let _ = objects.put(ta.target, node2);
                    proof {
                        assert(objects.contents().dom() =~= old(objects).contents().dom());
                    }
                    TimedCommand { event_time: c.event_time, inner: Command::Act(ta) }
                },
                None => c,
            }
        },
        Command::Show(id) => {
            match objects.get(id) {
                Some(node) => {
                    let mut obj = node.inner;
                    obj.show();
                    let node2 = Node { inner: obj, ..node };
                    let _ = objects.put(id, node2);
                    proof {
                        assert(objects.contents().dom() =~= old(objects).contents().dom());
                    }
                },
                None => {},
            }
            c
        },
        _ => c,
    }
}

/// Execute one active-pass step against the object pool.
fn active_step(c: TimedCommand, objects: &mut Arena, dt: u64, resource: &Resource) -> (c2:
    TimedCommand)
    requires
        c.inner.inv(),
        old(objects).wf(),
        spec_objs_inv(old(objects).contents()),
        resource.inv(),
    ensures
        final(objects).wf(),
        spec_objs_inv(final(objects).contents()),
        final(objects).contents().dom() == old(objects).contents().dom(),
        final(objects).generation == old(objects).generation,
        (c2, final(objects).contents()) == spec_active_cmd(
            c,
            old(objects).contents(),
            dt as int,
            *resource,
        ),
        c2.event_time == c.event_time,
        c2.inner.spec_run_time() == c.inner.spec_run_time(),
        c2.inner.inv(),
        match c2.inner {
            Command::Play(a) => a.run_time <= dt ==> a.status is Complete,
            _ => true,
        },
{
    match c.inner {
        Command::Play(anim_in) => {
            let mut anim = anim_in;
            match objects.get(anim.object) {
                Some(node) => {
                    let mut obj = node.inner;
                    anim.update(&mut obj, dt, resource);
                    let node2 = Node { inner: obj, ..node };
                    let _ = objects.put(anim.object, node2);
                    proof {
                        assert(objects.contents().dom() =~= old(objects).contents().dom());
                    }
                },
                None => {
                    anim.update_absent(dt);
                },
            }
            TimedCommand { event_time: c.event_time, inner: Command::Play(anim) }
        },
        _ => c,
    }
}

/// The object a play command targets, if the command is a play.
pub open spec fn play_target(c: TimedCommand) -> Option<Id> {
    match c.inner {
        Command::Play(a) => Some(a.object),
        _ => None,
    }
}

/// No two play commands in `[lo, hi)` share a target object.
pub open spec fn distinct_play_targets(cs: Seq<TimedCommand>, lo: int, hi: int) -> bool {
    forall|k1: int, k2: int|
        lo <= k1 < k2 < hi && (#[trigger] play_target(cs[k1])) is Some && (#[trigger] play_target(
            cs[k2],
        )) is Some ==> play_target(cs[k1]) != play_target(cs[k2])
}

/// Some play command in `[lo, hi)` targets `id`.
pub open spec fn range_writes(cs: Seq<TimedCommand>, lo: int, hi: int, id: Id) -> bool {
    exists|k: int| lo <= k < hi && #[trigger] play_target(cs[k]) == Some(id)
}

/// Pointwise description of one active pass over `[lo, hi)` when its play
/// commands target pairwise distinct objects: every step then reads its
/// object exactly as the pass found it, so each command and each written
/// node is a function of the original state alone.
pub proof fn lemma_active_range_pointwise(
    cs: Seq<TimedCommand>,
    m: Map<Id, Node>,
    dt: int,
    res: Resource,
    lo: int,
    hi: int,
)
    requires
        0 <= lo <= hi <= cs.len(),
        distinct_play_targets(cs, lo, hi),
        spec_objs_inv(m),
        res.inv(),
        0 <= dt,
        forall|k: int| lo <= k < hi ==> (#[trigger] cs[k].inner).inv(),
    ensures
        ({
            let (csf, mf) = spec_active_range(cs, m, dt, res, lo, hi);
            &&& csf.len() == cs.len()
            &&& forall|k: int| 0 <= k < cs.len() && !(lo <= k < hi) ==> csf[k] == cs[k]
            &&& mf.dom() == m.dom()
            &&& spec_objs_inv(mf)
            &&& forall|k: int|
                0 <= k < cs.len() ==> (#[trigger] csf[k]).event_time == cs[k].event_time
                    && csf[k].inner.spec_run_time() == cs[k].inner.spec_run_time() && play_target(
                    csf[k],
                ) == play_target(cs[k])
            &&& forall|k: int| lo <= k < hi ==> (#[trigger] csf[k].inner).inv()
            &&& forall|id: Id|
                !range_writes(cs, lo, hi, id) && m.contains_key(id) ==> #[trigger] mf[id] == m[id]
            &&& forall|k: int|
                lo <= k < hi ==> match (#[trigger] cs[k]).inner {
                    Command::Play(a) => {
                        &&& (m.contains_key(a.object) ==> csf[k] == (TimedCommand {
                            event_time: cs[k].event_time,
                            inner: Command::Play(spec_anim_update(a, m[a.object].inner, dt, res).0),
                        }) && mf[a.object] == (Node {
                            inner: spec_anim_update(a, m[a.object].inner, dt, res).1,
                            ..m[a.object]
                        }))
                        &&& (!m.contains_key(a.object) ==> csf[k] == (TimedCommand {
                            event_time: cs[k].event_time,
                            inner: Command::Play(spec_anim_update_absent(a, dt)),
                        }))
                    },
                    _ => csf[k] == cs[k],
                }
        }),
    decreases hi - lo,
{
    if hi > lo {
        lemma_active_range_pointwise(cs, m, dt, res, lo, hi - 1);
        let (csp, mp) = spec_active_range(cs, m, dt, res, lo, hi - 1);
        let (csf, mf) = spec_active_range(cs, m, dt, res, lo, hi);
        assert(csp[hi - 1] == cs[hi - 1]);
        match cs[hi - 1].inner {
            Command::Play(a) => {
                assert(!range_writes(cs, lo, hi - 1, a.object)) by {
                    if range_writes(cs, lo, hi - 1, a.object) {
                        let k = choose|k: int|
                            lo <= k < hi - 1 && #[trigger] play_target(cs[k]) == Some(a.object);
                        assert(play_target(cs[hi - 1]) == Some(a.object));
                    }
                };
                if m.contains_key(a.object) {
                    assert(mp[a.object] == m[a.object]);
                    assert(mf.dom() =~= m.dom());
                    crate::animation::lemma_spec_anim_update_preserves_inv(
                        a,
                        m[a.object].inner,
                        dt,
                        res,
                    );
                } else {
                    assert(!mp.contains_key(a.object));
                    crate::animation::lemma_spec_anim_update_absent_preserves_inv(a, dt);
                }
            },
            _ => {},
        }
        assert forall|k: int| lo <= k < hi implies match (#[trigger] cs[k]).inner {
            Command::Play(a) => {
                &&& (m.contains_key(a.object) ==> csf[k] == (TimedCommand {
                    event_time: cs[k].event_time,
                    inner: Command::Play(spec_anim_update(a, m[a.object].inner, dt, res).0),
                }) && mf[a.object] == (Node {
                    inner: spec_anim_update(a, m[a.object].inner, dt, res).1,
                    ..m[a.object]
                }))
                &&& (!m.contains_key(a.object) ==> csf[k] == (TimedCommand {
                    event_time: cs[k].event_time,
                    inner: Command::Play(spec_anim_update_absent(a, dt)),
                }))
            },
            _ => csf[k] == cs[k],
        } by {
            if k < hi - 1 {
                match cs[k].inner {
                    Command::Play(a) => {
                        if m.contains_key(a.object) {
                            match cs[hi - 1].inner {
                                Command::Play(b) => {
                                    assert(play_target(cs[k]) == Some(a.object));
                                    assert(play_target(cs[hi - 1]) == Some(b.object));
                                    assert(a.object != b.object);
                                },
                                _ => {},
                            }
                        }
                    },
                    _ => {},
                }
            }
        };
    }
}

/// The object any command touches when caught up or played, if there is
/// one.
pub open spec fn command_target(c: TimedCommand) -> Option<Id> {
    match c.inner {
        Command::Play(a) => Some(a.object),
        Command::Act(ta) => Some(ta.target),
        Command::Show(id) => Some(id),
        _ => None,
    }
}

/// No two commands in `[lo, hi)` touch the same object.
pub open spec fn distinct_command_targets(cs: Seq<TimedCommand>, lo: int, hi: int) -> bool {
    forall|k1: int, k2: int|
        lo <= k1 < k2 < hi && (#[trigger] command_target(cs[k1])) is Some && (
        #[trigger] command_target(cs[k2])) is Some ==> command_target(cs[k1]) != command_target(
            cs[k2],
        )
}

/// Some command in `[lo, hi)` touches `id`.
pub open spec fn range_touches(cs: Seq<TimedCommand>, lo: int, hi: int, id: Id) -> bool {
    exists|k: int| lo <= k < hi && #[trigger] command_target(cs[k]) == Some(id)
}

/// A catch-up pass over `[lo, hi)` splits at any midpoint.
proof fn lemma_catch_range_split(
    cs: Seq<TimedCommand>,
    m: Map<Id, Node>,
    res: Resource,
    lo: int,
    mid: int,
    hi: int,
)
    requires
        lo <= mid <= hi,
    ensures
        ({
            let p = spec_catch_range(cs, m, res, lo, mid);
            spec_catch_range(cs, m, res, lo, hi) == spec_catch_range(p.0, p.1, res, mid, hi)
        }),
    decreases hi - mid,
{
    if hi > mid {
        lemma_catch_range_split(cs, m, res, lo, mid, hi - 1);
    }
}

/// Pointwise description of one catch-up pass over `[lo, hi)` when its
/// commands touch pairwise distinct objects: every step then reads its
/// object exactly as the pass found it.
pub proof fn lemma_catch_range_pointwise(
    cs: Seq<TimedCommand>,
    m: Map<Id, Node>,
    res: Resource,
    lo: int,
    hi: int,
)
    requires
        0 <= lo <= hi <= cs.len(),
        distinct_command_targets(cs, lo, hi),
        spec_objs_inv(m),
        res.inv(),
        forall|k: int| lo <= k < hi ==> (#[trigger] cs[k].inner).inv(),
    ensures
        ({
            let (csf, mf) = spec_catch_range(cs, m, res, lo, hi);
            &&& csf.len() == cs.len()
            &&& forall|k: int| 0 <= k < cs.len() && !(lo <= k < hi) ==> csf[k] == cs[k]
            &&& mf.dom() == m.dom()
            &&& forall|id: Id|
                !range_touches(cs, lo, hi, id) && m.contains_key(id) ==> #[trigger] mf[id] == m[id]
            &&& forall|k: int|
                lo <= k < hi ==> match (#[trigger] cs[k]).inner {
                    Command::Play(a) => {
                        &&& (m.contains_key(a.object) ==> csf[k] == (TimedCommand {
                            event_time: cs[k].event_time,
                            inner: Command::Play(spec_anim_finish(a, m[a.object].inner, res).0),
                        }) && mf[a.object] == (Node {
                            inner: spec_anim_finish(a, m[a.object].inner, res).1,
                            ..m[a.object]
                        }))
                        &&& (!m.contains_key(a.object) ==> csf[k] == (TimedCommand {
                            event_time: cs[k].event_time,
                            inner: Command::Play(Animation { status: Status::Complete, ..a }),
                        }))
                    },
                    Command::Act(ta) => {
                        &&& (m.contains_key(ta.target) ==> csf[k] == (TimedCommand {
                            event_time: cs[k].event_time,
                            inner: Command::Act(
                                TargetAction {
                                    action: crate::action::spec_action_init_action(
                                        ta.action,
                                        m[ta.target].inner,
                                        res,
                                    ),
                                    ..ta
                                },
                            ),
                        }) && mf[ta.target] == (Node {
                            inner: spec_target_finish_object(ta.action, m[ta.target].inner, res),
                            ..m[ta.target]
                        }))
                        &&& (!m.contains_key(ta.target) ==> csf[k] == cs[k])
                    },
                    Command::Show(id) => {
                        &&& csf[k] == cs[k]
                        &&& (m.contains_key(id) ==> mf[id] == (Node {
                            inner: Object {
                                opacity: Opacity { visible: true, alpha: UNIT as u64 },
                                ..m[id].inner
                            },
                            ..m[id]
                        }))
                    },
                    _ => csf[k] == cs[k],
                }
        }),
    decreases hi - lo,
{
    if hi > lo {
        lemma_catch_range_pointwise(cs, m, res, lo, hi - 1);
        let (csp, mp) = spec_catch_range(cs, m, res, lo, hi - 1);
        let (csf, mf) = spec_catch_range(cs, m, res, lo, hi);
        assert(csp[hi - 1] == cs[hi - 1]);
        match cs[hi - 1].inner {
            Command::Play(a) => {
                assert(!range_touches(cs, lo, hi - 1, a.object)) by {
                    if range_touches(cs, lo, hi - 1, a.object) {
                        let k = choose|k: int|
                            lo <= k < hi - 1 && #[trigger] command_target(cs[k]) == Some(a.object);
                        assert(command_target(cs[hi - 1]) == Some(a.object));
                    }
                };
                if m.contains_key(a.object) {
                    assert(mp[a.object] == m[a.object]);
                    assert(mf.dom() =~= m.dom());
                }
            },
            Command::Act(ta) => {
                assert(!range_touches(cs, lo, hi - 1, ta.target)) by {
                    if range_touches(cs, lo, hi - 1, ta.target) {
                        let k = choose|k: int|
                            lo <= k < hi - 1 && #[trigger] command_target(cs[k]) == Some(ta.target);
                        assert(command_target(cs[hi - 1]) == Some(ta.target));
                    }
                };
                if m.contains_key(ta.target) {
                    assert(mp[ta.target] == m[ta.target]);
                    assert(mf.dom() =~= m.dom());
                }
            },
            Command::Show(id) => {
                assert(!range_touches(cs, lo, hi - 1, id)) by {
                    if range_touches(cs, lo, hi - 1, id) {
                        let k = choose|k: int|
                            lo <= k < hi - 1 && #[trigger] command_target(cs[k]) == Some(id);
                        assert(command_target(cs[hi - 1]) == Some(id));
                    }
                };
                if m.contains_key(id) {
                    assert(mp[id] == m[id]);
                    assert(mf.dom() =~= m.dom());
                }
            },
            _ => {},
        }
        assert forall|k: int| lo <= k < hi - 1 implies match (#[trigger] cs[k]).inner {
            Command::Play(a) => (m.contains_key(a.object) ==> mf[a.object] == (Node {
                inner: spec_anim_finish(a, m[a.object].inner, res).1,
                ..m[a.object]
            })),
            Command::Act(ta) => (m.contains_key(ta.target) ==> mf[ta.target] == (Node {
                inner: spec_target_finish_object(ta.action, m[ta.target].inner, res),
                ..m[ta.target]
            })),
            Command::Show(id) => (m.contains_key(id) ==> mf[id] == (Node {
                inner: Object {
                    opacity: Opacity { visible: true, alpha: UNIT as u64 },
                    ..m[id].inner
                },
                ..m[id]
            })),
            _ => true,
        } by {
            match cs[k].inner {
                Command::Play(a) => {
                    if m.contains_key(a.object) {
                        assert(command_target(cs[k]) == Some(a.object));
                        assert(command_target(cs[k]) != command_target(cs[hi - 1]) || !(
                        command_target(cs[hi - 1]) is Some));
                    }
                },
                Command::Act(ta) => {
                    if m.contains_key(ta.target) {
                        assert(command_target(cs[k]) == Some(ta.target));
                        assert(command_target(cs[k]) != command_target(cs[hi - 1]) || !(
                        command_target(cs[hi - 1]) is Some));
                    }
                },
                Command::Show(id) => {
                    if m.contains_key(id) {
                        assert(command_target(cs[k]) == Some(id));
                        assert(command_target(cs[k]) != command_target(cs[hi - 1]) || !(
                        command_target(cs[hi - 1]) is Some));
                    }
                },
                _ => {},
            }
        };
    }
}

/// Frame facts for one catch-up pass over `[lo, hi)`: the pass changes
/// only statuses, captured start states and targeted objects — lengths,
/// start times, durations, play targets, the set of live handles and all
/// invariants are preserved, and commands outside the range are untouched.
pub proof fn lemma_catch_range_frame(
    cs: Seq<TimedCommand>,
    m: Map<Id, Node>,
    res: Resource,
    lo: int,
    hi: int,
)
    requires
        0 <= lo <= hi <= cs.len(),
        spec_objs_inv(m),
        res.inv(),
        forall|k: int| lo <= k < hi ==> (#[trigger] cs[k].inner).inv(),
    ensures
        ({
            let (csf, mf) = spec_catch_range(cs, m, res, lo, hi);
            &&& csf.len() == cs.len()
            &&& forall|k: int| 0 <= k < cs.len() && !(lo <= k < hi) ==> csf[k] == cs[k]
            &&& forall|k: int|
                0 <= k < cs.len() ==> (#[trigger] csf[k]).event_time == cs[k].event_time
                    && csf[k].inner.spec_run_time() == cs[k].inner.spec_run_time() && play_target(
                    csf[k],
                ) == play_target(cs[k]) && command_target(csf[k]) == command_target(cs[k])
            &&& forall|k: int| lo <= k < hi ==> (#[trigger] csf[k].inner).inv()
            &&& mf.dom() == m.dom()
            &&& spec_objs_inv(mf)
        }),
    decreases hi - lo,
{
    if hi > lo {
        lemma_catch_range_frame(cs, m, res, lo, hi - 1);
        let (csp, mp) = spec_catch_range(cs, m, res, lo, hi - 1);
        assert(csp[hi - 1] == cs[hi - 1]);
        match cs[hi - 1].inner {
            Command::Play(a) => {
                if mp.contains_key(a.object) {
                    crate::animation::lemma_spec_anim_finish_preserves_inv(
                        a,
                        mp[a.object].inner,
                        res,
                    );
                    assert(spec_catch_range(cs, m, res, lo, hi).1.dom() =~= m.dom());
                }
            },
            Command::Act(ta) => {
                if mp.contains_key(ta.target) {
                    let fake = Animation {
                        object: ta.target,
                        action: ta.action,
                        run_time: 0u64,
                        rate_func: crate::ease::EaseType::Linear,
                        status: Status::NotStarted,
                    };
                    crate::animation::lemma_spec_anim_finish_preserves_inv(
                        fake,
                        mp[ta.target].inner,
                        res,
                    );
                    assert(spec_target_finish_object(ta.action, mp[ta.target].inner, res)
                        == spec_anim_finish(fake, mp[ta.target].inner, res).1);
                    assert(spec_catch_range(cs, m, res, lo, hi).1.dom() =~= m.dom());
                }
            },
            Command::Show(id) => {
                if mp.contains_key(id) {
                    assert(spec_catch_range(cs, m, res, lo, hi).1.dom() =~= m.dom());
                }
            },
            _ => {},
        }
    }
}

/// Congruence: the playhead end index reads only start times.
proof fn lemma_idx_end_upto_congruent(c1: Seq<TimedCommand>, c2: Seq<TimedCommand>, time: int, n: int)
    requires
        c1.len() == c2.len(),
        forall|k: int| 0 <= k < c1.len() ==> (#[trigger] c1[k]).event_time == c2[k].event_time,
        1 <= n <= c1.len(),
    ensures
        spec_idx_end_upto(c1, time, n) == spec_idx_end_upto(c2, time, n),
    decreases n,
{
    if n > 1 {
        lemma_idx_end_upto_congruent(c1, c2, time, n - 1);
    }
}

/// Congruence: the playhead start index reads only start times and
/// durations.
proof fn lemma_idx_start_from_congruent(
    c1: Seq<TimedCommand>,
    c2: Seq<TimedCommand>,
    start: int,
    ie: int,
    j: int,
)
    requires
        c1.len() == c2.len(),
        forall|k: int|
            0 <= k < c1.len() ==> (#[trigger] c1[k]).event_time == c2[k].event_time
                && c1[k].inner.spec_run_time() == c2[k].inner.spec_run_time(),
        0 <= j <= ie < c1.len(),
    ensures
        spec_idx_start_from(c1, start, ie, j) == spec_idx_start_from(c2, start, ie, j),
    decreases ie - j,
{
    if j < ie {
        lemma_idx_start_from_congruent(c1, c2, start, ie, j + 1);
    }
}

/// Replay determinism for one batch across two elapsed times: when the
/// batch's play commands target pairwise distinct objects, advancing the
/// batch to `dt1` and then to a later `dt2` leaves commands and objects
/// exactly as one direct advance to `dt2` does.
pub proof fn lemma_active_range_two_steps(
    cs: Seq<TimedCommand>,
    m: Map<Id, Node>,
    dt1: int,
    dt2: int,
    res: Resource,
    lo: int,
    hi: int,
)
    requires
        0 <= lo <= hi <= cs.len(),
        distinct_play_targets(cs, lo, hi),
        spec_objs_inv(m),
        res.inv(),
        0 <= dt1 <= dt2,
        forall|k: int| lo <= k < hi ==> (#[trigger] cs[k].inner).inv(),
    ensures
        ({
            let r1 = spec_active_range(cs, m, dt1, res, lo, hi);
            spec_active_range(r1.0, r1.1, dt2, res, lo, hi) == spec_active_range(
                cs,
                m,
                dt2,
                res,
                lo,
                hi,
            )
        }),
{
    lemma_active_range_pointwise(cs, m, dt1, res, lo, hi);
    let (cs1, m1) = spec_active_range(cs, m, dt1, res, lo, hi);
    assert(distinct_play_targets(cs1, lo, hi)) by {
        assert forall|k1: int, k2: int|
            lo <= k1 < k2 < hi && (#[trigger] play_target(cs1[k1])) is Some && (
            #[trigger] play_target(cs1[k2])) is Some implies play_target(cs1[k1]) != play_target(
            cs1[k2],
        ) by {
            assert(play_target(cs1[k1]) == play_target(cs[k1]));
            assert(play_target(cs1[k2]) == play_target(cs[k2]));
        };
    };
    lemma_active_range_pointwise(cs1, m1, dt2, res, lo, hi);
    let (cs2, m2) = spec_active_range(cs1, m1, dt2, res, lo, hi);
    lemma_active_range_pointwise(cs, m, dt2, res, lo, hi);
    let (cs3, m3) = spec_active_range(cs, m, dt2, res, lo, hi);
    assert forall|k: int| 0 <= k < cs.len() implies cs2[k] == cs3[k] by {
        if lo <= k < hi {
            match cs[k].inner {
                Command::Play(a) => {
                    if m.contains_key(a.object) {
                        crate::animation::lemma_anim_update_two_steps(
                            a,
                            m[a.object].inner,
                            dt1,
                            dt2,
                            res,
                        );
                        assert(m1.contains_key(a.object));
                        assert(m1[a.object].inner == spec_anim_update(
                            a,
                            m[a.object].inner,
                            dt1,
                            res,
                        ).1);
                    } else {
                        assert(!m1.contains_key(a.object));
                        crate::animation::lemma_update_absent_two_steps(a, dt1, dt2);
                    }
                },
                _ => {
                    assert(cs1[k] == cs[k]);
                },
            }
        }
    };
    assert(cs2 =~= cs3);
    assert forall|id: Id| m3.contains_key(id) implies m2[id] == m3[id] by {
        if range_writes(cs, lo, hi, id) {
            let k = choose|k: int| lo <= k < hi && #[trigger] play_target(cs[k]) == Some(id);
            match cs[k].inner {
                Command::Play(a) => {
                    assert(a.object == id);
                    crate::animation::lemma_anim_update_two_steps(a, m[id].inner, dt1, dt2, res);
                    assert(m1[id].inner == spec_anim_update(a, m[id].inner, dt1, res).1);
                },
                _ => {},
            }
        } else {
            assert(!range_writes(cs1, lo, hi, id)) by {
                if range_writes(cs1, lo, hi, id) {
                    let k = choose|k: int|
                        lo <= k < hi && #[trigger] play_target(cs1[k]) == Some(id);
                    assert(play_target(cs[k]) == play_target(cs1[k]));
                }
            };
            assert(m1[id] == m[id]);
            assert(m2[id] == m1[id]);
            assert(m3[id] == m[id]);
        }
    };
    assert(m2.dom() =~= m3.dom());
    assert(m2 =~= m3);
}

/// Catch-up absorbs a preceding partial advance: playing a prefix of a
/// range at some elapsed time and then catching the whole range up gives
/// exactly the catch-up of the untouched range — skipped ticks never
/// change where catch-up lands.
proof fn lemma_catch_after_active(
    cs: Seq<TimedCommand>,
    m: Map<Id, Node>,
    dt1: int,
    res: Resource,
    lo: int,
    mid: int,
    hi: int,
)
    requires
        0 <= lo <= mid <= hi <= cs.len(),
        distinct_command_targets(cs, lo, hi),
        spec_objs_inv(m),
        res.inv(),
        0 <= dt1,
        forall|k: int| lo <= k < hi ==> (#[trigger] cs[k].inner).inv(),
    ensures
        ({
            let r1 = spec_active_range(cs, m, dt1, res, lo, mid);
            spec_catch_range(r1.0, r1.1, res, lo, hi) == spec_catch_range(cs, m, res, lo, hi)
        }),
{
    assert(distinct_play_targets(cs, lo, mid)) by {
        assert forall|k1: int, k2: int|
            lo <= k1 < k2 < mid && (#[trigger] play_target(cs[k1])) is Some && (
            #[trigger] play_target(cs[k2])) is Some implies play_target(cs[k1]) != play_target(
            cs[k2],
        ) by {
            assert(command_target(cs[k1]) == play_target(cs[k1]));
            assert(command_target(cs[k2]) == play_target(cs[k2]));
        };
    };
    lemma_active_range_pointwise(cs, m, dt1, res, lo, mid);
    let r1 = spec_active_range(cs, m, dt1, res, lo, mid);
    let cs1 = r1.0;
    let m1 = r1.1;
    assert(distinct_command_targets(cs1, lo, hi)) by {
        assert forall|k1: int, k2: int|
            lo <= k1 < k2 < hi && (#[trigger] command_target(cs1[k1])) is Some && (
            #[trigger] command_target(cs1[k2])) is Some implies command_target(cs1[k1])
            != command_target(cs1[k2]) by {
            lemma_command_target_stable_under_active(cs, m, dt1, res, lo, mid, k1);
            lemma_command_target_stable_under_active(cs, m, dt1, res, lo, mid, k2);
        };
    };
    assert(forall|k: int| lo <= k < hi ==> (#[trigger] cs1[k].inner).inv()) by {
        assert forall|k: int| lo <= k < hi implies (#[trigger] cs1[k].inner).inv() by {
            if !(lo <= k < mid) {
                assert(cs1[k] == cs[k]);
            }
        };
    };
    lemma_catch_range_pointwise(cs1, m1, res, lo, hi);
    lemma_catch_range_pointwise(cs, m, res, lo, hi);
    let cb1 = spec_catch_range(cs1, m1, res, lo, hi);
    let cb = spec_catch_range(cs, m, res, lo, hi);
    assert forall|k: int| 0 <= k < cs.len() implies cb1.0[k] == cb.0[k] by {
        if lo <= k < hi {
            lemma_catch_after_active_entry(cs, m, dt1, res, lo, mid, hi, k);
        } else {
            assert(cs1[k] == cs[k]);
        }
    };
    assert(cb1.0 =~= cb.0);
    assert forall|id: Id| cb.1.contains_key(id) implies cb1.1[id] == cb.1[id] by {
        if range_touches(cs, lo, hi, id) {
            let k = choose|k: int| lo <= k < hi && #[trigger] command_target(cs[k]) == Some(id);
            lemma_catch_after_active_entry(cs, m, dt1, res, lo, mid, hi, k);
        } else {
            assert(!range_writes(cs, lo, mid, id)) by {
                if range_writes(cs, lo, mid, id) {
                    let k = choose|k: int|
                        lo <= k < mid && #[trigger] play_target(cs[k]) == Some(id);
                    assert(command_target(cs[k]) == Some(id));
                }
            };
            assert(m1[id] == m[id]);
            assert(!range_touches(cs1, lo, hi, id)) by {
                if range_touches(cs1, lo, hi, id) {
                    let k = choose|k: int|
                        lo <= k < hi && #[trigger] command_target(cs1[k]) == Some(id);
                    lemma_command_target_stable_under_active(cs, m, dt1, res, lo, mid, k);
                    assert(command_target(cs[k]) == Some(id));
                }
            };
            assert(cb1.1[id] == m1[id]);
            assert(cb.1[id] == m[id]);
        }
    };
    assert(cb1.1.dom() =~= cb.1.dom());
    assert(cb1.1 =~= cb.1);
}

/// Helper: the active pass never changes which object a command touches.
proof fn lemma_command_target_stable_under_active(
    cs: Seq<TimedCommand>,
    m: Map<Id, Node>,
    dt1: int,
    res: Resource,
    lo: int,
    mid: int,
    k: int,
)
    requires
        0 <= lo <= mid <= cs.len(),
        distinct_play_targets(cs, lo, mid),
        spec_objs_inv(m),
        res.inv(),
        0 <= dt1,
        forall|j: int| lo <= j < mid ==> (#[trigger] cs[j].inner).inv(),
        0 <= k < cs.len(),
    ensures
        command_target(spec_active_range(cs, m, dt1, res, lo, mid).0[k]) == command_target(cs[k]),
        play_target(spec_active_range(cs, m, dt1, res, lo, mid).0[k]) == play_target(cs[k]),
{
    lemma_active_range_pointwise(cs, m, dt1, res, lo, mid);
    if lo <= k < mid {
        match cs[k].inner {
            Command::Play(a) => {
                if m.contains_key(a.object) {
                    crate::animation::lemma_spec_anim_update_preserves_inv(
                        a,
                        m[a.object].inner,
                        dt1,
                        res,
                    );
                } else {
                    crate::animation::lemma_spec_anim_update_absent_preserves_inv(a, dt1);
                }
            },
            _ => {},
        }
    }
}

/// Helper: per-entry absorption of an active step by a later catch-up.
proof fn lemma_catch_after_active_entry(
    cs: Seq<TimedCommand>,
    m: Map<Id, Node>,
    dt1: int,
    res: Resource,
    lo: int,
    mid: int,
    hi: int,
    k: int,
)
    requires
        0 <= lo <= mid <= hi <= cs.len(),
        distinct_command_targets(cs, lo, hi),
        distinct_play_targets(cs, lo, mid),
        spec_objs_inv(m),
        res.inv(),
        0 <= dt1,
        forall|j: int| lo <= j < hi ==> (#[trigger] cs[j].inner).inv(),
        lo <= k < hi,
    ensures
        ({
            let r1 = spec_active_range(cs, m, dt1, res, lo, mid);
            let cb1 = spec_catch_range(r1.0, r1.1, res, lo, hi);
            let cb = spec_catch_range(cs, m, res, lo, hi);
            &&& cb1.0[k] == cb.0[k]
            &&& match command_target(cs[k]) {
                Some(id) => m.contains_key(id) ==> cb1.1[id] == cb.1[id],
                None => true,
            }
        }),
{
    lemma_active_range_pointwise(cs, m, dt1, res, lo, mid);
    let r1 = spec_active_range(cs, m, dt1, res, lo, mid);
    let cs1 = r1.0;
    let m1 = r1.1;
    assert(distinct_command_targets(cs1, lo, hi)) by {
        assert forall|k1: int, k2: int|
            lo <= k1 < k2 < hi && (#[trigger] command_target(cs1[k1])) is Some && (
            #[trigger] command_target(cs1[k2])) is Some implies command_target(cs1[k1])
            != command_target(cs1[k2]) by {
            lemma_command_target_stable_under_active(cs, m, dt1, res, lo, mid, k1);
            lemma_command_target_stable_under_active(cs, m, dt1, res, lo, mid, k2);
        };
    };
    assert(forall|j: int| lo <= j < hi ==> (#[trigger] cs1[j].inner).inv()) by {
        assert forall|j: int| lo <= j < hi implies (#[trigger] cs1[j].inner).inv() by {
            if !(lo <= j < mid) {
                assert(cs1[j] == cs[j]);
            }
        };
    };
    lemma_catch_range_pointwise(cs1, m1, res, lo, hi);
    lemma_catch_range_pointwise(cs, m, res, lo, hi);
    if lo <= k < mid {
        match cs[k].inner {
            Command::Play(a) => {
                if m.contains_key(a.object) {
                    crate::animation::lemma_finish_after_update(a, m[a.object].inner, dt1, res);
                    assert(m1[a.object].inner == spec_anim_update(a, m[a.object].inner, dt1, res).1);
                } else {
                    assert(!m1.contains_key(a.object));
                }
            },
            _ => {
                assert(cs1[k] == cs[k]);
                match command_target(cs[k]) {
                    Some(id) => {
                        if m.contains_key(id) {
                            assert(!range_writes(cs, lo, mid, id)) by {
                                if range_writes(cs, lo, mid, id) {
                                    let j = choose|j: int|
                                        lo <= j < mid && #[trigger] play_target(cs[j]) == Some(id);
                                    assert(command_target(cs[j]) == Some(id));
                                    assert(j != k);
                                }
                            };
                            assert(m1[id] == m[id]);
                        }
                    },
                    None => {},
                }
            },
        }
    } else {
        assert(cs1[k] == cs[k]);
        match command_target(cs[k]) {
            Some(id) => {
                if m.contains_key(id) {
                    assert(!range_writes(cs, lo, mid, id)) by {
                        if range_writes(cs, lo, mid, id) {
                            let j = choose|j: int|
                                lo <= j < mid && #[trigger] play_target(cs[j]) == Some(id);
                            assert(command_target(cs[j]) == Some(id));
                            assert(j != k);
                        }
                    };
                    assert(m1[id] == m[id]);
                }
            },
            None => {},
        }
    }
}

/// Determinism of observation at a fixed scene time: when the active
/// batch's play commands target pairwise distinct objects, a second
/// `process` at the same scene time — fed the playhead the first call
/// returned — changes neither the timeline nor any object.
pub proof fn lemma_process_idempotent_at_fixed_time(
    cs: Seq<TimedCommand>,
    m: Map<Id, Node>,
    res: Resource,
    prev: int,
    time: int,
)
    requires
        cs.len() > 0,
        cs[0].event_time == 0,
        forall|i: int, j: int| 0 <= i <= j < cs.len() ==> cs[i].event_time <= cs[j].event_time,
        forall|k: int| 0 <= k < cs.len() ==> (#[trigger] cs[k].inner).inv(),
        spec_objs_inv(m),
        res.inv(),
        0 <= time,
        0 <= prev,
        distinct_play_targets(cs, spec_idx_start(cs, time), spec_idx_end(cs, time) + 1),
    ensures
        ({
            let r1 = spec_process(cs, m, res, prev, time);
            spec_process(r1.0, r1.1, res, spec_idx_start(cs, time), time) == r1
        }),
{
    lemma_find_index_props(cs, time);
    let ie = spec_idx_end(cs, time);
    let st = spec_start_time(cs, time);
    let istart = spec_idx_start(cs, time);
    let dt = time - st;
    let caught = spec_catch_range(cs, m, res, prev, istart);
    let csa = caught.0;
    let ma = caught.1;
    if prev <= istart {
        lemma_catch_range_frame(cs, m, res, prev, istart);
    }
    assert(csa.len() == cs.len());
    assert(forall|k: int|
        0 <= k < cs.len() ==> (#[trigger] csa[k]).event_time == cs[k].event_time
            && csa[k].inner.spec_run_time() == cs[k].inner.spec_run_time() && play_target(csa[k])
            == play_target(cs[k]));
    assert(forall|k: int| istart <= k < ie + 1 ==> #[trigger] csa[k] == cs[k]);
    assert(distinct_play_targets(csa, istart, ie + 1));
    lemma_active_range_pointwise(csa, ma, dt, res, istart, ie + 1);
    let r1 = spec_active_range(csa, ma, dt, res, istart, ie + 1);
    let cs1 = r1.0;
    let m1 = r1.1;
    assert(forall|k: int|
        0 <= k < cs.len() ==> (#[trigger] cs1[k]).event_time == cs[k].event_time
            && cs1[k].inner.spec_run_time() == cs[k].inner.spec_run_time());
    lemma_idx_end_upto_congruent(cs1, cs, time, cs.len() as int);
    assert(spec_idx_end(cs1, time) == ie);
    assert(spec_start_time(cs1, time) == st);
    lemma_idx_start_from_congruent(cs1, cs, st, ie, 0);
    assert(spec_idx_start(cs1, time) == istart);
    lemma_active_range_stable(csa, ma, dt, res, istart, ie + 1, ie + 1);
    assert(spec_catch_range(cs1, m1, res, istart, istart) == (cs1, m1));
    assert(spec_active_range(cs1, m1, dt, res, istart, ie + 1) == (cs1, m1));
}

/// The playhead only moves forward as scene time grows.
pub proof fn lemma_playhead_monotone(cs: Seq<TimedCommand>, t1: int, t2: int)
    requires
        cs.len() > 0,
        cs[0].event_time == 0,
        forall|i: int, j: int| 0 <= i <= j < cs.len() ==> cs[i].event_time <= cs[j].event_time,
        0 <= t1 <= t2,
    ensures
        spec_idx_end(cs, t1) <= spec_idx_end(cs, t2),
        spec_idx_start(cs, t1) <= spec_idx_start(cs, t2),
{
    lemma_find_index_props(cs, t1);
    lemma_find_index_props(cs, t2);
    let ie1 = spec_idx_end(cs, t1);
    let ie2 = spec_idx_end(cs, t2);
    let st1 = spec_start_time(cs, t1);
    let st2 = spec_start_time(cs, t2);
    let is1 = spec_idx_start(cs, t1);
    let is2 = spec_idx_start(cs, t2);
    assert(ie1 <= ie2) by {
        if ie2 < ie1 {
            assert(cs[ie1].event_time > t2);
        }
    };
    if st1 == st2 {
        assert(ie1 == ie2) by {
            if ie1 < ie2 {
                assert(cs[ie2].event_time as int == st2);
                assert(cs[ie2].event_time > t1);
            }
        };
    } else {
        assert(st1 <= st2);
        if is2 <= ie1 {
            if is2 < is1 {
                assert(cs[is2].event_time as int == st2);
                assert(cs[is2].event_time <= cs[ie1].event_time);
                assert(cs[is1].event_time as int == st1);
            }
        } else {
            assert(is1 <= ie1);
        }
    }
}

/// The state one `process` call leaves behind keeps every structural fact
/// the scheduler relies on: lengths, start times, durations, command
/// targets, the set of live objects and all invariants.
pub proof fn lemma_process_preserves(
    cs: Seq<TimedCommand>,
    m: Map<Id, Node>,
    res: Resource,
    prev: int,
    t: int,
)
    requires
        cs.len() > 0,
        cs[0].event_time == 0,
        forall|i: int, j: int| 0 <= i <= j < cs.len() ==> cs[i].event_time <= cs[j].event_time,
        forall|k: int| 0 <= k < cs.len() ==> (#[trigger] cs[k].inner).inv(),
        spec_objs_inv(m),
        res.inv(),
        0 <= t,
        0 <= prev <= spec_idx_start(cs, t),
        distinct_play_targets(cs, spec_idx_start(cs, t), spec_idx_end(cs, t) + 1),
    ensures
        ({
            let (cs1, m1) = spec_process(cs, m, res, prev, t);
            &&& cs1.len() == cs.len()
            &&& forall|k: int|
                0 <= k < cs.len() ==> (#[trigger] cs1[k]).event_time == cs[k].event_time
                    && cs1[k].inner.spec_run_time() == cs[k].inner.spec_run_time()
                    && command_target(cs1[k]) == command_target(cs[k])
            &&& forall|k: int| 0 <= k < cs.len() ==> (#[trigger] cs1[k].inner).inv()
            &&& m1.dom() == m.dom()
            &&& spec_objs_inv(m1)
        }),
{
    lemma_find_index_props(cs, t);
    let ie = spec_idx_end(cs, t);
    let st = spec_start_time(cs, t);
    let istart = spec_idx_start(cs, t);
    let dt = t - st;
    lemma_catch_range_frame(cs, m, res, prev, istart);
    let caught = spec_catch_range(cs, m, res, prev, istart);
    let csa = caught.0;
    let ma = caught.1;
    assert(distinct_play_targets(csa, istart, ie + 1)) by {
        assert forall|k1: int, k2: int|
            istart <= k1 < k2 < ie + 1 && (#[trigger] play_target(csa[k1])) is Some && (
            #[trigger] play_target(csa[k2])) is Some implies play_target(csa[k1]) != play_target(
            csa[k2],
        ) by {
            assert(csa[k1] == cs[k1]);
            assert(csa[k2] == cs[k2]);
        };
    };
    lemma_active_range_pointwise(csa, ma, dt, res, istart, ie + 1);
    let (cs1, m1) = spec_active_range(csa, ma, dt, res, istart, ie + 1);
    assert forall|k: int|
        0 <= k < cs.len() implies command_target(#[trigger] cs1[k]) == command_target(cs[k])
        && cs1[k].inner.inv() by {
        if istart <= k < ie + 1 {
            lemma_command_target_stable_under_active(csa, ma, dt, res, istart, ie + 1, k);
            match csa[k].inner {
                Command::Play(a) => {
                    if ma.contains_key(a.object) {
                        crate::animation::lemma_spec_anim_update_preserves_inv(
                            a,
                            ma[a.object].inner,
                            dt,
                            res,
                        );
                    } else {
                        crate::animation::lemma_spec_anim_update_absent_preserves_inv(a, dt);
                    }
                },
                _ => {},
            }
        } else {
            assert(cs1[k] == csa[k]);
        }
    };
}

/// The replay a host performs: a sequence of `process` calls, each fed
/// the playhead the previous call returned.
pub open spec fn spec_replay(
    cs: Seq<TimedCommand>,
    m: Map<Id, Node>,
    res: Resource,
    prev: int,
    ts: Seq<int>,
) -> (Seq<TimedCommand>, Map<Id, Node>, int)
    decreases ts.len(),
{
    if ts.len() == 0 {
        (cs, m, prev)
    } else {
        let p = spec_replay(cs, m, res, prev, ts.drop_last());
        let r = spec_process(p.0, p.1, res, p.2, ts.last());
        (r.0, r.1, spec_idx_start(p.0, ts.last()))
    }
}

/// Determinism of replay, in full: feeding the scheduler any
/// non-decreasing sequence of scene times leaves the timeline and every
/// object exactly as one direct `process` to the final time does,
/// provided the commands the replay crosses touch pairwise distinct
/// objects.
pub proof fn lemma_replay_deterministic(
    cs: Seq<TimedCommand>,
    m: Map<Id, Node>,
    res: Resource,
    prev: int,
    ts: Seq<int>,
)
    requires
        cs.len() > 0,
        cs[0].event_time == 0,
        forall|i: int, j: int| 0 <= i <= j < cs.len() ==> cs[i].event_time <= cs[j].event_time,
        forall|k: int| 0 <= k < cs.len() ==> (#[trigger] cs[k].inner).inv(),
        spec_objs_inv(m),
        res.inv(),
        ts.len() > 0,
        forall|i: int| 0 <= i < ts.len() ==> 0 <= #[trigger] ts[i],
        forall|i: int, j: int| 0 <= i <= j < ts.len() ==> ts[i] <= ts[j],
        0 <= prev <= spec_idx_start(cs, ts[0]),
        distinct_command_targets(cs, spec_idx_start(cs, ts[0]), spec_idx_end(cs, ts.last()) + 1),
    ensures
        ({
            let r = spec_replay(cs, m, res, prev, ts);
            &&& (r.0, r.1) == spec_process(cs, m, res, prev, ts.last())
            &&& r.2 == spec_idx_start(cs, ts.last())
        }),
    decreases ts.len(),
{
    lemma_playhead_monotone(cs, ts[0], ts.last());
    if ts.len() == 1 {
        assert(spec_replay(cs, m, res, prev, ts.drop_last()) == (cs, m, prev));
    } else {
        let shorter = ts.drop_last();
        let a = ts[ts.len() - 2];
        let b = ts.last();
        assert(shorter.last() == a);
        assert(shorter[0] == ts[0]);
        lemma_playhead_monotone(cs, ts[0], a);
        lemma_playhead_monotone(cs, a, b);
        assert(distinct_command_targets(cs, spec_idx_start(cs, ts[0]), spec_idx_end(cs, a) + 1));
        lemma_replay_deterministic(cs, m, res, prev, shorter);
        let p = spec_replay(cs, m, res, prev, shorter);
        assert((p.0, p.1) == spec_process(cs, m, res, prev, a));
        lemma_find_index_props(cs, a);
        assert(0 <= prev <= spec_idx_start(cs, a));
        assert(distinct_play_targets(cs, spec_idx_start(cs, a), spec_idx_end(cs, a) + 1)) by {
            assert forall|k1: int, k2: int|
                spec_idx_start(cs, a) <= k1 < k2 < spec_idx_end(cs, a) + 1 && (#[trigger] play_target(
                    cs[k1],
                )) is Some && (#[trigger] play_target(cs[k2])) is Some implies play_target(cs[k1])
                != play_target(cs[k2]) by {
                assert(command_target(cs[k1]) == play_target(cs[k1]));
                assert(command_target(cs[k2]) == play_target(cs[k2]));
            };
        };
        lemma_process_preserves(cs, m, res, prev, a);
        lemma_idx_end_upto_congruent(p.0, cs, b, cs.len() as int);
        lemma_find_index_props(cs, b);
        assert(spec_start_time(p.0, b) == spec_start_time(cs, b));
        lemma_idx_start_from_congruent(p.0, cs, spec_start_time(cs, b), spec_idx_end(cs, b), 0);
        assert(spec_idx_start(p.0, b) == spec_idx_start(cs, b));
        lemma_idx_end_upto_congruent(p.0, cs, a, cs.len() as int);
        lemma_idx_start_from_congruent(p.0, cs, spec_start_time(cs, a), spec_idx_end(cs, a), 0);
        assert(p.2 == spec_idx_start(cs, a));
        assert(distinct_command_targets(cs, spec_idx_start(cs, a), spec_idx_end(cs, b) + 1));
        lemma_process_two_calls(cs, m, res, prev, a, b);
    }
}

/// Determinism of replay across calls: processing to scene time `t1` and
/// then to a later `t2` — feeding the second call the playhead the first
/// returned — leaves the timeline and every object exactly as one direct
/// `process` to `t2` does, provided the commands between the first
/// playhead and the end of `t2`'s batch touch pairwise distinct objects.
pub proof fn lemma_process_two_calls(
    cs: Seq<TimedCommand>,
    m: Map<Id, Node>,
    res: Resource,
    prev: int,
    t1: int,
    t2: int,
)
    requires
        cs.len() > 0,
        cs[0].event_time == 0,
        forall|i: int, j: int| 0 <= i <= j < cs.len() ==> cs[i].event_time <= cs[j].event_time,
        forall|k: int| 0 <= k < cs.len() ==> (#[trigger] cs[k].inner).inv(),
        spec_objs_inv(m),
        res.inv(),
        0 <= t1 <= t2,
        0 <= prev <= spec_idx_start(cs, t1),
        distinct_command_targets(cs, spec_idx_start(cs, t1), spec_idx_end(cs, t2) + 1),
    ensures
        ({
            let r1 = spec_process(cs, m, res, prev, t1);
            spec_process(r1.0, r1.1, res, spec_idx_start(cs, t1), t2) == spec_process(
                cs,
                m,
                res,
                prev,
                t2,
            )
        }),
{
    lemma_find_index_props(cs, t1);
    lemma_find_index_props(cs, t2);
    let ie1 = spec_idx_end(cs, t1);
    let st1 = spec_start_time(cs, t1);
    let is1 = spec_idx_start(cs, t1);
    let dt1 = t1 - st1;
    let ie2 = spec_idx_end(cs, t2);
    let st2 = spec_start_time(cs, t2);
    let is2 = spec_idx_start(cs, t2);
    let dt2 = t2 - st2;
    assert(ie1 <= ie2) by {
        if ie2 < ie1 {
            assert(cs[ie1].event_time > t2);
        }
    };
    assert(st1 <= st2);
    lemma_catch_range_frame(cs, m, res, prev, is1);
    let caught = spec_catch_range(cs, m, res, prev, is1);
    let csa = caught.0;
    let ma = caught.1;
    assert(forall|k: int| is1 <= k < cs.len() ==> #[trigger] csa[k] == cs[k]);
    assert(distinct_command_targets(csa, is1, ie2 + 1)) by {
        assert forall|k1: int, k2: int|
            is1 <= k1 < k2 < ie2 + 1 && (#[trigger] command_target(csa[k1])) is Some && (
            #[trigger] command_target(csa[k2])) is Some implies command_target(csa[k1])
            != command_target(csa[k2]) by {
            assert(csa[k1] == cs[k1]);
            assert(csa[k2] == cs[k2]);
        };
    };
    assert(distinct_play_targets(csa, is1, ie1 + 1)) by {
        assert forall|k1: int, k2: int|
            is1 <= k1 < k2 < ie1 + 1 && (#[trigger] play_target(csa[k1])) is Some && (
            #[trigger] play_target(csa[k2])) is Some implies play_target(csa[k1]) != play_target(
            csa[k2],
        ) by {
            assert(command_target(csa[k1]) == play_target(csa[k1]));
            assert(command_target(csa[k2]) == play_target(csa[k2]));
        };
    };
    assert(forall|k: int| is1 <= k < ie2 + 1 ==> (#[trigger] csa[k].inner).inv());
    lemma_active_range_pointwise(csa, ma, dt1, res, is1, ie1 + 1);
    let r1 = spec_active_range(csa, ma, dt1, res, is1, ie1 + 1);
    let cs1 = r1.0;
    let m1 = r1.1;
    assert(r1 == spec_process(cs, m, res, prev, t1));
    assert(forall|k: int|
        0 <= k < cs.len() ==> (#[trigger] cs1[k]).event_time == cs[k].event_time
            && cs1[k].inner.spec_run_time() == cs[k].inner.spec_run_time());
    lemma_idx_end_upto_congruent(cs1, cs, t2, cs.len() as int);
    assert(spec_idx_end(cs1, t2) == ie2);
    assert(spec_start_time(cs1, t2) == st2);
    lemma_idx_start_from_congruent(cs1, cs, st2, ie2, 0);
    assert(spec_idx_start(cs1, t2) == is2);
    if st1 == st2 {
        assert(ie1 == ie2) by {
            if ie1 < ie2 {
                assert(cs[ie2].event_time as int == st2);
                assert(cs[ie2].event_time > t1);
            }
        };
        assert(is1 == is2);
        assert(spec_catch_range(cs1, m1, res, is1, is1) == (cs1, m1));
        assert(spec_catch_range(cs, m, res, prev, is2) == caught);
        lemma_active_range_two_steps(csa, ma, dt1, dt2, res, is1, ie1 + 1);
    } else {
        assert(st2 > t1) by {
            if st2 <= t1 {
                assert(cs[ie2].event_time as int <= t1);
                assert(ie2 <= ie1);
            }
        };
        assert(ie1 < is2) by {
            assert(cs[is2].event_time as int == st2);
            assert(cs[ie1].event_time as int <= t1);
            if is2 <= ie1 {
                assert(cs[is2].event_time <= cs[ie1].event_time);
            }
        };
        lemma_catch_range_split(cs, m, res, prev, is1, is2);
        assert(distinct_command_targets(csa, is1, is2));
        assert(forall|k: int| is1 <= k < is2 ==> (#[trigger] csa[k].inner).inv());
        lemma_catch_after_active(csa, ma, dt1, res, is1, ie1 + 1, is2);
        assert(spec_catch_range(cs1, m1, res, is1, is2) == spec_catch_range(
            csa,
            ma,
            res,
            is1,
            is2,
        ));
    }
}

/// Replay determinism for one batch at a fixed elapsed time: when the
/// active commands target pairwise distinct objects, running the active
/// pass a second time at the same elapsed time changes neither the
/// commands nor any object — repeated observations of one scene time all
/// see the same state.
pub proof fn lemma_active_range_idempotent(
    cs: Seq<TimedCommand>,
    m: Map<Id, Node>,
    dt: int,
    res: Resource,
    lo: int,
    hi: int,
)
    requires
        0 <= lo <= hi <= cs.len(),
        distinct_play_targets(cs, lo, hi),
        spec_objs_inv(m),
        res.inv(),
        0 <= dt,
        forall|k: int| lo <= k < hi ==> (#[trigger] cs[k].inner).inv(),
    ensures
        ({
            let (cs1, m1) = spec_active_range(cs, m, dt, res, lo, hi);
            spec_active_range(cs1, m1, dt, res, lo, hi) == (cs1, m1)
        }),
{
    lemma_active_range_pointwise(cs, m, dt, res, lo, hi);
    let (cs1, m1) = spec_active_range(cs, m, dt, res, lo, hi);
    lemma_active_range_stable(cs, m, dt, res, lo, hi, hi);
}

/// Helper for [`lemma_active_range_idempotent`]: the second pass is the
/// identity on every prefix `[lo, j)` of the range.
proof fn lemma_active_range_stable(
    cs: Seq<TimedCommand>,
    m: Map<Id, Node>,
    dt: int,
    res: Resource,
    lo: int,
    hi: int,
    j: int,
)
    requires
        0 <= lo <= j <= hi <= cs.len(),
        distinct_play_targets(cs, lo, hi),
        spec_objs_inv(m),
        res.inv(),
        0 <= dt,
        forall|k: int| lo <= k < hi ==> (#[trigger] cs[k].inner).inv(),
    ensures
        ({
            let (cs1, m1) = spec_active_range(cs, m, dt, res, lo, hi);
            spec_active_range(cs1, m1, dt, res, lo, j) == (cs1, m1)
        }),
    decreases j - lo,
{
    lemma_active_range_pointwise(cs, m, dt, res, lo, hi);
    let (cs1, m1) = spec_active_range(cs, m, dt, res, lo, hi);
    if j > lo {
        lemma_active_range_stable(cs, m, dt, res, lo, hi, j - 1);
        let k = j - 1;
        match cs[k].inner {
            Command::Play(a) => {
                if m.contains_key(a.object) {
                    let a1 = spec_anim_update(a, m[a.object].inner, dt, res).0;
                    let o1 = spec_anim_update(a, m[a.object].inner, dt, res).1;
                    crate::animation::lemma_anim_update_two_steps(
                        a,
                        m[a.object].inner,
                        dt,
                        dt,
                        res,
                    );
                    assert(spec_anim_update(a1, o1, dt, res) == (a1, o1));
                    assert(m1[a.object] == (Node { inner: o1, ..m[a.object] }));
                    assert(m1.insert(a.object, Node { inner: o1, ..m1[a.object] }) =~= m1);
                } else {
                    crate::animation::lemma_update_absent_idempotent(a, dt);
                    assert(!m1.contains_key(a.object));
                }
            },
            _ => {
                assert(cs1[k] == cs[k]);
            },
        }
        assert(spec_active_range(cs1, m1, dt, res, lo, j) == (cs1, m1));
    }
}

/// The largest index whose start time is at or before `time`, among the
/// first `n` commands (index 0 as a fallback).
pub open spec fn spec_idx_end_upto(cmds: Seq<TimedCommand>, time: int, n: int) -> int
    decreases n,
{
    if n <= 1 {
        0
    } else if cmds[n - 1].event_time as int <= time {
        n - 1
    } else {
        spec_idx_end_upto(cmds, time, n - 1)
    }
}

/// The largest index whose start time is at or before `time`.
pub open spec fn spec_idx_end(cmds: Seq<TimedCommand>, time: int) -> int {
    spec_idx_end_upto(cmds, time, cmds.len() as int)
}

/// The start time of the playhead batch at `time`.
pub open spec fn spec_start_time(cmds: Seq<TimedCommand>, time: int) -> int {
    cmds[spec_idx_end(cmds, time)].event_time as int
}

/// The first index at or after `j` (and before `ie`) whose command starts
/// at `start` with nonzero duration; `ie` if there is none.
pub open spec fn spec_idx_start_from(cmds: Seq<TimedCommand>, start: int, ie: int, j: int) -> int
    decreases ie - j,
{
    if j >= ie {
        ie
    } else if cmds[j].event_time as int == start && cmds[j].inner.spec_run_time() > 0 {
        j
    } else {
        spec_idx_start_from(cmds, start, ie, j + 1)
    }
}

/// The first command of the playhead batch with nonzero duration, falling
/// back to the batch's last command.
pub open spec fn spec_idx_start(cmds: Seq<TimedCommand>, time: int) -> int {
    spec_idx_start_from(cmds, spec_start_time(cmds, time), spec_idx_end(cmds, time), 0)
}

proof fn lemma_idx_end_upto_props(cmds: Seq<TimedCommand>, time: int, n: int)
    requires
        1 <= n <= cmds.len(),
        cmds[0].event_time as int <= time,
    ensures
        0 <= spec_idx_end_upto(cmds, time, n) < n,
        cmds[spec_idx_end_upto(cmds, time, n)].event_time as int <= time,
        forall|j: int|
            spec_idx_end_upto(cmds, time, n) < j < n ==> (#[trigger] cmds[j]).event_time as int
                > time,
    decreases n,
{
    if n > 1 && !(cmds[n - 1].event_time as int <= time) {
        lemma_idx_end_upto_props(cmds, time, n - 1);
    }
}

proof fn lemma_idx_start_from_props(cmds: Seq<TimedCommand>, start: int, ie: int, j: int)
    requires
        0 <= j <= ie < cmds.len(),
    ensures
        j <= spec_idx_start_from(cmds, start, ie, j) <= ie,
        spec_idx_start_from(cmds, start, ie, j) < ie ==> cmds[spec_idx_start_from(
            cmds,
            start,
            ie,
            j,
        )].event_time as int == start && cmds[spec_idx_start_from(
            cmds,
            start,
            ie,
            j,
        )].inner.spec_run_time() > 0,
        forall|k: int|
            j <= k < spec_idx_start_from(cmds, start, ie, j) ==> !((#[trigger] cmds[k]).event_time
                as int == start && cmds[k].inner.spec_run_time() > 0),
    decreases ie - j,
{
    if j < ie && !(cmds[j].event_time as int == start && cmds[j].inner.spec_run_time() > 0) {
        lemma_idx_start_from_props(cmds, start, ie, j + 1);
    }
}

/// The playhead's characterisation: the end index is the latest command
/// at or before `time`; the start index is the earliest nonzero-duration
/// command of the same batch, falling back to the end index; every
/// command between them shares the batch's start time.
pub proof fn lemma_find_index_props(cmds: Seq<TimedCommand>, time: int)
    requires
        cmds.len() > 0,
        cmds[0].event_time == 0,
        0 <= time,
        forall|i: int, j: int|
            0 <= i <= j < cmds.len() ==> cmds[i].event_time <= cmds[j].event_time,
    ensures
        ({
            let ie = spec_idx_end(cmds, time);
            let start = spec_start_time(cmds, time);
            let is = spec_idx_start(cmds, time);
            &&& 0 <= ie < cmds.len()
            &&& cmds[ie].event_time as int <= time
            &&& forall|j: int| ie < j < cmds.len() ==> (#[trigger] cmds[j]).event_time as int > time
            &&& 0 <= is <= ie
            &&& cmds[is].event_time as int == start
            &&& is < ie ==> cmds[is].inner.spec_run_time() > 0
            &&& forall|k: int|
                0 <= k < is ==> !((#[trigger] cmds[k]).event_time as int == start
                    && cmds[k].inner.spec_run_time() > 0)
            &&& forall|k: int|
                is <= k <= ie ==> (#[trigger] cmds[k]).event_time as int == start
        }),
{
    lemma_idx_end_upto_props(cmds, time, cmds.len() as int);
    let ie = spec_idx_end(cmds, time);
    let start = spec_start_time(cmds, time);
    lemma_idx_start_from_props(cmds, start, ie, 0);
    let is = spec_idx_start(cmds, time);
    assert forall|k: int| is <= k <= ie implies (#[trigger] cmds[k]).event_time as int == start by {
        assert(cmds[is].event_time <= cmds[k].event_time);
        assert(cmds[k].event_time <= cmds[ie].event_time);
        if is < ie {
            assert(cmds[is].event_time as int == start);
        }
    };
}

} // verus!
