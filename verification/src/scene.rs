//! The top-level scene: a command timeline, an object arena, the playhead
//! bookkeeping, and the scene boundary resource.
//!
//! Authoring appends commands once; playback repeatedly calls
//! [`Scene::update`] with a non-decreasing scene time, which advances the
//! timeline against the arena.  A draw pass belongs to the host: it reads
//! the arena through the handle accessors and renders what is visible.

use vstd::prelude::*;

use crate::animation::TargetAction;
use crate::arena::{Arena, Id, Node, spec_get_parent};
use crate::builder::AnimBuilder;
use crate::ids::{CircleId, RectangleId, TextId};
use crate::object::Object;
use crate::resource::Resource;
use crate::timeline::{
    Command, TimedCommand, Timeline, spec_caught_up, spec_idx_start, spec_objs_inv, spec_process,
};
use crate::units::MAX_RUN_TIME;

verus! {

/// A user-implemented authoring hook: populates the timeline once before
/// playback starts.
pub trait Construct {
    /// Append this scene's commands.
    fn construct(&mut self);
}

/// The animation scene.
#[derive(Debug)]
pub struct Scene {
    pub commands: Timeline,
    pub objects: Arena,
    pub prev_command: usize,
    pub resource: Resource,
    pub last_time: u64,
}

impl Scene {
    /// The timeline is well-formed and non-empty (it starts with the
    /// sentinel wait), the playhead is in range and everything before it
    /// has been caught up, and the arena holds only well-formed objects.
    pub open spec fn wf(self) -> bool {
        &&& self.commands.wf()
        &&& self.commands.cmds@.len() > 0
        &&& self.prev_command as int <= self.commands.cmds@.len()
        &&& self.objects.wf()
        &&& spec_objs_inv(self.objects.contents())
        &&& self.resource.inv()
        &&& spec_caught_up(self.commands.cmds@, self.prev_command as int)
    }

    /// An empty scene over the given boundaries.  The timeline starts
    /// with a zero-duration wait, so playhead lookups never underflow.
    pub fn new(resource: Resource) -> (r: Scene)
        requires
            resource.inv(),
        ensures
            r.wf(),
            r.commands.cmds@.len() == 1,
            r.commands.cmds@[0] == (TimedCommand { event_time: 0u64, inner: Command::Wait(0u64) }),
            r.commands.end == 0,
            r.objects.contents() == Map::<Id, Node>::empty(),
            r.prev_command == 0,
            r.last_time == 0,
            r.resource == resource,
    {
        let mut commands = Timeline::new();
        commands.wait(0);
        Scene { commands, objects: Arena::new(), prev_command: 0, resource, last_time: 0 }
    }

    /// Advance playback to scene time `time` (non-decreasing across
    /// calls): catch up everything the playhead skipped, in append order,
    /// then interpolate the active batch.  Afterwards every play command
    /// whose span has fully elapsed is complete.
    pub fn update(&mut self, time: u64)
        requires
            old(self).wf(),
            time >= old(self).last_time,
        ensures
            final(self).wf(),
            final(self).last_time == time,
            final(self).resource == old(self).resource,
            final(self).prev_command as int == spec_idx_start(
                old(self).commands.cmds@,
                time as int,
            ),
            (final(self).commands.cmds@, final(self).objects.contents()) == spec_process(
                old(self).commands.cmds@,
                old(self).objects.contents(),
                old(self).resource,
                old(self).prev_command as int,
                time as int,
            ),
            final(self).objects.contents().dom() == old(self).objects.contents().dom(),
            final(self).commands.end == old(self).commands.end,
            forall|k: int|
                0 <= k < final(self).commands.cmds@.len()
                    ==> match (#[trigger] final(self).commands.cmds@[k]).inner {
                    Command::Play(a) => final(self).commands.cmds@[k].event_time as int
                        + a.run_time as int <= time as int ==> a.status is Complete,
                    _ => true,
                },
    {
        self.last_time = time;
        let r = self.commands.process(self.prev_command, time, &mut self.objects, &self.resource);
        self.prev_command = r;
    }

    /// Put an object into the arena and hand back a fresh handle.
    pub fn add(&mut self, object: Object) -> (id: Id)
        requires
            old(self).wf(),
            object.inv(),
        ensures
            final(self).wf(),
            !old(self).objects.contents().contains_key(id),
            final(self).objects.contents() == old(self).objects.contents().insert(
                id,
                Node { parent: None, child: None, inner: object },
            ),
            final(self).commands == old(self).commands,
            final(self).prev_command == old(self).prev_command,
            final(self).resource == old(self).resource,
            final(self).last_time == old(self).last_time,
    {
        let node = Node::new(object);
        self.objects.insert(node)
    }

    /// Read the object a handle refers to; a stale handle reads nothing.
    pub fn get(&self, id: Id) -> (r: Option<Node>)
        ensures
            r == if self.objects.contents().contains_key(id) {
                Some(self.objects.contents()[id])
            } else {
                None::<Node>
            },
    {
        self.objects.get(id)
    }

    /// Follow the one-level parent link of the node `id` refers to.
    pub fn get_parent(&self, id: Id) -> (r: Option<Node>)
        ensures
            r == spec_get_parent(self.objects, id),
    {
        self.objects.get_parent(id)
    }

    /// Remove an object from the scene immediately; in-flight animations
    /// against it are silently dropped from then on, and the handle never
    /// resolves again.
    pub fn remove(&mut self, id: Id)
        requires
            old(self).wf(),
            old(self).objects.generation < u64::MAX,
        ensures
            final(self).wf(),
            final(self).objects.contents() == if old(self).objects.contents().contains_key(id) {
                old(self).objects.contents().remove(id)
            } else {
                old(self).objects.contents()
            },
            final(self).commands == old(self).commands,
            final(self).prev_command == old(self).prev_command,
            final(self).resource == old(self).resource,
            final(self).last_time == old(self).last_time,
    {
        let _ = self.objects.remove(id);
    }

    /// Gather one target action into a builder, to be committed with
    /// [`AnimBuilder::build`].
    pub fn play(&self, target_action: TargetAction) -> (r: AnimBuilder)
        requires
            target_action.action.inv(),
        ensures
            r.target_actions@ == seq![target_action],
            r.run_time == crate::units::DEFAULT_RUN_TIME,
            r.inv(),
    {
        let mut v: Vec<TargetAction> = Vec::new();
        v.push(target_action);
        AnimBuilder::new(v)
    }

    /// Gather a set of target actions into one builder; committing it
    /// appends them as a single concurrent batch.
    pub fn play_many(&self, target_actions: Vec<TargetAction>) -> (r: AnimBuilder)
        requires
            forall|i: int|
                0 <= i < target_actions@.len() ==> (#[trigger] target_actions@[i]).action.inv(),
        ensures
            r.target_actions@ == target_actions@,
            r.run_time == crate::units::DEFAULT_RUN_TIME,
            r.inv(),
    {
        AnimBuilder::new(target_actions)
    }

    /// Append an instant action: it takes effect, in timeline order, when
    /// the playhead passes it.
    pub fn act(&mut self, target_action: TargetAction)
        requires
            old(self).wf(),
            target_action.action.inv(),
        ensures
            final(self).wf(),
            final(self).commands.cmds@ == old(self).commands.cmds@.push(
                TimedCommand {
                    event_time: old(self).commands.end,
                    inner: Command::Act(target_action),
                },
            ),
            final(self).commands.end == old(self).commands.end,
            final(self).objects == old(self).objects,
            final(self).prev_command == old(self).prev_command,
    {
        self.commands.act(target_action);
    }

    /// Append a pause of `time` ticks.
    pub fn wait(&mut self, time: u64)
        requires
            old(self).wf(),
            old(self).commands.end as int + time as int <= u64::MAX as int,
        ensures
            final(self).wf(),
            final(self).commands.cmds@ == old(self).commands.cmds@.push(
                TimedCommand { event_time: old(self).commands.end, inner: Command::Wait(time) },
            ),
            final(self).commands.end == old(self).commands.end + time,
            final(self).objects == old(self).objects,
            final(self).prev_command == old(self).prev_command,
    {
        self.commands.wait(time);
    }

    /// Append a command that makes the object visible when the playhead
    /// passes it.
    pub fn show(&mut self, id: Id)
        requires
            old(self).wf(),
        ensures
            final(self).wf(),
            final(self).commands.cmds@ == old(self).commands.cmds@.push(
                TimedCommand { event_time: old(self).commands.end, inner: Command::Show(id) },
            ),
            final(self).commands.end == old(self).commands.end,
            final(self).objects == old(self).objects,
            final(self).prev_command == old(self).prev_command,
    {
        self.commands.show(id);
    }
}

/// Adding stock shapes to a scene.
pub trait AddObject {
    /// The receiver is in a state that accepts new objects.
    spec fn ready(&self) -> bool;

    /// Add a default circle and hand back its typed handle.
    fn circle(&mut self) -> (id: CircleId)
        requires
            old(self).ready(),
        ensures
            final(self).ready(),
    ;

    /// Add a default rectangle and hand back its typed handle.
    fn rectangle(&mut self) -> (id: RectangleId)
        requires
            old(self).ready(),
        ensures
            final(self).ready(),
    ;

    /// Add a default text object and hand back its typed handle.  The
    /// content itself is rendering data for the host; the engine tracks
    /// the typographic state.
    fn text(&mut self, text: &str) -> (id: TextId)
        requires
            old(self).ready(),
        ensures
            final(self).ready(),
    ;
}

impl AddObject for Scene {
    open spec fn ready(&self) -> bool {
        self.wf()
    }

    fn circle(&mut self) -> (id: CircleId) {
        CircleId(self.add(crate::object::circle()))
    }

    fn rectangle(&mut self) -> (id: RectangleId) {
        RectangleId(self.add(crate::object::rectangle()))
    }

    #[allow(unused_variables)]
    fn text(&mut self, text: &str) -> (id: TextId) {
        TextId(self.add(crate::object::text()))
    }
}

/// A scene over the given boundaries.
pub fn scene(resource: Resource) -> (r: Scene)
    requires
        resource.inv(),
    ensures
        r.wf(),
        r.commands.cmds@.len() == 1,
        r.objects.contents() == Map::<Id, Node>::empty(),
        r.prev_command == 0,
        r.last_time == 0,
        r.resource == resource,
{
    Scene::new(resource)
}

} // verus!
