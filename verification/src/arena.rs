//! Pool of objects addressed by generation-checked handles.
//!
//! Every slot carries the generation it was filled at; a handle resolves
//! only while its slot holds that same generation.  Removing an object
//! vacates its slot and raises the arena's generation counter, so a stale
//! handle can never alias an object inserted later into the reused slot:
//! later occupants always carry a strictly larger generation.
//!
//! The view of an arena is the map from live handles to their nodes.

use vstd::prelude::*;

use crate::object::Object;

verus! {

/// Opaque, copyable handle to an arena slot: the slot index plus the
/// generation the slot was filled at.
#[derive(Debug, Clone, Copy, PartialEq, Eq, Structural)]
pub struct Id {
    pub slot: usize,
    pub generation: u64,
}

/// An arena entry: a drawable object plus optional one-level family links.
#[derive(Debug, Clone, Copy, PartialEq, Eq, Structural)]
pub struct Node {
    pub parent: Option<Id>,
    pub child: Option<Id>,
    pub inner: Object,
}

impl Node {
    /// A node with no family links.
    pub fn new(object: Object) -> (r: Node)
        ensures
            r == (Node { parent: None, child: None, inner: object }),
    {
        Node { parent: None, child: None, inner: object }
    }

    /// Record a child link.
    pub fn set_child(&mut self, idx: Id)
        ensures
            *final(self) == (Node { child: Some(idx), ..*old(self) }),
    {
        self.child = Some(idx);
    }

    /// Record a parent link.
    pub fn set_parent(&mut self, idx: Id)
        ensures
            *final(self) == (Node { parent: Some(idx), ..*old(self) }),
    {
        self.parent = Some(idx);
    }
}

impl crate::object::Visibility for Node {
    fn is_visible(&self) -> bool {
        self.inner.is_visible()
    }

    fn show(&mut self) {
        self.inner.show();
    }

    fn conceal(&mut self) {
        self.inner.conceal();
    }
}

/// One arena slot: either filled at some generation, or vacant and
/// available for reuse.
#[derive(Debug, Clone, Copy, PartialEq, Eq, Structural)]
pub enum Slot {
    Occupied { generation: u64, node: Node },
    Vacant,
}

/// The object pool.
#[derive(Debug)]
pub struct Arena {
    pub slots: Vec<Slot>,
    pub generation: u64,
}

impl Arena {
    /// `id` currently resolves: its slot holds its generation.
    pub open spec fn owns(self, id: Id) -> bool {
        id.slot < self.slots@.len() && match self.slots@[id.slot as int] {
            Slot::Occupied { generation, .. } => generation == id.generation,
            Slot::Vacant => false,
        }
    }

    /// The node a resolving handle refers to.
    pub open spec fn node_at(self, id: Id) -> Node {
        match self.slots@[id.slot as int] {
            Slot::Occupied { node, .. } => node,
            Slot::Vacant => Node {
                parent: None,
                child: None,
                inner: crate::object::spec_default_object(crate::object::ShapeKind::Circle, 12, 12),
            },
        }
    }

    /// The map from live handles to their nodes.
    pub open spec fn contents(self) -> Map<Id, Node> {
        Map::new(|id: Id| self.owns(id), |id: Id| self.node_at(id))
    }

    /// Every occupied slot was filled at or before the current generation
    /// counter.
    pub open spec fn wf(self) -> bool {
        forall|i: int|
            0 <= i < self.slots@.len() ==> match #[trigger] self.slots@[i] {
                Slot::Occupied { generation, .. } => generation <= self.generation,
                Slot::Vacant => true,
            }
    }

    /// An empty arena.
    pub fn new() -> (r: Arena)
        ensures
            r.wf(),
            r.contents() == Map::<Id, Node>::empty(),
            r.generation == 0,
    {
        let r = Arena { slots: Vec::new(), generation: 0 };
        proof {
            assert(r.contents() =~= Map::<Id, Node>::empty());
        }
        r
    }

    /// Whether `id` still resolves to an object.
    pub fn contains(&self, id: Id) -> (r: bool)
        ensures
            r == self.contents().contains_key(id),
    {
        if id.slot < self.slots.len() {
            match self.slots[id.slot] {
                Slot::Occupied { generation, .. } => generation == id.generation,
                Slot::Vacant => false,
            }
        } else {
            false
        }
    }

    /// Insert a node, reusing the first vacant slot if there is one.
    ///
    /// The returned handle is fresh: it resolves to exactly this node, and
    /// no handle that failed to resolve before — in particular no handle
    /// invalidated by an earlier removal — resolves afterwards.
    #[verifier::loop_isolation(false)]
    pub fn insert(&mut self, node: Node) -> (id: Id)
        requires
            old(self).wf(),
        ensures
            final(self).wf(),
            !old(self).contents().contains_key(id),
            id.generation == old(self).generation,
            final(self).generation == old(self).generation,
            final(self).contents() == old(self).contents().insert(id, node),
            forall|h: Id|
                !old(self).contents().contains_key(h) && h != id
                    ==> !final(self).contents().contains_key(h),
            arena_step(*old(self), *final(self)),
    {
        let ghost pre = *self;
        let mut i: usize = 0;
        let n = self.slots.len();
        while i < n
            invariant
                *self == pre,
                n == self.slots@.len(),
                0 <= i <= n,
                forall|j: int| 0 <= j < i ==> self.slots@[j] is Occupied,
            decreases n - i,
        {
            match self.slots[i] {
                Slot::Vacant => {
                    let id = Id { slot: i, generation: self.generation };
                    self.slots[i] = Slot::Occupied { generation: self.generation, node };
                    proof {
                        assert(!pre.contents().contains_key(id));
                        assert(self.contents() =~= pre.contents().insert(id, node));
                    }
                    return id;
                },
                Slot::Occupied { .. } => {
                    i = i + 1;
                },
            }
        }
        let id = Id { slot: n, generation: self.generation };
        self.slots.push(Slot::Occupied { generation: self.generation, node });
        proof {
            assert(self.contents() =~= pre.contents().insert(id, node));
        }
        id
    }

    /// Remove the object a handle refers to, if it still resolves.
    ///
    /// A successful removal raises the generation counter above the
    /// removed handle's generation, so every later insertion returns a
    /// handle distinct from it.
    pub fn remove(&mut self, id: Id) -> (r: Option<Node>)
        requires
            old(self).wf(),
            old(self).generation < u64::MAX,
        ensures
            final(self).wf(),
            old(self).contents().contains_key(id) ==> {
                &&& r == Some(old(self).contents()[id])
                &&& final(self).contents() == old(self).contents().remove(id)
                &&& final(self).generation == old(self).generation + 1
                &&& id.generation < final(self).generation
            },
            !old(self).contents().contains_key(id) ==> r == None::<Node> && *final(self) == *old(
                self,
            ),
            arena_step(*old(self), *final(self)),
    {
        if id.slot < self.slots.len() {
            match self.slots[id.slot] {
                Slot::Occupied { generation, node } => {
                    if generation == id.generation {
                        self.slots[id.slot] = Slot::Vacant;
                        self.generation = self.generation + 1;
                        proof {
                            assert(self.contents() =~= old(self).contents().remove(id));
                        }
                        return Some(node);
                    }
                },
                Slot::Vacant => {},
            }
        }
        None
    }

    /// Read the node a handle refers to.
    pub fn get(&self, id: Id) -> (r: Option<Node>)
        ensures
            r == if self.contents().contains_key(id) {
                Some(self.contents()[id])
            } else {
                None::<Node>
            },
    {
        if id.slot < self.slots.len() {
            match self.slots[id.slot] {
                Slot::Occupied { generation, node } => {
                    if generation == id.generation {
                        return Some(node);
                    }
                },
                Slot::Vacant => {},
            }
        }
        None
    }

    /// Overwrite the node a handle refers to; a stale handle writes
    /// nothing.
    pub fn put(&mut self, id: Id, node: Node) -> (ok: bool)
        requires
            old(self).wf(),
        ensures
            final(self).wf(),
            final(self).generation == old(self).generation,
            ok == old(self).contents().contains_key(id),
            ok ==> final(self).contents() == old(self).contents().insert(id, node),
            !ok ==> *final(self) == *old(self),
            arena_step(*old(self), *final(self)),
    {
        if id.slot < self.slots.len() {
            match self.slots[id.slot] {
                Slot::Occupied { generation, .. } => {
                    if generation == id.generation {
                        self.slots[id.slot] = Slot::Occupied { generation, node };
                        proof {
                            assert(self.contents() =~= old(self).contents().insert(id, node));
                        }
                        return true;
                    }
                },
                Slot::Vacant => {},
            }
        }
        false
    }

    /// The handles of all live objects, in slot order.
    pub fn handles(&self) -> (r: Vec<Id>)
        ensures
            forall|k: int| 0 <= k < r@.len() ==> self.contents().contains_key(#[trigger] r@[k]),
            forall|id: Id| self.contents().contains_key(id) ==> r@.contains(id),
    {
        let mut r: Vec<Id> = Vec::new();
        let n = self.slots.len();
        let mut i: usize = 0;
        while i < n
            invariant
                n == self.slots@.len(),
                0 <= i <= n,
                forall|k: int| 0 <= k < r@.len() ==> self.contents().contains_key(#[trigger] r@[k]),
                forall|id: Id|
                    self.contents().contains_key(id) && id.slot < i ==> r@.contains(id),
            decreases n - i,
        {
            match self.slots[i] {
                Slot::Occupied { generation, .. } => {
                    let id = Id { slot: i, generation };
                    let ghost prev = r@;
                    r.push(id);
                    proof {
                        assert forall|id2: Id|
                            self.contents().contains_key(id2) && id2.slot < i + 1 implies r@.contains(
                            id2,
                        ) by {
                            if id2.slot < i {
                                assert(prev.contains(id2));
                                let k = choose|k: int| 0 <= k < prev.len() && prev[k] == id2;
                                assert(r@[k] == id2);
                            } else {
                                assert(id2 == id);
                                assert(r@[r@.len() - 1] == id);
                            }
                        };
                    }
                },
                Slot::Vacant => {},
            }
            i = i + 1;
        }
        r
    }

    /// Follow the one-level parent link of the node `id` refers to.
    pub fn get_parent(&self, id: Id) -> (r: Option<Node>)
        ensures
            r == spec_get_parent(*self, id),
    {
        match self.get(id) {
            Some(node) => match node.parent {
                Some(pid) => self.get(pid),
                None => None,
            },
            None => None,
        }
    }
}

/// One observable arena transition: an insertion of a fresh handle at the
/// current generation, a removal that raises the generation, an overwrite
/// of a live handle, or no change at all.  Every mutating arena operation
/// ensures a step of this relation.
pub open spec fn arena_step(a1: Arena, a2: Arena) -> bool {
    ||| a2 == a1
    ||| (exists|id: Id, n: Node|
        {
            &&& !a1.contents().contains_key(id)
            &&& id.generation == a1.generation
            &&& a2.contents() == a1.contents().insert(id, n)
            &&& a2.generation == a1.generation
        })
    ||| (exists|id: Id|
        {
            &&& a1.contents().contains_key(id)
            &&& a2.contents() == a1.contents().remove(id)
            &&& a2.generation == a1.generation + 1
        })
    ||| (exists|id: Id, n: Node|
        {
            &&& a1.contents().contains_key(id)
            &&& a2.contents() == a1.contents().insert(id, n)
            &&& a2.generation == a1.generation
        })
}

/// A handle that has stopped resolving while the generation counter sits
/// above its own generation — the state every removal leaves behind —
/// stays unresolved across any single arena operation: in particular it
/// never aliases an object inserted later into its reused slot.
pub proof fn lemma_stale_handle_stays_stale(a1: Arena, a2: Arena, h: Id)
    requires
        arena_step(a1, a2),
        !a1.contents().contains_key(h),
        h.generation < a1.generation,
    ensures
        !a2.contents().contains_key(h),
        h.generation < a2.generation,
{
}

/// The same, across any chain of arena operations: once a handle is stale
/// it resolves to nothing forever.
pub proof fn lemma_stale_handle_never_aliases(chain: Seq<Arena>, h: Id)
    requires
        chain.len() > 0,
        forall|i: int| 0 <= i < chain.len() - 1 ==> arena_step(#[trigger] chain[i], chain[i + 1]),
        !chain[0].contents().contains_key(h),
        h.generation < chain[0].generation,
    ensures
        forall|i: int|
            0 <= i < chain.len() ==> !(#[trigger] chain[i]).contents().contains_key(h)
                && h.generation < chain[i].generation,
    decreases chain.len(),
{
    if chain.len() > 1 {
        lemma_stale_handle_stays_stale(chain[0], chain[1], h);
        lemma_stale_handle_never_aliases(chain.drop_first(), h);
        assert forall|i: int|
            0 <= i < chain.len() implies !(#[trigger] chain[i]).contents().contains_key(h)
            && h.generation < chain[i].generation by {
            if i > 0 {
                assert(chain.drop_first()[i - 1] == chain[i]);
            }
        };
    }
}

/// Replace the drawable state of the node `child` refers to, keeping its
/// family links; a stale handle writes nothing.
pub fn modify_child(arena: &mut Arena, child: Id, object: Object) -> (ok: bool)
    requires
        old(arena).wf(),
    ensures
        final(arena).wf(),
        final(arena).generation == old(arena).generation,
        ok == old(arena).contents().contains_key(child),
        ok ==> final(arena).contents() == old(arena).contents().insert(
            child,
            Node { inner: object, ..old(arena).contents()[child] },
        ),
        !ok ==> *final(arena) == *old(arena),
{
    match arena.get(child) {
        Some(node) => arena.put(child, Node { inner: object, ..node }),
        None => false,
    }
}

/// Replace the drawable state of the node linked as `parent`'s child,
/// keeping that node's own family links; a missing parent, child link or
/// child writes nothing.
pub fn modify(arena: &mut Arena, parent: Id, object: Object) -> (ok: bool)
    requires
        old(arena).wf(),
    ensures
        final(arena).wf(),
        final(arena).generation == old(arena).generation,
        ({
            let m = old(arena).contents();
            if m.contains_key(parent) && m[parent].child is Some {
                let c = m[parent].child->Some_0;
                &&& ok == m.contains_key(c)
                &&& ok ==> final(arena).contents() == m.insert(
                    c,
                    Node { inner: object, ..m[c] },
                )
                &&& !ok ==> *final(arena) == *old(arena)
            } else {
                !ok && *final(arena) == *old(arena)
            }
        }),
{
    match arena.get(parent) {
        Some(node) => match node.child {
            Some(c) => modify_child(arena, c, object),
            None => false,
        },
        None => false,
    }
}

/// The parent node of `id`'s node, if both handles resolve.
pub open spec fn spec_get_parent(a: Arena, id: Id) -> Option<Node> {
    if a.contents().contains_key(id) {
        match a.contents()[id].parent {
            Some(pid) => if a.contents().contains_key(pid) {
                Some(a.contents()[pid])
            } else {
                None
            },
            None => None,
        }
    } else {
        None
    }
}

} // verus!
