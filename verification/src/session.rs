//! The resources of one thread.
//!
//! A session keeps the tree of resources of the thread and the initialization
//! that later calls of `Urma::init` share. It only counts and decides; the
//! calls that delete C objects are handed to the caller.

use vstd::prelude::*;
use vstd::set_lib::*;

use crate::call::Call;
use crate::tree;
use crate::tree::{Node, Resource, Tree};

verus! {

/// The resources of one thread, and the initialization that the thread keeps.
pub struct Session {
    nodes: Vec<Option<Node>>,
    init: Option<usize>,
}

/// There is one more handle to the resource.
pub open spec fn retained(before: &Session, id: usize, after: &Session) -> bool {
    &&& before.tree().contains_key(id)
    &&& after.tree() == tree::with_handle(before.tree(), id)
    &&& after.cached() == before.cached()
}

/// One handle to the resource is gone, and `calls` have to be made because of
/// that; nothing happens if there was no such handle.
pub open spec fn released(
    before: &Session,
    id: usize,
    calls: Seq<Call>,
    after: &Session,
) -> bool {
    &&& after.cached() == before.cached()
    &&& if before.has_handle(id) {
        &&& after.tree() == tree::release(before.tree(), id).tree
        &&& calls == tree::release(before.tree(), id).calls
    } else {
        &&& after.tree() == before.tree()
        &&& calls.len() == 0
    }
}

/// The thread has let go of its initialization, and `calls` have to be made
/// because of that.
pub open spec fn finished(before: &Session, calls: Seq<Call>, after: &Session) -> bool {
    &&& after.cached() is None
    &&& match before.cached() {
        Some(id) => {
            &&& after.tree() == tree::release(before.tree(), id).tree
            &&& calls == tree::release(before.tree(), id).calls
        },
        None => {
            &&& after.tree() == before.tree()
            &&& calls.len() == 0
        },
    }
}

impl Session {
    /// The resources that exist.
    pub closed spec fn tree(&self) -> Tree {
        Map::new(
            |k: usize| k < self.nodes@.len() && self.nodes@[k as int] is Some,
            |k: usize| self.nodes@[k as int]->0,
        )
    }

    /// The initialization that is kept for later calls of `Urma::init`.
    pub closed spec fn cached(&self) -> Option<usize> {
        self.init
    }

    /// The tree is well formed, the library is not initialized twice, and a
    /// handle is kept to a cached initialization.
    pub open spec fn wf(&self) -> bool {
        &&& tree::tree_wf(self.tree())
        &&& tree::one_init(self.tree())
        &&& self.cached() matches Some(id) ==> self.tree().contains_key(id)
            && self.tree()[id].resource is Init && self.tree()[id].handles > 0
    }

    /// An initialization can be shared or asked for: another handle to the cached
    /// one can be counted, or there is none at all. (After the thread has let go
    /// of its initialization, one may be left that contexts keep alive; the
    /// library cannot be initialized again before that is gone.)
    pub open spec fn may_init(&self) -> bool {
        match self.cached() {
            Some(id) => self.tree()[id].handles < usize::MAX,
            None => tree::no_init(self.tree()),
        }
    }

    /// There are no more resources than slots.
    proof fn lemma_slots(&self)
        ensures
            self.tree().dom().finite(),
            self.tree().dom().len() <= self.nodes@.len(),
    {
        let slots = set_int_range(0, self.nodes@.len() as int);
        lemma_int_range(0, self.nodes@.len() as int);
        let ids = slots.map(|i: int| i as usize);
        lemma_map_size_bound(slots, ids, |i: int| i as usize);
        assert forall|k: usize| self.tree().dom().contains(k) implies ids.contains(k) by {
            assert(slots.contains(k as int));
            assert((k as int) as usize == k);
        }
        lemma_set_subset_finite(ids, self.tree().dom());
        lemma_len_subset(self.tree().dom(), ids);
    }

    /// A thread that has done nothing yet.
    pub fn new() -> (r: Session)
        ensures
            r.wf(),
            r.tree() == Map::<usize, Node>::empty(),
            r.cached() is None,
    {
        let r = Session { nodes: Vec::new(), init: None };
        assert(r.tree() =~= Map::<usize, Node>::empty());
        r
    }

    /// Whether the resource exists.
    pub fn is_live(&self, id: usize) -> (r: bool)
        ensures
            r == self.tree().contains_key(id),
    {
        id < self.nodes.len() && self.nodes[id].is_some()
    }

    /// Whether another handle to the resource can be counted.
    pub fn can_retain(&self, id: usize) -> (r: bool)
        ensures
            r == (self.tree().contains_key(id) && self.tree()[id].handles < usize::MAX),
    {
        if id < self.nodes.len() {
            match self.nodes[id] {
                Some(node) => node.handles < usize::MAX,
                None => false,
            }
        } else {
            false
        }
    }

    /// See [`Session::may_init`].
    pub fn can_init(&self) -> (r: bool)
        requires
            self.wf(),
        ensures
            r == self.may_init(),
    {
        if let Some(id) = self.init {
            return self.can_retain(id);
        }
        let mut id: usize = 0;
        while id < self.nodes.len()
            invariant
                id <= self.nodes@.len(),
                self.init is None,
                forall|k: usize| #[trigger]
                    self.tree().contains_key(k) && k < id ==> !(self.tree()[k].resource is Init),
            decreases self.nodes@.len() - id,
        {
            if let Some(node) = self.nodes[id] {
                if let Resource::Init = node.resource {
                    assert(self.tree().contains_key(id));
                    return false;
                }
            }
            id += 1;
        }
        true
    }

    /// The cached initialization.
    pub fn initialized(&self) -> (r: Option<usize>)
        ensures
            r == self.cached(),
    {
        self.init
    }

    /// Write a slot.
    fn put(&mut self, id: usize, node: Option<Node>)
        requires
            id < old(self).nodes@.len(),
        ensures
            final(self).tree() == match node {
                Some(n) => old(self).tree().insert(id, n),
                None => old(self).tree().remove(id),
            },
            final(self).nodes@.len() == old(self).nodes@.len(),
            final(self).init == old(self).init,
    {
        self.nodes.set(id, node);
        assert(self.tree() =~= match node {
            Some(n) => old(self).tree().insert(id, n),
            None => old(self).tree().remove(id),
        });
    }

    /// An identifier that no resource has.
    fn free_slot(&mut self) -> (id: usize)
        ensures
            final(self).tree() == old(self).tree(),
            final(self).init == old(self).init,
            id < final(self).nodes@.len(),
            !final(self).tree().contains_key(id),
    {
        let mut id: usize = 0;
        while id < self.nodes.len() && self.nodes[id].is_some()
            invariant
                id <= self.nodes@.len(),
                *self == *old(self),
            decreases self.nodes@.len() - id,
        {
            id += 1;
        }
        if id == self.nodes.len() {
            self.nodes.push(None);
            assert(self.tree() =~= old(self).tree());
        }
        id
    }

    /// No resource has more children than there are other resources.
    proof fn lemma_room(&self, id: usize)
        requires
            tree::tree_wf(self.tree()),
            self.tree().contains_key(id),
        ensures
            self.tree()[id].children < self.nodes@.len(),
    {
        let t = self.tree();
        self.lemma_slots();
        tree::lemma_not_own_parent(t, id);
        assert(tree::children_of(t, id).subset_of(t.dom().remove(id)));
        lemma_len_subset(tree::children_of(t, id), t.dom().remove(id));
    }

    /// A resource has one more child.
    fn add_child(&mut self, id: usize)
        requires
            old(self).tree().contains_key(id),
            old(self).tree()[id].children < usize::MAX,
        ensures
            final(self).tree() == tree::with_child(old(self).tree(), Some(id)),
            final(self).nodes@.len() == old(self).nodes@.len(),
            final(self).init == old(self).init,
    {
        if let Some(node) = self.nodes[id] {
            self.put(id, Some(Node { children: node.children + 1, ..node }));
        }
    }

    /// A resource, if there is one, has one child less.
    fn remove_child(&mut self, id: Option<usize>)
        requires
            id matches Some(k) ==> old(self).tree().contains_key(k)
                && old(self).tree()[k].children > 0,
        ensures
            final(self).tree() == tree::without_child(old(self).tree(), id),
            final(self).nodes@.len() == old(self).nodes@.len(),
            final(self).init == old(self).init,
    {
        if let Some(k) = id {
            if let Some(node) = self.nodes[k] {
                self.put(k, Some(Node { children: node.children - 1, ..node }));
            }
        }
    }

    /// A new resource below `parent` and, if it is a jetty, on `context`; the
    /// caller gets the one handle to it.
    pub fn adopt(&mut self, parent: usize, context: Option<usize>, resource: Resource) -> (id:
        usize)
        requires
            old(self).wf(),
            tree::may_hang(old(self).tree(), resource, Some(parent), context),
        ensures
            final(self).wf(),
            !old(self).tree().contains_key(id),
            final(self).tree() == tree::adopted(old(self).tree(), id, parent, context, resource),
            final(self).cached() == old(self).cached(),
    {
        let id: usize = self.free_slot();
        let ghost t = self.tree();
        proof {
            assert(self.nodes.len() <= usize::MAX);
            self.lemma_room(parent);
            if let Some(c) = context {
                self.lemma_room(c);
            }
            tree::lemma_adopted(t, id, parent, context, resource);
        }
        self.add_child(parent);
        if let Some(c) = context {
            self.add_child(c);
        }
        self.put(
            id,
            Some(Node { resource, parent: Some(parent), context, handles: 1, children: 0 }),
        );
        id
    }

    /// The library was initialized: the thread keeps a handle to that, and the
    /// caller gets another.
    pub fn install(&mut self) -> (id: usize)
        requires
            old(self).wf(),
            tree::no_init(old(self).tree()),
        ensures
            final(self).wf(),
            !old(self).tree().contains_key(id),
            final(self).tree() == old(self).tree().insert(
                id,
                Node { resource: Resource::Init, parent: None, context: None, handles: 2, children: 0 },
            ),
            final(self).cached() == Some(id),
    {
        let id = self.free_slot();
        let ghost t = self.tree();
        let node = Node { resource: Resource::Init, parent: None, context: None, handles: 2, children: 0 };
        proof {
            tree::lemma_root_added(t, id, node);
        }
        self.put(id, Some(node));
        self.init = Some(id);
        assert(self.tree() =~= t.insert(id, node));
        id
    }

    /// One more handle to the resource.
    pub fn retain(&mut self, id: usize)
        requires
            old(self).wf(),
            old(self).tree().contains_key(id),
            old(self).tree()[id].handles < usize::MAX,
        ensures
            final(self).wf(),
            retained(old(self), id, final(self)),
    {
        proof {
            tree::lemma_retained(self.tree(), id);
        }
        if let Some(node) = self.nodes[id] {
            self.put(id, Some(Node { handles: node.handles + 1, ..node }));
        }
    }

    /// Look at the resources of a stack: one that nothing keeps alive any more
    /// is deleted, and then what it hung on is looked at.
    fn sweep_from(&mut self, todo: Vec<usize>, calls: &mut Vec<Call>)
        requires
            tree::tree_wf_but(old(self).tree(), todo@),
        ensures
            final(self).tree() == tree::sweep(old(self).tree(), todo@).tree,
            final(calls)@ == old(calls)@ + tree::sweep(old(self).tree(), todo@).calls,
            final(self).init == old(self).init,
        decreases old(self).tree().dom().len(), todo@.len(),
    {
        let ghost t = self.tree();
        let ghost all = todo@;
        let mut rest = todo;
        if let Some(id) = rest.pop() {
            assert(rest@ =~= all.drop_last());
            let found: Option<Node> = if id < self.nodes.len() {
                self.nodes[id]
            } else {
                None
            };
            match found {
                Some(node) if node.handles == 0 && node.children == 0 => {
                    proof {
                        tree::lemma_cut(t, all);
                    }
                    self.put(id, None);
                    self.remove_child(node.parent);
                    self.remove_child(node.context);
                    node.resource.push_deletes(calls);
                    if let Some(c) = node.context {
                        rest.push(c);
                    }
                    if let Some(p) = node.parent {
                        rest.push(p);
                    }
                    assert(self.tree() == tree::cut(t, id));
                    assert(rest@ == node.onto(all.drop_last()));
                    self.sweep_from(rest, calls);
                    node.resource.push_frees(calls);
                },
                _ => {
                    proof {
                        tree::lemma_todo_shrinks(t, all);
                    }
                    self.sweep_from(rest, calls);
                },
            }
        }
        assert(calls@ =~= old(calls)@ + tree::sweep(t, all).calls);
    }

    /// Whether a handle to the resource exists, besides the one that the thread
    /// keeps to its initialization.
    pub open spec fn has_handle(&self, id: usize) -> bool {
        self.tree().contains_key(id) && self.tree()[id].handles > if self.cached() == Some(id) {
            1int
        } else {
            0int
        }
    }

    /// One handle to the resource is dropped. The calls that have to be made
    /// because of that, in their order; none if there was no such handle. As long
    /// as the thread keeps its initialization, the library stays initialized.
    pub fn release(&mut self, id: usize) -> (calls: Vec<Call>)
        requires
            old(self).wf(),
        ensures
            final(self).wf(),
            released(old(self), id, calls@, final(self)),
            old(self).cached() is Some ==> !calls@.contains(Call::Uninit),
    {
        let mut calls: Vec<Call> = Vec::new();
        let kept: usize = match self.init {
            Some(root) => if root == id {
                1
            } else {
                0
            },
            None => 0,
        };
        if id < self.nodes.len() {
            if let Some(node) = self.nodes[id] {
                if node.handles > kept {
                    self.release_into(id, &mut calls);
                    proof {
                        if let Some(root) = self.init {
                            tree::lemma_release_uninit(old(self).tree(), id, root);
                            tree::lemma_made(calls@, Call::Uninit);
                        }
                    }
                }
            }
        }
        calls
    }

    /// See [`Session::release`].
    fn release_into(&mut self, id: usize, calls: &mut Vec<Call>)
        requires
            tree::tree_wf(old(self).tree()),
            tree::one_init(old(self).tree()),
            old(calls)@.len() == 0,
        ensures
            tree::tree_wf(final(self).tree()),
            tree::one_init(final(self).tree()),
            final(self).tree() == tree::release(old(self).tree(), id).tree,
            final(calls)@ == tree::release(old(self).tree(), id).calls,
            final(self).init == old(self).init,
            forall|k: usize| #[trigger]
                old(self).tree().contains_key(k) && old(self).tree()[k].handles > (if k == id {
                    1int
                } else {
                    0int
                }) ==> final(self).tree().contains_key(k) && final(self).tree()[k].handles > 0
                    && final(self).tree()[k].resource == old(self).tree()[k].resource,
    {
        let ghost t = self.tree();
        proof {
            tree::law_release(t, id);
            assert forall|k: usize| #[trigger] t.contains_key(k) && t[k].handles > (if k == id {
                1int
            } else {
                0int
            }) implies !tree::release(t, id).gone.contains(k) by {}
        }
        if id < self.nodes.len() {
            if let Some(node) = self.nodes[id] {
                if node.handles > 0 {
                    proof {
                        tree::lemma_released_handle(t, id);
                    }
                    self.put(id, Some(Node { handles: node.handles - 1, ..node }));
                    let mut todo: Vec<usize> = Vec::new();
                    todo.push(id);
                    assert(todo@ =~= seq![id]);
                    self.sweep_from(todo, calls);
                }
            }
        }
        assert(calls@ =~= tree::release(t, id).calls);
        assert forall|k: usize| #[trigger] self.tree().contains_key(k) implies t.contains_key(k)
            && self.tree()[k].resource == t[k].resource by {}
        assert forall|k: usize| #[trigger] t.contains_key(k) && t[k].handles > (if k == id {
            1int
        } else {
            0int
        }) implies self.tree().contains_key(k) && self.tree()[k].handles > 0
            && self.tree()[k].resource == t[k].resource by {
            assert(!tree::release(t, id).gone.contains(k));
            assert(self.tree().contains_key(k));
        }
    }

    /// The thread ends: it lets go of the initialization that it kept. The
    /// calls that have to be made because of that; `urma_uninit` is among them,
    /// once, if the initialization goes.
    pub fn finish(&mut self) -> (calls: Vec<Call>)
        requires
            old(self).wf(),
        ensures
            final(self).wf(),
            finished(old(self), calls@, final(self)),
            old(self).cached() matches Some(id) ==> tree::times_made(calls@, Call::Uninit)
                == if final(self).tree().contains_key(id) {
                0nat
            } else {
                1nat
            },
    {
        let mut calls: Vec<Call> = Vec::new();
        if let Some(id) = self.init {
            proof {
                tree::lemma_release_uninit(self.tree(), id, id);
            }
            self.release_into(id, &mut calls);
            let ghost t = self.tree();
            self.init = None;
            assert(self.tree() =~= t);
        }
        calls
    }
}

} // verus!
