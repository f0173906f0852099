//! The tree of resources: who keeps whom alive, and what is deleted when.
//!
//! The resources form a tree (Init -> Context -> Queue -> Jetty, Context ->
//! Seg / Peer), with one more branch: a jetty hangs below its queue and also on
//! the context that it was created on, which need not be that of the queue. A
//! resource lives as long as a handle to it or a child of it does: when the last
//! of them goes, its C objects are deleted and what it hung on loses a child,
//! which may in turn be deleted. What a resource uses is therefore deleted only
//! after the last resource using it is gone, in whatever order the handles are
//! dropped.

use vstd::prelude::*;

use crate::call::{Call, Effect, Kind, Object};
use crate::ffi::{urma_context_t, urma_jfc_t, urma_jfce_t, urma_jfr_t, urma_target_jetty_t, Addr};

verus! {

/// Page size for buffer alignment and buffer sizing; URMA devices must support
/// at least 4K pages (`page_size_cap` in urma_types.h)
pub const PAGE_SIZE: usize = 4096;

/// A piece of page-aligned memory from the allocator.
#[derive(Clone, Copy)]
pub struct Page {
    pub addr: Addr,
    pub size: usize,
}

/// The C objects of one resource.
#[derive(Clone, Copy)]
pub enum Resource {
    /// `urma_init` was called
    Init,
    Context { ctx: urma_context_t },
    Queue { jfce: urma_jfce_t, jfc: urma_jfc_t },
    Jetty { jfr: urma_jfr_t, jetty: Addr },
    /// A registered segment, with the memory that goes with it
    Seg { tseg: Addr, page: Option<Page> },
    Peer { tseg: Addr, tjetty: urma_target_jetty_t },
}

impl Resource {
    /// The calls that delete the C objects, in their order.
    pub open spec fn deletes(self) -> Seq<Call> {
        match self {
            Resource::Init => seq![Call::Uninit],
            Resource::Context { ctx } => seq![Call::DeleteContext { ctx }],
            Resource::Queue { jfce, jfc } => seq![
                Call::DeleteJfc { jfc },
                Call::DeleteJfce { jfce },
            ],
            Resource::Jetty { jfr, jetty } => seq![
                Call::DeleteJetty { jetty },
                Call::DeleteJfr { jfr },
            ],
            Resource::Seg { tseg, .. } => seq![Call::UnregisterSeg { tseg }],
            Resource::Peer { tseg, tjetty } => seq![
                Call::UnimportJetty { tjetty },
                Call::UnimportSeg { tseg },
            ],
        }
    }

    /// The calls that come when everything else is done: memory outlives its
    /// registration.
    pub open spec fn frees(self) -> Seq<Call> {
        match self {
            Resource::Seg { page: Some(page), .. } => seq![
                Call::Dealloc { addr: page.addr, size: page.size, align: PAGE_SIZE },
            ],
            _ => seq![],
        }
    }

    /// All calls that are made when the resource goes.
    pub open spec fn last_calls(self) -> Seq<Call> {
        self.deletes() + self.frees()
    }

    /// The objects that the resource is made of.
    pub open spec fn objects(self) -> Set<Object> {
        match self {
            Resource::Init => Set::empty(),
            Resource::Context { ctx } => set![Object { kind: Kind::Context, addr: ctx.addr }],
            Resource::Queue { jfce, jfc } => set![
                Object { kind: Kind::Jfce, addr: jfce.addr },
                Object { kind: Kind::Jfc, addr: jfc.addr },
            ],
            Resource::Jetty { jfr, jetty } => set![
                Object { kind: Kind::Jfr, addr: jfr.addr },
                Object { kind: Kind::Jetty, addr: jetty },
            ],
            Resource::Seg { tseg, page: None } => set![Object { kind: Kind::Seg, addr: tseg }],
            Resource::Seg { tseg, page: Some(page) } => set![
                Object { kind: Kind::Memory, addr: page.addr },
                Object { kind: Kind::Seg, addr: tseg },
            ],
            Resource::Peer { tseg, tjetty } => set![
                Object { kind: Kind::ImportedSeg, addr: tseg },
                Object { kind: Kind::ImportedJetty, addr: tjetty.addr },
            ],
        }
    }

    /// Whether a resource of this kind may hang below `parent`.
    pub open spec fn fits_below(self, parent: Resource) -> bool {
        match self {
            Resource::Init => false,
            Resource::Context { .. } => parent is Init,
            Resource::Queue { .. } => parent is Context,
            Resource::Seg { .. } => parent is Context,
            Resource::Peer { .. } => parent is Context,
            Resource::Jetty { .. } => parent is Queue,
        }
    }

    /// Append [`Resource::deletes`].
    pub fn push_deletes(&self, calls: &mut Vec<Call>)
        ensures
            final(calls)@ == old(calls)@ + self.deletes(),
    {
        match *self {
            Resource::Init => {
                calls.push(Call::Uninit);
            },
            Resource::Context { ctx } => {
                calls.push(Call::DeleteContext { ctx });
            },
            Resource::Queue { jfce, jfc } => {
                calls.push(Call::DeleteJfc { jfc });
                calls.push(Call::DeleteJfce { jfce });
            },
            Resource::Jetty { jfr, jetty } => {
                calls.push(Call::DeleteJetty { jetty });
                calls.push(Call::DeleteJfr { jfr });
            },
            Resource::Seg { tseg, .. } => {
                calls.push(Call::UnregisterSeg { tseg });
            },
            Resource::Peer { tseg, tjetty } => {
                calls.push(Call::UnimportJetty { tjetty });
                calls.push(Call::UnimportSeg { tseg });
            },
        }
        assert(calls@ =~= old(calls)@ + self.deletes());
    }

    /// Append [`Resource::frees`].
    pub fn push_frees(&self, calls: &mut Vec<Call>)
        ensures
            final(calls)@ == old(calls)@ + self.frees(),
    {
        if let Resource::Seg { page: Some(page), .. } = *self {
            calls.push(Call::Dealloc { addr: page.addr, size: page.size, align: PAGE_SIZE });
        }
        assert(calls@ =~= old(calls)@ + self.frees());
    }
}

/// One resource of the tree.
#[derive(Clone, Copy)]
pub struct Node {
    pub resource: Resource,
    pub parent: Option<usize>,
    /// The context that a jetty was created on, besides the queue that it hangs
    /// below; the two need not belong together
    pub context: Option<usize>,
    /// How many handles to it exist
    pub handles: usize,
    /// How many resources hang on it: those that have it as their parent or as
    /// their context
    pub children: usize,
}

impl Node {
    /// The resource keeps `id` alive: `id` is its parent or its context.
    pub open spec fn hangs_on(self, id: usize) -> bool {
        self.parent == Some(id) || self.context == Some(id)
    }

    /// What the resource hangs on, put on top of a stack: the parent is on top.
    pub open spec fn onto(self, stack: Seq<usize>) -> Seq<usize> {
        pushed(pushed(stack, self.context), self.parent)
    }
}

/// The stack with `id` on top of it, if there is one.
pub open spec fn pushed(stack: Seq<usize>, id: Option<usize>) -> Seq<usize> {
    match id {
        Some(k) => stack.push(k),
        None => stack,
    }
}

/// The resources that exist, by their identifiers.
pub type Tree = Map<usize, Node>;

/// The resources right below `id`.
pub open spec fn children_of(t: Tree, id: usize) -> Set<usize> {
    t.dom().filter(|k: usize| t[k].hangs_on(id))
}

/// A resource may hang below this parent and on this context: only the init has
/// no parent, only a jetty has a context of its own, and what it hangs on exists
/// and is of the right kind.
pub open spec fn may_hang(
    t: Tree,
    resource: Resource,
    parent: Option<usize>,
    context: Option<usize>,
) -> bool {
    &&& match parent {
        None => resource is Init,
        Some(p) => t.contains_key(p) && resource.fits_below(t[p].resource),
    }
    &&& match context {
        None => !(resource is Jetty),
        Some(c) => resource is Jetty && t.contains_key(c) && t[c].resource is Context,
    }
}

/// The resource may stand where it does.
pub open spec fn well_placed(t: Tree, id: usize) -> bool {
    may_hang(t, t[id].resource, t[id].parent, t[id].context)
}

/// Every resource is well placed, counts its children right, and is kept alive
/// by a handle or a child.
pub open spec fn tree_wf(t: Tree) -> bool {
    tree_wf_but(t, seq![])
}

/// Like [`tree_wf`], except that nothing need keep the resources of `todo` alive.
pub open spec fn tree_wf_but(t: Tree, todo: Seq<usize>) -> bool {
    &&& t.dom().finite()
    &&& forall|id: usize| #[trigger]
        t.contains_key(id) ==> {
            &&& well_placed(t, id)
            &&& t[id].children == children_of(t, id).len()
            &&& !todo.contains(id) ==> t[id].handles + t[id].children > 0
        }
}

/// The tree after a handle to `id` is gone, before anything is deleted.
pub open spec fn without_handle(t: Tree, id: usize) -> Tree {
    t.insert(id, Node { handles: (t[id].handles - 1) as usize, ..t[id] })
}

/// The tree after a child of `id`, if there is such a resource, is gone, before
/// anything else is deleted.
pub open spec fn without_child(t: Tree, id: Option<usize>) -> Tree {
    match id {
        Some(k) => if t.contains_key(k) {
            t.insert(k, Node { children: (t[k].children - 1) as usize, ..t[k] })
        } else {
            t
        },
        None => t,
    }
}

/// The tree without `id`, which what it hung on no longer counts.
pub open spec fn cut(t: Tree, id: usize) -> Tree {
    without_child(without_child(t.remove(id), t[id].parent), t[id].context)
}

/// What a deletion leaves, which resources went, in their order, and the calls
/// that deleted them.
pub struct Swept {
    pub tree: Tree,
    pub gone: Seq<usize>,
    pub calls: Seq<Call>,
}

/// Look at the resources of a stack: one that nothing keeps alive any more is
/// deleted, and then what it hung on is looked at.
pub open spec fn sweep(t: Tree, todo: Seq<usize>) -> Swept
    decreases t.dom().len(), todo.len(),
{
    if !t.dom().finite() || todo.len() == 0 {
        Swept { tree: t, gone: seq![], calls: seq![] }
    } else {
        let id = todo.last();
        let rest = todo.drop_last();
        if !t.contains_key(id) || t[id].handles > 0 || t[id].children > 0 {
            sweep(t, rest)
        } else {
            proof {
                assert(cut(t, id).dom() =~= t.dom().remove(id));
            }
            let later = sweep(cut(t, id), t[id].onto(rest));
            Swept {
                tree: later.tree,
                gone: seq![id] + later.gone,
                calls: t[id].resource.deletes() + later.calls + t[id].resource.frees(),
            }
        }
    }
}

/// One handle to `id` is dropped.
pub open spec fn release(t: Tree, id: usize) -> Swept {
    if t.contains_key(id) && t[id].handles > 0 {
        sweep(without_handle(t, id), seq![id])
    } else {
        Swept { tree: t, gone: seq![], calls: seq![] }
    }
}

/// The library is not initialized.
pub open spec fn no_init(t: Tree) -> bool {
    forall|k: usize| #[trigger] t.contains_key(k) ==> !(t[k].resource is Init)
}

/// The library is not initialized twice.
pub open spec fn one_init(t: Tree) -> bool {
    forall|j: usize, k: usize|
        #![trigger t.contains_key(j), t.contains_key(k)]
        t.contains_key(j) && t.contains_key(k) && t[j].resource is Init && t[k].resource is Init
            ==> j == k
}

/// The objects that the resources are made of.
pub open spec fn owned(t: Tree) -> Set<Object> {
    Set::new(
        |o: Object|
            exists|k: usize| #[trigger]
                t.contains_key(k) && t[k].resource.objects().contains(o),
    )
}

/// The resource at `id` is this one.
pub open spec fn stands_at(t: Tree, id: usize, resource: Resource) -> bool {
    t.contains_key(id) && t[id].resource == resource
}

/// The resource at `id` is a completion queue with this jfc.
pub open spec fn queue_at(t: Tree, id: usize, queue: urma_jfc_t) -> bool {
    t.contains_key(id) && (t[id].resource matches Resource::Queue { jfc, .. } && jfc == queue)
}

/// The resource at `id` is a jetty, and this is its `urma_jetty_t`.
pub open spec fn jetty_at(t: Tree, id: usize, addr: Addr) -> bool {
    t.contains_key(id) && (t[id].resource matches Resource::Jetty { jetty, .. } && jetty == addr)
}

/// The resource at `id` is a registered segment, and this is its
/// `urma_target_seg_t`.
pub open spec fn seg_at(t: Tree, id: usize, addr: Addr) -> bool {
    t.contains_key(id) && (t[id].resource matches Resource::Seg { tseg, .. } && tseg == addr)
}

/* ============================== Laws of the tree ============================== */

/// `a` and `b` are the same resource in the same place, with the same handles.
pub open spec fn same_but_children(a: Node, b: Node) -> bool {
    a.resource == b.resource && a.parent == b.parent && a.context == b.context && a.handles
        == b.handles
}

/// Changing counts does not change who hangs below whom.
proof fn lemma_children_recounted(t: Tree, id: usize, node: Node)
    requires
        t.contains_key(id),
        node.parent == t[id].parent,
        node.context == t[id].context,
    ensures
        forall|k: usize| #[trigger] children_of(t.insert(id, node), k) == children_of(t, k),
{
    assert forall|k: usize| #[trigger]
        children_of(t.insert(id, node), k) == children_of(t, k) by {
        assert(children_of(t.insert(id, node), k) =~= children_of(t, k));
    }
}

/// Taking a resource without children away keeps everything right, but for what
/// keeps the resources alive that it hung on.
pub proof fn lemma_cut(t: Tree, todo: Seq<usize>)
    requires
        tree_wf_but(t, todo),
        todo.len() > 0,
        t.contains_key(todo.last()),
        t[todo.last()].handles == 0,
        t[todo.last()].children == 0,
    ensures
        cut(t, todo.last()).dom() == t.dom().remove(todo.last()),
        children_of(t, todo.last()) == Set::<usize>::empty(),
        tree_wf_but(cut(t, todo.last()), t[todo.last()].onto(todo.drop_last())),
        forall|k: usize| #[trigger]
            cut(t, todo.last()).contains_key(k) ==> same_but_children(
                cut(t, todo.last())[k],
                t[k],
            ),
        t[todo.last()].parent matches Some(p) ==> t.remove(todo.last()).contains_key(p)
            && t[p].children > 0,
        t[todo.last()].context matches Some(c) ==> t.remove(todo.last()).contains_key(c)
            && t[c].children > 0 && t[todo.last()].parent != Some(c),
{
    let id = todo.last();
    let node = t[id];
    let rest = todo.drop_last();
    let after = cut(t, id);
    assert(well_placed(t, id));
    assert(after.dom() =~= t.dom().remove(id));
    vstd::set_lib::lemma_set_subset_finite(t.dom(), children_of(t, id));
    assert(children_of(t, id) =~= Set::<usize>::empty()) by {
        if exists|k: usize| children_of(t, id).contains(k) {
            let k = choose|k: usize| children_of(t, id).contains(k);
            vstd::set::axiom_set_contains_len(children_of(t, id), k);
        }
    }
    assert forall|k: usize| #[trigger] t.contains_key(k) implies !t[k].hangs_on(id) by {
        assert(!children_of(t, id).contains(k));
    }
    assert forall|q: usize| #[trigger] node.hangs_on(q) implies t.contains_key(q) && q != id
        && t[q].children > 0 by {
        assert(children_of(t, q).contains(id));
        vstd::set_lib::lemma_set_subset_finite(t.dom(), children_of(t, q));
        vstd::set::axiom_set_contains_len(children_of(t, q), id);
    }
    if let Some(p) = node.parent {
        assert(node.hangs_on(p));
    }
    if let Some(c) = node.context {
        assert(node.hangs_on(c));
    }
    assert forall|k: usize| #[trigger] after.contains_key(k) implies same_but_children(
        after[k],
        t[k],
    ) && after[k].children == t[k].children - (if node.hangs_on(k) {
        1int
    } else {
        0int
    }) by {}
    assert forall|k: usize| #[trigger] after.contains_key(k) implies {
        &&& well_placed(after, k)
        &&& after[k].children == children_of(after, k).len()
        &&& !node.onto(rest).contains(k) ==> after[k].handles + after[k].children > 0
    } by {
        assert(t.contains_key(k));
        assert(well_placed(t, k));
        assert(!t[k].hangs_on(id));
        vstd::set_lib::lemma_set_subset_finite(t.dom(), children_of(t, k));
        if node.hangs_on(k) {
            assert(children_of(after, k) =~= children_of(t, k).remove(id));
            assert(children_of(t, k).contains(id));
        } else {
            assert(children_of(after, k) =~= children_of(t, k));
        }
        if !node.onto(rest).contains(k) {
            lemma_onto(node, rest, k);
            if todo.contains(k) {
                let i = choose|i: int| 0 <= i < todo.len() && todo[i] == k;
                assert(rest[i] == k);
            }
        }
    }
}

/// A resource that is kept alive, or is gone, needs no second look.
pub proof fn lemma_todo_shrinks(t: Tree, todo: Seq<usize>)
    requires
        tree_wf_but(t, todo),
        todo.len() > 0,
        !t.contains_key(todo.last()) || t[todo.last()].handles > 0 || t[todo.last()].children > 0,
    ensures
        tree_wf_but(t, todo.drop_last()),
{
    let rest = todo.drop_last();
    assert forall|k: usize| #[trigger] t.contains_key(k) && !rest.contains(k) implies t[k].handles
        + t[k].children > 0 by {
        if todo.contains(k) {
            let i = choose|i: int| 0 <= i < todo.len() && todo[i] == k;
            if i < rest.len() {
                assert(rest[i] == k);
            }
        }
    }
}

/// What is on the stack: what was there, and what the resource hangs on.
proof fn lemma_onto(node: Node, stack: Seq<usize>, k: usize)
    ensures
        node.onto(stack).contains(k) <==> node.hangs_on(k) || stack.contains(k),
{
    lemma_pushed(stack, node.context, k);
    lemma_pushed(pushed(stack, node.context), node.parent, k);
}

proof fn lemma_pushed(stack: Seq<usize>, id: Option<usize>, k: usize)
    ensures
        pushed(stack, id).contains(k) <==> id == Some(k) || stack.contains(k),
{
    if let Some(top) = id {
        let s = stack.push(top);
        assert(s[stack.len() as int] == top);
        if stack.contains(k) {
            let i = choose|i: int| 0 <= i < stack.len() && stack[i] == k;
            assert(s[i] == k);
        }
        if s.contains(k) && k != top {
            let i = choose|i: int| 0 <= i < s.len() && s[i] == k;
            assert(stack[i] == k);
        }
    }
}

/// In a sequence of deleted resources, every resource that hung on another one
/// comes before it.
pub open spec fn children_first(t: Tree, gone: Seq<usize>) -> bool {
    forall|i: int, k: usize|
        #![trigger gone[i], t.contains_key(k)]
        0 <= i < gone.len() && t.contains_key(k) && t[k].hangs_on(gone[i]) ==> exists|j: int|
            0 <= j < i && gone[j] == k
}

/// What is left of `t` when the resources `gone` are deleted.
pub open spec fn left_after(t: Tree, gone: Seq<usize>, rest: Tree) -> bool {
    &&& gone.no_duplicates()
    &&& forall|i: int| 0 <= i < gone.len() ==> t.contains_key(#[trigger] gone[i])
    &&& forall|k: usize| #[trigger]
        rest.contains_key(k) <==> t.contains_key(k) && !gone.contains(k)
    &&& forall|k: usize| #[trigger]
        rest.contains_key(k) ==> rest[k].resource == t[k].resource && rest[k].parent == t[k].parent
            && rest[k].context == t[k].context
}

/// The calls that delete the resources `gone`, one after the other; memory is
/// given back when the rest is done.
pub open spec fn teardown(t: Tree, gone: Seq<usize>) -> Seq<Call>
    decreases gone.len(),
{
    if gone.len() == 0 {
        seq![]
    } else {
        t[gone[0]].resource.deletes() + teardown(t, gone.drop_first())
            + t[gone[0]].resource.frees()
    }
}

/// A teardown depends on nothing but what the resources are.
proof fn lemma_teardown_same(t: Tree, u: Tree, gone: Seq<usize>)
    requires
        forall|i: int| 0 <= i < gone.len() ==> t[#[trigger] gone[i]].resource == u[gone[i]].resource,
    ensures
        teardown(t, gone) == teardown(u, gone),
    decreases gone.len(),
{
    if gone.len() > 0 {
        let rest = gone.drop_first();
        assert forall|i: int| 0 <= i < rest.len() implies t[#[trigger] rest[i]].resource
            == u[rest[i]].resource by {
            assert(rest[i] == gone[i + 1]);
        }
        lemma_teardown_same(t, u, rest);
    }
}

/// What a sweep does: it leaves a well-formed tree; it deletes resources that no
/// handle keeps alive, once each and children before what they hang on; and it
/// touches no other resource, except that those lose children.
pub proof fn lemma_sweep(t: Tree, todo: Seq<usize>)
    requires
        tree_wf_but(t, todo),
    ensures
        tree_wf(sweep(t, todo).tree),
        left_after(t, sweep(t, todo).gone, sweep(t, todo).tree),
        children_first(t, sweep(t, todo).gone),
        sweep(t, todo).calls == teardown(t, sweep(t, todo).gone),
        forall|k: usize| #[trigger]
            sweep(t, todo).tree.contains_key(k) ==> same_but_children(
                sweep(t, todo).tree[k],
                t[k],
            ),
        forall|k: usize| #[trigger] sweep(t, todo).gone.contains(k) ==> t[k].handles == 0,
    decreases t.dom().len(), todo.len(),
{
    let all = sweep(t, todo);
    if todo.len() == 0 {
        assert(todo =~= seq![]);
        assert(teardown(t, all.gone) =~= seq![]);
    } else {
        let id = todo.last();
        let rest = todo.drop_last();
        if !t.contains_key(id) || t[id].handles > 0 || t[id].children > 0 {
            lemma_todo_shrinks(t, todo);
            lemma_sweep(t, rest);
        } else {
            lemma_cut(t, todo);
            let next = cut(t, id);
            let onto = t[id].onto(rest);
            lemma_sweep(next, onto);
            lemma_swept_first(t, id, next, sweep(next, onto));
        }
    }
}

/// See [`lemma_sweep`]: one resource was deleted first, and then the others.
proof fn lemma_swept_first(t: Tree, id: usize, next: Tree, later: Swept)
    requires
        t.contains_key(id),
        t[id].handles == 0,
        children_of(t, id) == Set::<usize>::empty(),
        next.dom() == t.dom().remove(id),
        forall|k: usize| #[trigger] next.contains_key(k) ==> same_but_children(next[k], t[k]),
        left_after(next, later.gone, later.tree),
        children_first(next, later.gone),
        later.calls == teardown(next, later.gone),
        forall|k: usize| #[trigger]
            later.tree.contains_key(k) ==> same_but_children(later.tree[k], next[k]),
        forall|k: usize| #[trigger] later.gone.contains(k) ==> next[k].handles == 0,
    ensures
        left_after(t, seq![id] + later.gone, later.tree),
        children_first(t, seq![id] + later.gone),
        t[id].resource.deletes() + later.calls + t[id].resource.frees() == teardown(
            t,
            seq![id] + later.gone,
        ),
        forall|k: usize| #[trigger]
            later.tree.contains_key(k) ==> same_but_children(later.tree[k], t[k]),
        forall|k: usize| #[trigger] (seq![id] + later.gone).contains(k) ==> t[k].handles == 0,
{
    let gone = seq![id] + later.gone;
    assert(gone[0] == id);
    assert forall|i: int| 0 < i < gone.len() implies #[trigger] gone[i] == later.gone[i - 1]
        && next.contains_key(gone[i]) by {
        assert(next.contains_key(later.gone[i - 1]));
    }
    assert forall|k: usize| #[trigger] gone.contains(k) <==> k == id || later.gone.contains(k) by {
        if gone.contains(k) {
            let i = choose|i: int| 0 <= i < gone.len() && gone[i] == k;
            if i > 0 {
                assert(later.gone[i - 1] == k);
            }
        }
        if later.gone.contains(k) {
            let i = choose|i: int| 0 <= i < later.gone.len() && later.gone[i] == k;
            assert(gone[i + 1] == k);
        }
    }
    assert forall|i: int| 0 <= i < gone.len() implies t.contains_key(#[trigger] gone[i]) by {
        if i > 0 {
            assert(next.contains_key(gone[i]));
        }
    }
    assert forall|i: int, j: int|
        0 <= i < gone.len() && 0 <= j < gone.len() && i != j implies gone[i] != gone[j] by {
        if i > 0 && j > 0 {
            assert(later.gone[i - 1] != later.gone[j - 1]);
        } else if i > 0 {
            assert(next.contains_key(gone[i]));
        } else {
            assert(next.contains_key(gone[j]));
        }
    }
    assert forall|k: usize| #[trigger]
        later.tree.contains_key(k) <==> t.contains_key(k) && !gone.contains(k) by {
        assert(next.contains_key(k) <==> t.contains_key(k) && k != id);
    }
    assert forall|k: usize| #[trigger] later.tree.contains_key(k) implies same_but_children(
        later.tree[k],
        t[k],
    ) by {
        assert(next.contains_key(k));
    }
    assert forall|k: usize| #[trigger] gone.contains(k) implies t[k].handles == 0 by {
        if k != id {
            let i = choose|i: int| 0 <= i < later.gone.len() && later.gone[i] == k;
            assert(next.contains_key(later.gone[i]));
        }
    }
    assert forall|i: int, k: usize|
        #![trigger gone[i], t.contains_key(k)]
        0 <= i < gone.len() && t.contains_key(k) && t[k].hangs_on(gone[i]) implies exists|j: int|
        0 <= j < i && gone[j] == k by {
        if i == 0 {
            assert(children_of(t, id).contains(k));
        } else if k == id {
            assert(gone[0] == k);
        } else {
            assert(next.contains_key(k));
            assert(next[k].hangs_on(later.gone[i - 1]));
            let j = choose|j: int| 0 <= j < i - 1 && later.gone[j] == k;
            assert(gone[j + 1] == k);
        }
    }
    assert forall|i: int| 0 <= i < later.gone.len() implies t[#[trigger] later.gone[i]].resource
        == next[later.gone[i]].resource by {
        assert(next.contains_key(later.gone[i]));
    }
    lemma_teardown_same(t, next, later.gone);
    assert(gone.drop_first() =~= later.gone);
}

/// A sweep of resources that are kept alive does nothing.
pub proof fn lemma_sweep_nothing(t: Tree, todo: Seq<usize>)
    requires
        forall|i: int|
            0 <= i < todo.len() && t.contains_key(#[trigger] todo[i]) ==> t[todo[i]].handles
                + t[todo[i]].children > 0,
    ensures
        sweep(t, todo) == (Swept { tree: t, gone: seq![], calls: seq![] }),
    decreases todo.len(),
{
    if todo.len() > 0 {
        assert(todo[todo.len() - 1] == todo.last());
        let rest = todo.drop_last();
        assert forall|i: int|
            0 <= i < rest.len() && t.contains_key(#[trigger] rest[i]) implies t[rest[i]].handles
            + t[rest[i]].children > 0 by {
            assert(rest[i] == todo[i]);
        }
        lemma_sweep_nothing(t, rest);
    }
}

/// Dropping a handle to a resource that is kept alive otherwise deletes nothing.
pub proof fn lemma_release_keeps(t: Tree, id: usize)
    requires
        t.contains_key(id),
        t[id].handles > 1 || t[id].handles == 1 && t[id].children > 0,
    ensures
        release(t, id) == (Swept { tree: without_handle(t, id), gone: seq![], calls: seq![] }),
{
    lemma_sweep_nothing(without_handle(t, id), seq![id]);
}

/// Dropping a handle deletes a resource only after everything that hung on it,
/// deletes it once, and leaves a tree in which everything that a resource hangs
/// on still exists. All other handles stay.
pub proof fn law_release(t: Tree, id: usize)
    requires
        tree_wf(t),
    ensures
        tree_wf(release(t, id).tree),
        left_after(t, release(t, id).gone, release(t, id).tree),
        children_first(t, release(t, id).gone),
        release(t, id).calls == teardown(t, release(t, id).gone),
        forall|k: usize| #[trigger]
            release(t, id).tree.contains_key(k) ==> release(t, id).tree[k].handles == t[k].handles
                - (if k == id && t[id].handles > 0 {
                1int
            } else {
                0int
            }),
        forall|k: usize| #[trigger]
            release(t, id).gone.contains(k) ==> t[k].handles == (if k == id {
                1int
            } else {
                0int
            }),
{
    let r = release(t, id);
    if t.contains_key(id) && t[id].handles > 0 {
        let u = without_handle(t, id);
        lemma_released_handle(t, id);
        lemma_sweep(u, seq![id]);
        assert forall|k: usize| #[trigger] u.contains_key(k) <==> t.contains_key(k) by {}
        assert forall|i: int| 0 <= i < r.gone.len() implies t[#[trigger] r.gone[i]].resource
            == u[r.gone[i]].resource by {
            assert(u.contains_key(r.gone[i]));
        }
        lemma_teardown_same(t, u, r.gone);
        assert forall|k: usize| #[trigger] r.tree.contains_key(k) <==> t.contains_key(k)
            && !r.gone.contains(k) by {
            assert(u.contains_key(k) <==> t.contains_key(k));
        }
        assert forall|k: usize| #[trigger] r.tree.contains_key(k) implies same_but_children(
            r.tree[k],
            u[k],
        ) by {}
        assert forall|i: int| 0 <= i < r.gone.len() implies t.contains_key(#[trigger] r.gone[i]) by {
            assert(u.contains_key(r.gone[i]));
        }
        assert forall|i: int, k: usize|
            #![trigger r.gone[i], t.contains_key(k)]
            0 <= i < r.gone.len() && t.contains_key(k) && t[k].hangs_on(
                r.gone[i],
            ) implies exists|j: int| 0 <= j < i && r.gone[j] == k by {
            assert(u.contains_key(k));
            assert(u[k].hangs_on(r.gone[i]));
        }
    } else {
        assert(r.gone =~= seq![]);
        assert(teardown(t, r.gone) =~= seq![]);
    }
}

/// How far a resource is from the root.
pub open spec fn level(r: Resource) -> nat {
    match r {
        Resource::Init => 0,
        Resource::Context { .. } => 1,
        Resource::Queue { .. } => 2,
        Resource::Seg { .. } => 2,
        Resource::Peer { .. } => 2,
        Resource::Jetty { .. } => 3,
    }
}

/// The calls that delete the C objects of the resources `gone`, in their order.
pub open spec fn all_deletes(t: Tree, gone: Seq<usize>) -> Seq<Call>
    decreases gone.len(),
{
    if gone.len() == 0 {
        seq![]
    } else {
        t[gone[0]].resource.deletes() + all_deletes(t, gone.drop_first())
    }
}

/// The calls that give the memory of the resources `gone` back, the last first.
pub open spec fn all_frees(t: Tree, gone: Seq<usize>) -> Seq<Call>
    decreases gone.len(),
{
    if gone.len() == 0 {
        seq![]
    } else {
        all_frees(t, gone.drop_first()) + t[gone[0]].resource.frees()
    }
}

/// All C objects are deleted, in the order in which their resources go, before
/// any memory is given back.
pub proof fn law_memory_goes_last(t: Tree, gone: Seq<usize>)
    ensures
        teardown(t, gone) == all_deletes(t, gone) + all_frees(t, gone),
    decreases gone.len(),
{
    if gone.len() > 0 {
        law_memory_goes_last(t, gone.drop_first());
        assert(teardown(t, gone) =~= all_deletes(t, gone) + all_frees(t, gone));
    } else {
        assert(teardown(t, gone) =~= all_deletes(t, gone) + all_frees(t, gone));
    }
}

/// The calls that delete a resource give back its objects, each of them once
/// and nothing else.
pub proof fn law_deletes_match_objects(r: Resource)
    ensures
        forall|o: Object|
            r.objects().contains(o) <==> exists|i: int|
                0 <= i < r.last_calls().len() && #[trigger] r.last_calls()[i].effect()
                    == Effect::GiveBack(o),
        forall|i: int, j: int|
            0 <= i < j < r.last_calls().len() ==> #[trigger] r.last_calls()[i].effect()
                != #[trigger] r.last_calls()[j].effect(),
{
    let calls = r.last_calls();
    assert forall|o: Object| r.objects().contains(o) implies exists|i: int|
        0 <= i < calls.len() && #[trigger] calls[i].effect() == Effect::GiveBack(o) by {
        if calls[0].effect() != Effect::GiveBack(o) {
            assert(calls[1].effect() == Effect::GiveBack(o));
        }
    }
}

/// One after the other, a handle to each resource of `ids` is dropped.
pub open spec fn release_all(t: Tree, ids: Seq<usize>) -> Swept
    decreases ids.len(),
{
    if ids.len() == 0 {
        Swept { tree: t, gone: seq![], calls: seq![] }
    } else {
        let first = release(t, ids[0]);
        let later = release_all(first.tree, ids.drop_first());
        Swept {
            tree: later.tree,
            gone: first.gone + later.gone,
            calls: first.calls + later.calls,
        }
    }
}

/// How often `id` is among `ids`.
pub open spec fn times(ids: Seq<usize>, id: usize) -> nat
    decreases ids.len(),
{
    if ids.len() == 0 {
        0
    } else {
        times(ids.drop_first(), id) + if ids[0] == id {
            1nat
        } else {
            0nat
        }
    }
}

/// However many handles are dropped, and in whatever order: resources are
/// deleted once each, children before what they hang on, and the tree stays well
/// formed. As long as a resource exists, so does everything that it hangs on.
pub proof fn law_any_order_is_safe(t: Tree, ids: Seq<usize>)
    requires
        tree_wf(t),
    ensures
        tree_wf(release_all(t, ids).tree),
        left_after(t, release_all(t, ids).gone, release_all(t, ids).tree),
        children_first(t, release_all(t, ids).gone),
        forall|k: usize, used: usize|
            #![trigger release_all(t, ids).tree.contains_key(k), t[k].hangs_on(used)]
            release_all(t, ids).tree.contains_key(k) && t[k].hangs_on(used) ==> release_all(
                t,
                ids,
            ).tree.contains_key(used),
    decreases ids.len(),
{
    let all = release_all(t, ids);
    if ids.len() > 0 {
        let a = release(t, ids[0]);
        let b = release_all(a.tree, ids.drop_first());
        law_release(t, ids[0]);
        law_any_order_is_safe(a.tree, ids.drop_first());
        assert(all.gone == a.gone + b.gone);
        let n = a.gone.len();
        assert forall|i: int| 0 <= i < all.gone.len() implies all.gone[i] == if i < n {
            a.gone[i]
        } else {
            b.gone[i - n]
        } by {}
        assert forall|k: usize| #[trigger] all.gone.contains(k) <==> a.gone.contains(k)
            || b.gone.contains(k) by {
            if a.gone.contains(k) {
                let i = choose|i: int| 0 <= i < n && a.gone[i] == k;
                assert(all.gone[i] == k);
            }
            if b.gone.contains(k) {
                let i = choose|i: int| 0 <= i < b.gone.len() && b.gone[i] == k;
                assert(all.gone[n + i] == k);
            }
        }
        assert forall|i: int| 0 <= i < all.gone.len() implies t.contains_key(#[trigger] all.gone[i]) by {
            if i >= n {
                assert(a.tree.contains_key(b.gone[i - n]));
            } else {
                assert(t.contains_key(a.gone[i]));
            }
        }
        assert forall|i: int, j: int|
            0 <= i < all.gone.len() && 0 <= j < all.gone.len() && i != j implies all.gone[i]
            != all.gone[j] by {
            if i >= n {
                assert(a.tree.contains_key(b.gone[i - n]));
            } else {
                assert(a.gone.contains(a.gone[i]));
            }
            if j >= n {
                assert(a.tree.contains_key(b.gone[j - n]));
            } else {
                assert(a.gone.contains(a.gone[j]));
            }
        }
        assert forall|k: usize| #[trigger]
            all.tree.contains_key(k) <==> t.contains_key(k) && !all.gone.contains(k) by {
            assert(b.tree.contains_key(k) <==> a.tree.contains_key(k) && !b.gone.contains(k));
            assert(a.tree.contains_key(k) <==> t.contains_key(k) && !a.gone.contains(k));
            assert(all.gone.contains(k) <==> a.gone.contains(k) || b.gone.contains(k));
        }
        assert forall|k: usize| #[trigger] all.tree.contains_key(k) implies all.tree[k].resource
            == t[k].resource && all.tree[k].parent == t[k].parent && all.tree[k].context
            == t[k].context by {
            assert(b.tree.contains_key(k));
            assert(a.tree.contains_key(k));
        }
        assert forall|i: int, k: usize|
            #![trigger all.gone[i], t.contains_key(k)]
            0 <= i < all.gone.len() && t.contains_key(k) && t[k].hangs_on(
                all.gone[i],
            ) implies exists|j: int| 0 <= j < i && all.gone[j] == k by {
            if i < n {
                assert(t[k].hangs_on(a.gone[i]));
                let j = choose|j: int| 0 <= j < i && a.gone[j] == k;
                assert(all.gone[j] == k);
            } else if a.tree.contains_key(k) {
                assert(a.tree[k].hangs_on(b.gone[i - n]));
                let j = choose|j: int| 0 <= j < i - n && b.gone[j] == k;
                assert(all.gone[n + j] == k);
            } else {
                assert(a.gone.contains(k));
                let j = choose|j: int| 0 <= j < n && a.gone[j] == k;
                assert(all.gone[j] == k);
            }
        }
    } else {
        assert(all.gone =~= seq![]);
    }
    assert forall|k: usize, used: usize|
        #![trigger all.tree.contains_key(k), t[k].hangs_on(used)]
        all.tree.contains_key(k) && t[k].hangs_on(used) implies all.tree.contains_key(used) by {
        assert(well_placed(all.tree, k));
    }
}

/// Whether the call deletes a C object or the library's initialization, rather
/// than giving memory back.
pub open spec fn is_delete(c: Call) -> bool {
    !(c is Dealloc)
}

/// Among the calls of a teardown, those that delete are [`all_deletes`].
proof fn lemma_deletes_of_teardown(t: Tree, gone: Seq<usize>)
    ensures
        teardown(t, gone).filter(|c: Call| is_delete(c)) == all_deletes(t, gone),
    decreases gone.len(),
{
    let p = |c: Call| is_delete(c);
    reveal(Seq::filter);
    if gone.len() > 0 {
        let r = t[gone[0]].resource;
        let rest = teardown(t, gone.drop_first());
        lemma_deletes_of_teardown(t, gone.drop_first());
        Seq::filter_distributes_over_add(r.deletes() + rest, r.frees(), p);
        Seq::filter_distributes_over_add(r.deletes(), rest, p);
        lemma_filter_all(r.deletes(), p);
        lemma_filter_none(r.frees(), p);
        assert(teardown(t, gone).filter(p) =~= all_deletes(t, gone));
    }
}

proof fn lemma_filter_all(s: Seq<Call>, p: spec_fn(Call) -> bool)
    requires
        forall|i: int| 0 <= i < s.len() ==> p(#[trigger] s[i]),
    ensures
        s.filter(p) == s,
    decreases s.len(),
{
    reveal(Seq::filter);
    if s.len() > 0 {
        lemma_filter_all(s.drop_last(), p);
        assert(s.drop_last().push(s.last()) =~= s);
    }
}

proof fn lemma_filter_none(s: Seq<Call>, p: spec_fn(Call) -> bool)
    requires
        forall|i: int| 0 <= i < s.len() ==> !p(#[trigger] s[i]),
    ensures
        s.filter(p) == Seq::<Call>::empty(),
    decreases s.len(),
{
    reveal(Seq::filter);
    if s.len() > 0 {
        lemma_filter_none(s.drop_last(), p);
    }
}

/// Deletes depend on nothing but what the resources are, and add up.
proof fn lemma_all_deletes_join(t: Tree, u: Tree, a: Seq<usize>, b: Seq<usize>)
    requires
        forall|i: int| 0 <= i < b.len() ==> t[#[trigger] b[i]].resource == u[b[i]].resource,
    ensures
        all_deletes(t, a + b) == all_deletes(t, a) + all_deletes(u, b),
    decreases a.len() + b.len(),
{
    if a.len() > 0 {
        lemma_all_deletes_join(t, u, a.drop_first(), b);
        assert((a + b).drop_first() =~= a.drop_first() + b);
        assert(all_deletes(t, a + b) =~= all_deletes(t, a) + all_deletes(u, b));
    } else {
        assert(a + b =~= b);
        if b.len() > 0 {
            let rest = b.drop_first();
            assert forall|i: int| 0 <= i < rest.len() implies t[#[trigger] rest[i]].resource
                == u[rest[i]].resource by {
                assert(rest[i] == b[i + 1]);
            }
            lemma_all_deletes_join(t, u, a, rest);
            assert(a + rest =~= rest);
            assert(all_deletes(t, a) =~= seq![]);
            assert(all_deletes(t, rest) =~= all_deletes(u, rest));
        }
        assert(all_deletes(t, a + b) =~= all_deletes(t, a) + all_deletes(u, b));
    }
}

/// However many handles are dropped, and in whatever order: the deleting calls
/// that are made, all in all, are those of the resources that went, in the order
/// in which they went.
pub proof fn law_deletes_in_order(t: Tree, ids: Seq<usize>)
    requires
        tree_wf(t),
    ensures
        release_all(t, ids).calls.filter(|c: Call| is_delete(c)) == all_deletes(
            t,
            release_all(t, ids).gone,
        ),
    decreases ids.len(),
{
    let p = |c: Call| is_delete(c);
    reveal(Seq::filter);
    if ids.len() > 0 {
        let a = release(t, ids[0]);
        let b = release_all(a.tree, ids.drop_first());
        law_release(t, ids[0]);
        law_any_order_is_safe(a.tree, ids.drop_first());
        law_deletes_in_order(a.tree, ids.drop_first());
        lemma_deletes_of_teardown(t, a.gone);
        Seq::filter_distributes_over_add(a.calls, b.calls, p);
        assert forall|i: int| 0 <= i < b.gone.len() implies t[#[trigger] b.gone[i]].resource
            == a.tree[b.gone[i]].resource by {
            assert(a.tree.contains_key(b.gone[i]));
        }
        lemma_all_deletes_join(t, a.tree, a.gone, b.gone);
    } else {
        assert(all_deletes(t, release_all(t, ids).gone) =~= seq![]);
    }
}

/// The deleting calls that are made when handles to `ids` are dropped.
pub open spec fn deletes_made(t: Tree, ids: Seq<usize>) -> Seq<Call> {
    release_all(t, ids).calls.filter(|c: Call| is_delete(c))
}

/// Among the deletes of `gone`, those of `gone[j]` come first and those of
/// `gone[i]` later.
pub open spec fn in_turn(t: Tree, deletes: Seq<Call>, gone: Seq<usize>, j: int, i: int) -> bool {
    &&& 0 <= j < i < gone.len()
    &&& deletes == all_deletes(t, gone.take(j)) + t[gone[j]].resource.deletes() + all_deletes(
        t,
        gone.subrange(j + 1, i),
    ) + t[gone[i]].resource.deletes() + all_deletes(t, gone.skip(i + 1))
}

/// Deletes of a sequence, split at one of its resources.
proof fn lemma_all_deletes_split(t: Tree, gone: Seq<usize>, i: int)
    requires
        0 <= i < gone.len(),
    ensures
        all_deletes(t, gone) == all_deletes(t, gone.take(i)) + t[gone[i]].resource.deletes()
            + all_deletes(t, gone.skip(i + 1)),
{
    let tail = gone.skip(i);
    assert(gone =~= gone.take(i) + tail);
    lemma_all_deletes_join(t, t, gone.take(i), tail);
    assert(tail.drop_first() =~= gone.skip(i + 1));
    assert(tail[0] == gone[i]);
    assert(all_deletes(t, gone) =~= all_deletes(t, gone.take(i)) + t[gone[i]].resource.deletes()
        + all_deletes(t, gone.skip(i + 1)));
}

/// However many handles are dropped, and in whatever order: when a resource is
/// deleted, every resource that hangs on it has been deleted before. So a context
/// is deleted after everything that was created on it, jettys among it, and
/// before the library is uninitialized.
pub proof fn law_used_outlives_user(t: Tree, ids: Seq<usize>, used: usize, user: usize)
    requires
        tree_wf(t),
        t.contains_key(user),
        t[user].hangs_on(used),
        release_all(t, ids).gone.contains(used),
    ensures
        release_all(t, ids).gone.no_duplicates(),
        exists|j: int, i: int|
            #![trigger release_all(t, ids).gone[j], release_all(t, ids).gone[i]]
            {
                &&& in_turn(t, deletes_made(t, ids), release_all(t, ids).gone, j, i)
                &&& release_all(t, ids).gone[j] == user
                &&& release_all(t, ids).gone[i] == used
            },
{
    let gone = release_all(t, ids).gone;
    law_any_order_is_safe(t, ids);
    law_deletes_in_order(t, ids);
    let i = choose|i: int| 0 <= i < gone.len() && gone[i] == used;
    assert(t[user].hangs_on(gone[i]));
    let j = choose|j: int| 0 <= j < i && gone[j] == user;
    let head = gone.take(i);
    lemma_all_deletes_split(t, gone, i);
    lemma_all_deletes_split(t, head, j);
    assert(head.take(j) =~= gone.take(j));
    assert(head.skip(j + 1) =~= gone.subrange(j + 1, i));
    assert(in_turn(t, deletes_made(t, ids), gone, j, i));
    assert(gone[j] == user && gone[i] == used);
}

/// Where a context is deleted, a resource that is that context went.
proof fn lemma_delete_context(t: Tree, gone: Seq<usize>, ctx: urma_context_t, n: int)
    requires
        0 <= n < all_deletes(t, gone).len(),
        all_deletes(t, gone)[n] == (Call::DeleteContext { ctx }),
    ensures
        exists|i: int|
            0 <= i < gone.len() && t[#[trigger] gone[i]].resource == (Resource::Context { ctx }),
    decreases gone.len(),
{
    let first = t[gone[0]].resource.deletes();
    let rest = gone.drop_first();
    if n < first.len() {
        assert(first[n] == all_deletes(t, gone)[n]);
        assert(t[gone[0]].resource == (Resource::Context { ctx }));
    } else {
        assert(all_deletes(t, rest)[n - first.len()] == all_deletes(t, gone)[n]);
        lemma_delete_context(t, rest, ctx, n - first.len());
        let i = choose|i: int|
            0 <= i < rest.len() && t[#[trigger] rest[i]].resource == (Resource::Context { ctx });
        assert(gone[i + 1] == rest[i]);
    }
}

/// However many handles are dropped, and in whatever order: a context that no
/// other one shares its address with is deleted by one call, and by then every
/// deleting call of every resource created on it has been made.
pub proof fn law_context_is_deleted_once(t: Tree, ids: Seq<usize>, c: usize, ctx: urma_context_t)
    requires
        tree_wf(t),
        t.contains_key(c),
        t[c].resource == (Resource::Context { ctx }),
        forall|k: usize| #[trigger]
            t.contains_key(k) && t[k].resource == (Resource::Context { ctx }) ==> k == c,
        release_all(t, ids).gone.contains(c),
    ensures
        exists|n: int|
            {
                &&& 0 <= n < deletes_made(t, ids).len()
                &&& #[trigger] deletes_made(t, ids)[n] == (Call::DeleteContext { ctx })
                &&& forall|m: int|
                    0 <= m < deletes_made(t, ids).len() && m != n ==> #[trigger] deletes_made(
                        t,
                        ids,
                    )[m] != (Call::DeleteContext { ctx })
                &&& forall|user: usize, d: int|
                    #![trigger t.contains_key(user), t[user].resource.deletes()[d]]
                    t.contains_key(user) && t[user].hangs_on(c) && 0 <= d
                        < t[user].resource.deletes().len() ==> deletes_made(t, ids).take(
                        n,
                    ).contains(t[user].resource.deletes()[d])
            },
{
    let gone = release_all(t, ids).gone;
    let made = deletes_made(t, ids);
    law_any_order_is_safe(t, ids);
    law_deletes_in_order(t, ids);
    let i = choose|i: int| 0 <= i < gone.len() && gone[i] == c;
    let head = all_deletes(t, gone.take(i));
    let tail = all_deletes(t, gone.skip(i + 1));
    lemma_all_deletes_split(t, gone, i);
    let n = head.len() as int;
    assert(made == head + seq![Call::DeleteContext { ctx }] + tail);
    assert(made[n] == (Call::DeleteContext { ctx }));
    assert forall|m: int| 0 <= m < made.len() && m != n implies #[trigger] made[m] != (
    Call::DeleteContext { ctx }) by {
        if made[m] == (Call::DeleteContext { ctx }) {
            if m < n {
                assert(head[m] == made[m]);
                lemma_delete_context(t, gone.take(i), ctx, m);
                let k = choose|k: int|
                    0 <= k < gone.take(i).len() && t[#[trigger] gone.take(i)[k]].resource == (
                    Resource::Context { ctx });
                assert(t.contains_key(gone[k]));
                assert(gone[k] == gone[i]);
            } else {
                assert(tail[m - n - 1] == made[m]);
                lemma_delete_context(t, gone.skip(i + 1), ctx, m - n - 1);
                let k = choose|k: int|
                    0 <= k < gone.skip(i + 1).len() && t[#[trigger] gone.skip(i + 1)[k]].resource
                        == (Resource::Context { ctx });
                assert(gone.skip(i + 1)[k] == gone[i + 1 + k]);
                assert(t.contains_key(gone[i + 1 + k]));
                assert(gone[i + 1 + k] == gone[i]);
            }
        }
    }
    assert(made.take(n) =~= head);
    assert forall|user: usize, d: int|
        #![trigger t.contains_key(user), t[user].resource.deletes()[d]]
        t.contains_key(user) && t[user].hangs_on(c) && 0 <= d
            < t[user].resource.deletes().len() implies made.take(n).contains(
        t[user].resource.deletes()[d],
    ) by {
        assert(t[user].hangs_on(gone[i]));
        let j = choose|j: int| 0 <= j < i && gone[j] == user;
        assert(gone.take(i)[j] == user);
        lemma_all_deletes_split(t, gone.take(i), j);
        let before = all_deletes(t, gone.take(i).take(j));
        assert(head[before.len() + d] == t[user].resource.deletes()[d]);
    }
}

/// How often the call is made.
pub open spec fn times_made(calls: Seq<Call>, c: Call) -> nat
    decreases calls.len(),
{
    if calls.len() == 0 {
        0
    } else {
        times_made(calls.drop_last(), c) + if calls.last() == c {
            1nat
        } else {
            0nat
        }
    }
}

/// How often the call is among the last calls of the resources `gone`.
pub open spec fn times_due(t: Tree, gone: Seq<usize>, c: Call) -> nat
    decreases gone.len(),
{
    if gone.len() == 0 {
        0
    } else {
        times_made(t[gone[0]].resource.last_calls(), c) + times_due(t, gone.drop_first(), c)
    }
}

proof fn lemma_made_join(a: Seq<Call>, b: Seq<Call>, c: Call)
    ensures
        times_made(a + b, c) == times_made(a, c) + times_made(b, c),
    decreases b.len(),
{
    if b.len() > 0 {
        lemma_made_join(a, b.drop_last(), c);
        assert((a + b).drop_last() =~= a + b.drop_last());
    } else {
        assert(a + b =~= a);
    }
}

/// A call is made if and only if it is among the calls.
pub proof fn lemma_made(calls: Seq<Call>, c: Call)
    ensures
        times_made(calls, c) > 0 <==> calls.contains(c),
    decreases calls.len(),
{
    if calls.len() > 0 {
        let rest = calls.drop_last();
        lemma_made(rest, c);
        if calls.contains(c) && calls.last() != c {
            let i = choose|i: int| 0 <= i < calls.len() && calls[i] == c;
            assert(rest[i] == c);
        }
        if rest.contains(c) {
            let i = choose|i: int| 0 <= i < rest.len() && rest[i] == c;
            assert(calls[i] == c);
        }
        assert(calls[calls.len() - 1] == calls.last());
    }
}

/// A resource has no two last calls that are the same.
proof fn lemma_last_calls_differ(r: Resource, c: Call)
    ensures
        times_made(r.last_calls(), c) <= 1,
{
    reveal_with_fuel(times_made, 4);
}

/// The calls of a teardown are the last calls of what it deletes.
proof fn lemma_made_by_teardown(t: Tree, gone: Seq<usize>, c: Call)
    ensures
        times_made(teardown(t, gone), c) == times_due(t, gone, c),
    decreases gone.len(),
{
    if gone.len() > 0 {
        let r = t[gone[0]].resource;
        let rest = teardown(t, gone.drop_first());
        lemma_made_by_teardown(t, gone.drop_first(), c);
        lemma_made_join(r.deletes() + rest, r.frees(), c);
        lemma_made_join(r.deletes(), rest, c);
        lemma_made_join(r.deletes(), r.frees(), c);
    }
}

proof fn lemma_due_join(t: Tree, u: Tree, a: Seq<usize>, b: Seq<usize>, c: Call)
    requires
        forall|i: int| 0 <= i < b.len() ==> t[#[trigger] b[i]].resource == u[b[i]].resource,
    ensures
        times_due(t, a + b, c) == times_due(t, a, c) + times_due(u, b, c),
    decreases a.len() + b.len(),
{
    if a.len() > 0 {
        lemma_due_join(t, u, a.drop_first(), b, c);
        assert((a + b).drop_first() =~= a.drop_first() + b);
    } else {
        assert(a + b =~= b);
        if b.len() > 0 {
            let rest = b.drop_first();
            assert forall|i: int| 0 <= i < rest.len() implies t[#[trigger] rest[i]].resource
                == u[rest[i]].resource by {
                assert(rest[i] == b[i + 1]);
            }
            lemma_due_join(t, u, a, rest, c);
            assert(a + rest =~= rest);
        }
    }
}

/// What one resource alone has among its last calls is due if it goes.
proof fn lemma_due_to_one(t: Tree, gone: Seq<usize>, id: usize, c: Call)
    requires
        gone.no_duplicates(),
        forall|i: int|
            0 <= i < gone.len() && #[trigger] gone[i] != id ==> !t[gone[i]].resource.last_calls().contains(
                c,
            ),
    ensures
        times_due(t, gone, c) == if gone.contains(id) {
            times_made(t[id].resource.last_calls(), c)
        } else {
            0
        },
    decreases gone.len(),
{
    if gone.len() > 0 {
        let rest = gone.drop_first();
        assert forall|i: int| 0 <= i < rest.len() && #[trigger] rest[i]
            != id implies !t[rest[i]].resource.last_calls().contains(c) by {
            assert(rest[i] == gone[i + 1]);
        }
        lemma_due_to_one(t, rest, id, c);
        lemma_made(t[gone[0]].resource.last_calls(), c);
        if rest.contains(id) {
            let i = choose|i: int| 0 <= i < rest.len() && rest[i] == id;
            assert(gone[i + 1] == id);
            assert(gone[0] != gone[i + 1]);
        }
        if gone.contains(id) && gone[0] != id {
            let i = choose|i: int| 0 <= i < gone.len() && gone[i] == id;
            assert(rest[i - 1] == id);
        }
        assert(gone[0] == id ==> gone.contains(id));
    }
}

/// The calls that are made when handles are dropped are the last calls of the
/// resources that go.
proof fn lemma_made_by_release_all(t: Tree, ids: Seq<usize>, c: Call)
    requires
        tree_wf(t),
    ensures
        times_made(release_all(t, ids).calls, c) == times_due(t, release_all(t, ids).gone, c),
    decreases ids.len(),
{
    if ids.len() > 0 {
        let a = release(t, ids[0]);
        let b = release_all(a.tree, ids.drop_first());
        law_release(t, ids[0]);
        law_any_order_is_safe(a.tree, ids.drop_first());
        lemma_made_by_release_all(a.tree, ids.drop_first(), c);
        lemma_made_by_teardown(t, a.gone, c);
        lemma_made_join(a.calls, b.calls, c);
        assert forall|i: int| 0 <= i < b.gone.len() implies t[#[trigger] b.gone[i]].resource
            == a.tree[b.gone[i]].resource by {
            assert(a.tree.contains_key(b.gone[i]));
        }
        lemma_due_join(t, a.tree, a.gone, b.gone, c);
    }
}

/// However many handles are dropped, and in whatever order: each call that is due
/// when a resource goes is made once if the resource went, and not at all if it
/// did not. (A call that two resources have in common, because the library gave
/// them one address, is left out.)
pub proof fn law_each_call_is_made_once(t: Tree, ids: Seq<usize>, id: usize, c: Call)
    requires
        tree_wf(t),
        t.contains_key(id),
        t[id].resource.last_calls().contains(c),
        forall|k: usize| #[trigger]
            t.contains_key(k) && k != id ==> !t[k].resource.last_calls().contains(c),
    ensures
        times_made(release_all(t, ids).calls, c) == if release_all(t, ids).gone.contains(id) {
            1nat
        } else {
            0nat
        },
{
    let gone = release_all(t, ids).gone;
    law_any_order_is_safe(t, ids);
    lemma_made_by_release_all(t, ids, c);
    assert forall|i: int|
        0 <= i < gone.len() && #[trigger] gone[i] != id implies !t[gone[i]].resource.last_calls().contains(
        c,
    ) by {
        assert(t.contains_key(gone[i]));
    }
    lemma_due_to_one(t, gone, id, c);
    lemma_last_calls_differ(t[id].resource, c);
    lemma_made(t[id].resource.last_calls(), c);
}

/// Nothing but an initialization has `urma_uninit` among its last calls.
proof fn lemma_uninit(r: Resource)
    ensures
        r.last_calls().contains(Call::Uninit) <==> r is Init,
{
    let calls = r.last_calls();
    if r is Init {
        assert(calls[0] == Call::Uninit);
    }
}

/// As long as more handles to a resource exist than are dropped, it stays.
proof fn lemma_stays(t: Tree, ids: Seq<usize>, id: usize)
    requires
        tree_wf(t),
        t.contains_key(id),
        times(ids, id) < t[id].handles,
    ensures
        !release_all(t, ids).gone.contains(id),
    decreases ids.len(),
{
    if ids.len() > 0 {
        let a = release(t, ids[0]);
        let b = release_all(a.tree, ids.drop_first());
        law_release(t, ids[0]);
        assert(!a.gone.contains(id));
        assert(a.tree.contains_key(id));
        lemma_stays(a.tree, ids.drop_first(), id);
        let all = a.gone + b.gone;
        if all.contains(id) {
            let i = choose|i: int| 0 <= i < all.len() && all[i] == id;
            if i < a.gone.len() {
                assert(a.gone[i] == id);
            } else {
                assert(b.gone[i - a.gone.len()] == id);
            }
        }
    }
}

/// Everything that exists goes before the initialization does.
proof fn lemma_before_the_root(t: Tree, gone: Seq<usize>, r: int, id: usize)
    requires
        tree_wf(t),
        one_init(t),
        children_first(t, gone),
        0 <= r < gone.len(),
        t.contains_key(gone[r]),
        t[gone[r]].resource is Init,
        t.contains_key(id),
        id != gone[r],
    ensures
        exists|j: int| 0 <= j < r && #[trigger] gone[j] == id,
    decreases level(t[id].resource),
{
    assert(well_placed(t, id));
    if let Some(p) = t[id].parent {
        if p != gone[r] {
            lemma_before_the_root(t, gone, r, p);
            let j = choose|j: int| 0 <= j < r && #[trigger] gone[j] == p;
            assert(t[id].hangs_on(gone[j]));
        } else {
            assert(t[id].hangs_on(gone[r]));
        }
    }
}

/// However many handles are dropped, and in whatever order: `urma_uninit` is
/// called once if the initialization goes, and then it is the last of the
/// deleting calls; it is not called at all if the initialization stays. It stays
/// as long as a handle to it is left, such as the one that the thread keeps.
pub proof fn law_uninit_comes_once(t: Tree, ids: Seq<usize>, root: usize)
    requires
        tree_wf(t),
        one_init(t),
        t.contains_key(root),
        t[root].resource is Init,
    ensures
        times_made(release_all(t, ids).calls, Call::Uninit) == if release_all(
            t,
            ids,
        ).gone.contains(root) {
            1nat
        } else {
            0nat
        },
        release_all(t, ids).gone.contains(root) ==> deletes_made(t, ids).len() > 0 && deletes_made(
            t,
            ids,
        ).last() == Call::Uninit,
        times(ids, root) < t[root].handles ==> !release_all(t, ids).gone.contains(root),
{
    let gone = release_all(t, ids).gone;
    lemma_uninit(t[root].resource);
    assert forall|k: usize| #[trigger]
        t.contains_key(k) && k != root implies !t[k].resource.last_calls().contains(
        Call::Uninit,
    ) by {
        lemma_uninit(t[k].resource);
    }
    law_each_call_is_made_once(t, ids, root, Call::Uninit);
    if times(ids, root) < t[root].handles {
        lemma_stays(t, ids, root);
    }
    if gone.contains(root) {
        law_any_order_is_safe(t, ids);
        law_deletes_in_order(t, ids);
        let r = choose|r: int| 0 <= r < gone.len() && gone[r] == root;
        if r < gone.len() - 1 {
            let next = gone[r + 1];
            assert(t.contains_key(gone[r + 1]));
            lemma_before_the_root(t, gone, r, next);
            let j = choose|j: int| 0 <= j < r && #[trigger] gone[j] == next;
            assert(gone[j] != gone[r + 1]);
        }
        lemma_all_deletes_split(t, gone, r);
        assert(gone.skip(r + 1) =~= seq![]);
        assert(all_deletes(t, gone.skip(r + 1)) =~= seq![]);
    }
}

/// The same of dropping one handle: `urma_uninit` is called if and only if the
/// initialization goes, and once.
pub proof fn lemma_release_uninit(t: Tree, id: usize, root: usize)
    requires
        tree_wf(t),
        one_init(t),
        t.contains_key(root),
        t[root].resource is Init,
    ensures
        one_init(release(t, id).tree),
        times_made(release(t, id).calls, Call::Uninit) == if release(t, id).tree.contains_key(
            root,
        ) {
            0nat
        } else {
            1nat
        },
{
    let one = seq![id];
    law_release(t, id);
    law_uninit_comes_once(t, one, root);
    assert(one.drop_first() =~= seq![]);
    let rest = release_all(release(t, id).tree, one.drop_first());
    assert(release_all(t, one).calls =~= release(t, id).calls);
    assert(release_all(t, one).gone =~= release(t, id).gone);
}

/// Dropping a handle never initializes the library.
pub proof fn lemma_no_init_made(t: Tree, id: usize, c: Call)
    requires
        tree_wf(t),
        release(t, id).calls.contains(c),
    ensures
        !(c is Init),
{
    law_release(t, id);
    lemma_no_init_in_teardown(t, release(t, id).gone, c);
}

proof fn lemma_no_init_in_teardown(t: Tree, gone: Seq<usize>, c: Call)
    requires
        teardown(t, gone).contains(c),
    ensures
        !(c is Init),
    decreases gone.len(),
{
    let calls = teardown(t, gone);
    let i = choose|i: int| 0 <= i < calls.len() && calls[i] == c;
    if gone.len() > 0 {
        let rest = teardown(t, gone.drop_first());
        let start = t[gone[0]].resource.deletes().len();
        if start <= i < start + rest.len() {
            assert(rest[i - start] == c);
            lemma_no_init_in_teardown(t, gone.drop_first(), c);
        }
    }
}

/// Whether the library is initialized, as a number.
pub open spec fn inits_in(t: Tree) -> nat {
    if no_init(t) {
        0
    } else {
        1
    }
}

/// Dropping a handle calls `urma_uninit` once if that ends the initialization, and
/// not at all otherwise.
pub proof fn law_release_counts_inits(t: Tree, id: usize)
    requires
        tree_wf(t),
        one_init(t),
    ensures
        one_init(release(t, id).tree),
        times_made(release(t, id).calls, Call::Uninit) + inits_in(release(t, id).tree) == inits_in(t),
{
    let r = release(t, id);
    law_release(t, id);
    if no_init(t) {
        assert forall|i: int|
            0 <= i < r.gone.len() && #[trigger] r.gone[i]
                != id implies !t[r.gone[i]].resource.last_calls().contains(Call::Uninit) by {
            assert(t.contains_key(r.gone[i]));
            lemma_uninit(t[r.gone[i]].resource);
        }
        lemma_made_by_teardown(t, r.gone, Call::Uninit);
        lemma_due_to_one(t, r.gone, id, Call::Uninit);
        if r.gone.contains(id) {
            assert(t.contains_key(id));
            lemma_uninit(t[id].resource);
            lemma_made(t[id].resource.last_calls(), Call::Uninit);
        }
        assert forall|k: usize| #[trigger] r.tree.contains_key(k) implies !(
        r.tree[k].resource is Init) by {
            assert(t.contains_key(k));
        }
    } else {
        let root = choose|k: usize| #[trigger] t.contains_key(k) && t[k].resource is Init;
        lemma_release_uninit(t, id, root);
        if !r.tree.contains_key(root) {
            assert forall|k: usize| #[trigger] r.tree.contains_key(k) implies !(
            r.tree[k].resource is Init) by {
                assert(t.contains_key(k));
            }
        }
    }
}

/// A new resource that is no initialization leaves it at that.
pub proof fn lemma_adopted_inits(
    t: Tree,
    id: usize,
    parent: usize,
    context: Option<usize>,
    resource: Resource,
)
    requires
        !t.contains_key(id),
        t.contains_key(parent),
        context matches Some(c) ==> t.contains_key(c),
        !(resource is Init),
    ensures
        no_init(adopted(t, id, parent, context, resource)) == no_init(t),
{
    let u = adopted(t, id, parent, context, resource);
    assert forall|k: usize| #[trigger] t.contains_key(k) implies u.contains_key(k)
        && u[k].resource == t[k].resource by {}
    assert forall|k: usize| #[trigger] u.contains_key(k) && k != id implies t.contains_key(k)
        && u[k].resource == t[k].resource by {}
}

/// Counting the handles to a resource anew leaves it at that.
pub proof fn lemma_recounted_inits(t: Tree, id: usize, node: Node)
    requires
        t.contains_key(id),
        node.resource == t[id].resource,
    ensures
        no_init(t.insert(id, node)) == no_init(t),
{
    let u = t.insert(id, node);
    assert forall|k: usize| #[trigger] t.contains_key(k) implies u.contains_key(k)
        && u[k].resource == t[k].resource by {}
    assert forall|k: usize| #[trigger] u.contains_key(k) implies t.contains_key(k)
        && u[k].resource == t[k].resource by {}
}

/// Where a resource exists, a handle to it or to something below it exists.
proof fn lemma_something_holds_it(t: Tree, id: usize)
    requires
        tree_wf(t),
        t.contains_key(id),
    ensures
        exists|k: usize| #[trigger] t.contains_key(k) && t[k].handles > 0,
    decreases 4 - level(t[id].resource),
{
    if t[id].handles == 0 {
        let below = children_of(t, id);
        vstd::set_lib::lemma_set_subset_finite(t.dom(), below);
        assert(below.len() > 0);
        let k = below.choose();
        vstd::set::axiom_set_choose_len(below);
        assert(below.contains(k));
        assert(well_placed(t, k));
        lemma_something_holds_it(t, k);
    }
}

/// The handles that are left are those that were there, less those dropped.
proof fn lemma_handles_left(t: Tree, ids: Seq<usize>)
    requires
        tree_wf(t),
        forall|k: usize| times(ids, k) <= if t.contains_key(k) { t[k].handles as nat } else { 0nat },
    ensures
        forall|k: usize| #[trigger]
            release_all(t, ids).tree.contains_key(k) ==> release_all(t, ids).tree[k].handles
                == t[k].handles - times(ids, k),
    decreases ids.len(),
{
    if ids.len() > 0 {
        let a = release(t, ids[0]);
        let rest = ids.drop_first();
        law_release(t, ids[0]);
        assert(times(ids, ids[0]) > 0);
        assert forall|k: usize| times(rest, k) <= if a.tree.contains_key(k) {
            a.tree[k].handles as nat
        } else {
            0nat
        } by {
            assert(times(ids, k) <= if t.contains_key(k) { t[k].handles as nat } else { 0nat });
            assert(a.tree.contains_key(k) <==> t.contains_key(k) && !a.gone.contains(k));
        }
        lemma_handles_left(a.tree, rest);
        law_any_order_is_safe(a.tree, rest);
        let all = release_all(t, ids);
        assert forall|k: usize| #[trigger] all.tree.contains_key(k) implies all.tree[k].handles
            == t[k].handles - times(ids, k) by {
            assert(release_all(a.tree, rest).tree.contains_key(k));
            assert(a.tree.contains_key(k));
        }
    }
}

/// When every handle has been dropped, in whatever order, every resource has
/// been deleted, once, and children before their parents: nothing leaks and
/// nothing is used after its parent.
pub proof fn law_everything_is_deleted(t: Tree, ids: Seq<usize>)
    requires
        tree_wf(t),
        forall|k: usize| #[trigger]
            times(ids, k) == if t.contains_key(k) {
                t[k].handles as nat
            } else {
                0nat
            },
    ensures
        release_all(t, ids).tree == Map::<usize, Node>::empty(),
        release_all(t, ids).gone.to_set() == t.dom(),
        release_all(t, ids).gone.no_duplicates(),
        children_first(t, release_all(t, ids).gone),
{
    let all = release_all(t, ids);
    law_any_order_is_safe(t, ids);
    lemma_handles_left(t, ids);
    if exists|id: usize| all.tree.contains_key(id) {
        let id = choose|id: usize| all.tree.contains_key(id);
        lemma_something_holds_it(all.tree, id);
        let k = choose|k: usize| #[trigger] all.tree.contains_key(k) && all.tree[k].handles > 0;
        assert(all.tree[k].handles == t[k].handles - times(ids, k));
        assert(t.contains_key(k));
        assert(false);
    }
    assert(all.tree =~= Map::<usize, Node>::empty());
    assert forall|k: usize| all.gone.to_set().contains(k) <==> t.dom().contains(k) by {
        assert(all.tree.contains_key(k) <==> t.contains_key(k) && !all.gone.contains(k));
        if all.gone.contains(k) {
            let i = choose|i: int| 0 <= i < all.gone.len() && all.gone[i] == k;
            assert(t.contains_key(all.gone[i]));
        }
    }
    assert(all.gone.to_set() =~= t.dom());
}

/// When the last handle to a registered buffer is dropped, the segment is
/// unregistered first of all and the memory is given back last of all.
pub proof fn law_memory_outlives_registration(t: Tree, id: usize)
    requires
        tree_wf(t),
        t.contains_key(id),
        t[id].handles == 1,
        t[id].children == 0,
        t[id].resource matches Resource::Seg { page: Some(_), .. },
    ensures
        t[id].resource matches Resource::Seg { tseg, page: Some(page) } && {
            let calls = release(t, id).calls;
            &&& calls.len() >= 2
            &&& calls.first() == Call::UnregisterSeg { tseg }
            &&& calls.last() == Call::Dealloc {
                addr: page.addr,
                size: page.size,
                align: PAGE_SIZE,
            }
        },
{
    law_release(t, id);
}

/// Dropping a duplicated handle undoes the duplication and deletes nothing.
pub proof fn law_release_undoes_dup(t: Tree, id: usize)
    requires
        tree_wf(t),
        t.contains_key(id),
        t[id].handles < usize::MAX,
    ensures
        release(with_handle(t, id), id).tree == t,
        release(with_handle(t, id), id).calls == Seq::<Call>::empty(),
{
    assert(t[id].handles + t[id].children > 0);
    lemma_release_keeps(with_handle(t, id), id);
    assert(without_handle(with_handle(t, id), id) =~= t);
}

/// Dropping the one handle to a resource that was just created undoes the
/// creation: its own C objects are deleted, and nothing else.
pub proof fn law_release_undoes_creation(
    t: Tree,
    id: usize,
    parent: usize,
    context: Option<usize>,
    resource: Resource,
)
    requires
        tree_wf(t),
        !t.contains_key(id),
        may_hang(t, resource, Some(parent), context),
        t[parent].children < usize::MAX,
        context matches Some(c) ==> t[c].children < usize::MAX,
    ensures
        release(adopted(t, id, parent, context, resource), id).tree == t,
        release(adopted(t, id, parent, context, resource), id).calls == resource.deletes()
            + resource.frees(),
{
    let u = adopted(t, id, parent, context, resource);
    let v = without_handle(u, id);
    lemma_adopted(t, id, parent, context, resource);
    lemma_released_handle(u, id);
    assert(seq![id].drop_last() =~= seq![]);
    assert(cut(v, id) =~= t);
    let onto = v[id].onto(seq![]);
    assert forall|i: int| 0 <= i < onto.len() implies t.contains_key(#[trigger] onto[i])
        && t[onto[i]].handles + t[onto[i]].children > 0 by {
        lemma_onto(v[id], seq![], onto[i]);
        assert(onto.contains(onto[i]));
        assert(v[id].hangs_on(onto[i]));
    }
    lemma_sweep_nothing(t, onto);
    assert(sweep(v, seq![id]).calls =~= resource.deletes() + resource.frees());
}

/// Nothing hangs on itself, and the context of a jetty is not its parent.
pub proof fn lemma_not_own_parent(t: Tree, id: usize)
    requires
        tree_wf(t),
        t.contains_key(id),
    ensures
        !t[id].hangs_on(id),
        t[id].context is Some ==> t[id].context != t[id].parent,
{
    assert(well_placed(t, id));
}

/// The tree with one more child of `id`, if there is such a resource.
pub open spec fn with_child(t: Tree, id: Option<usize>) -> Tree {
    match id {
        Some(k) => t.insert(k, Node { children: (t[k].children + 1) as usize, ..t[k] }),
        None => t,
    }
}

/// The tree with a new resource `id` below `parent` and on `context`, and one
/// handle to it.
pub open spec fn adopted(
    t: Tree,
    id: usize,
    parent: usize,
    context: Option<usize>,
    resource: Resource,
) -> Tree {
    with_child(with_child(t, Some(parent)), context).insert(
        id,
        Node { resource, parent: Some(parent), context, handles: 1, children: 0 },
    )
}

/// The tree with another handle to `id`.
pub open spec fn with_handle(t: Tree, id: usize) -> Tree {
    t.insert(id, Node { handles: (t[id].handles + 1) as usize, ..t[id] })
}

/// A new resource that may hang where it does keeps the tree well formed.
pub proof fn lemma_adopted(
    t: Tree,
    id: usize,
    parent: usize,
    context: Option<usize>,
    resource: Resource,
)
    requires
        tree_wf(t),
        !t.contains_key(id),
        may_hang(t, resource, Some(parent), context),
        t[parent].children < usize::MAX,
        context matches Some(c) ==> t[c].children < usize::MAX,
    ensures
        tree_wf(adopted(t, id, parent, context, resource)),
{
    let u = adopted(t, id, parent, context, resource);
    assert(u.dom() =~= t.dom().insert(id));
    assert forall|j: usize| #[trigger] t.contains_key(j) implies !t[j].hangs_on(id) by {
        assert(well_placed(t, j));
    }
    assert forall|k: usize| #[trigger] u.contains_key(k) implies {
        &&& well_placed(u, k)
        &&& u[k].children == children_of(u, k).len()
        &&& u[k].handles + u[k].children > 0
    } by {
        if k == id {
            assert forall|j: usize| !children_of(u, id).contains(j) by {
                if children_of(u, id).contains(j) && j != id {
                    assert(t.contains_key(j));
                }
            }
            assert(children_of(u, id) =~= Set::<usize>::empty());
        } else {
            assert(t.contains_key(k));
            assert(well_placed(t, k));
            vstd::set_lib::lemma_set_subset_finite(t.dom(), children_of(t, k));
            if u[id].hangs_on(k) {
                assert(children_of(u, k) =~= children_of(t, k).insert(id));
                assert(!children_of(t, k).contains(id));
            } else {
                assert(children_of(u, k) =~= children_of(t, k));
            }
        }
    }
}

/// A new initialization keeps the tree well formed.
pub proof fn lemma_root_added(t: Tree, id: usize, node: Node)
    requires
        tree_wf(t),
        !t.contains_key(id),
        node.parent is None,
        node.context is None,
        node.resource is Init,
        node.handles > 0,
        node.children == 0,
    ensures
        tree_wf(t.insert(id, node)),
{
    let u = t.insert(id, node);
    assert(u.dom() =~= t.dom().insert(id));
    assert forall|k: usize| #[trigger] u.contains_key(k) implies {
        &&& well_placed(u, k)
        &&& u[k].children == children_of(u, k).len()
        &&& u[k].handles + u[k].children > 0
    } by {
        if k == id {
            assert forall|j: usize| !children_of(u, id).contains(j) by {
                if children_of(u, id).contains(j) && j != id {
                    assert(t.contains_key(j));
                    assert(well_placed(t, j));
                }
            }
            assert(children_of(u, id) =~= Set::<usize>::empty());
        } else {
            assert(t.contains_key(k));
            assert(well_placed(t, k));
            assert(children_of(u, k) =~= children_of(t, k));
        }
    }
}

/// One more handle keeps the tree well formed.
pub proof fn lemma_retained(t: Tree, id: usize)
    requires
        tree_wf(t),
        t.contains_key(id),
        t[id].handles < usize::MAX,
    ensures
        tree_wf(with_handle(t, id)),
{
    let u = with_handle(t, id);
    assert(u.dom() =~= t.dom());
    lemma_children_recounted(t, id, u[id]);
    assert forall|k: usize| #[trigger] u.contains_key(k) implies {
        &&& well_placed(u, k)
        &&& u[k].children == children_of(u, k).len()
        &&& u[k].handles + u[k].children > 0
    } by {
        assert(t.contains_key(k));
    }
}

/// One handle less leaves the tree right, but for what keeps `id` alive.
pub proof fn lemma_released_handle(t: Tree, id: usize)
    requires
        tree_wf(t),
        t.contains_key(id),
        t[id].handles > 0,
    ensures
        tree_wf_but(without_handle(t, id), seq![id]),
{
    let u = without_handle(t, id);
    lemma_children_recounted(t, id, u[id]);
    assert(u.dom() =~= t.dom());
    assert forall|k: usize| #[trigger] u.contains_key(k) implies {
        &&& well_placed(u, k)
        &&& u[k].children == children_of(u, k).len()
        &&& !seq![id].contains(k) ==> u[k].handles + u[k].children > 0
    } by {
        assert(t.contains_key(k));
        assert(seq![id][0] == id);
    }
}

} // verus!
