//! Dropping handles.

use vstd::prelude::*;

use crate::call::Call;
use crate::laws;
use crate::session::Session;
use crate::tree;
use crate::tree::{Resource, Tree, PAGE_SIZE};

verus! {

/// What has to be called when a resource goes, in this order: each of its C objects
/// is deleted, the one that was made last first, and memory comes at the end, as it
/// was allocated.
pub open spec fn due(resource: Resource) -> Seq<Call> {
    match resource {
        Resource::Init => seq![Call::Uninit],
        Resource::Context { ctx } => seq![Call::DeleteContext { ctx }],
        Resource::Queue { jfce, jfc } => seq![
            Call::DeleteJfc { jfc },
            Call::DeleteJfce { jfce },
        ],
        Resource::Jetty { jfr, jetty } => seq![
            Call::DeleteJetty { jetty },
            Call::DeleteJfr { jfr },
        ],
        Resource::Seg { tseg, page: None } => seq![Call::UnregisterSeg { tseg }],
        Resource::Seg { tseg, page: Some(page) } => seq![
            Call::UnregisterSeg { tseg },
            Call::Dealloc { addr: page.addr, size: page.size, align: PAGE_SIZE },
        ],
        Resource::Peer { tseg, tjetty } => seq![
            Call::UnimportJetty { tjetty },
            Call::UnimportSeg { tseg },
        ],
    }
}

proof fn lemma_due(resource: Resource)
    ensures
        resource.deletes() + resource.frees() == due(resource),
{
    assert(resource.deletes() + resource.frees() =~= due(resource));
}

/// How many handles the thread itself keeps to a resource.
pub open spec fn kept_by_thread(session: Session, id: usize) -> int {
    if session.cached() == Some(id) {
        1
    } else {
        0
    }
}

/// A handle that does not exist cannot be dropped: nothing happens.
pub proof fn law_no_handle_no_drop(session: &mut Session, id: usize, calls: Vec<Call>)
    requires
        old(session).wf(),
        call_ensures(Session::release, (session, id), calls),
        !old(session).tree().contains_key(id) || old(session).tree()[id].handles
            <= kept_by_thread(*old(session), id),
    ensures
        calls@.len() == 0,
        final(session).tree() == old(session).tree(),
        final(session).cached() == old(session).cached(),
{
}

/// As long as something else keeps a resource alive, another handle to it or
/// something that was created from it, dropping a handle only counts it.
pub proof fn law_drop_of_one_handle_of_several(session: &mut Session, id: usize, calls: Vec<Call>)
    requires
        old(session).wf(),
        call_ensures(Session::release, (session, id), calls),
        old(session).tree().contains_key(id),
        old(session).tree()[id].handles > kept_by_thread(*old(session), id),
        old(session).tree()[id].handles + old(session).tree()[id].children > 1,
    ensures
        calls@.len() == 0,
        final(session).cached() == old(session).cached(),
        final(session).tree().dom() == old(session).tree().dom(),
        final(session).tree()[id].handles == old(session).tree()[id].handles - 1,
        forall|k: usize| #[trigger]
            old(session).tree().contains_key(k) ==> {
                &&& final(session).tree()[k].resource == old(session).tree()[k].resource
                &&& final(session).tree()[k].parent == old(session).tree()[k].parent
                &&& final(session).tree()[k].context == old(session).tree()[k].context
                &&& final(session).tree()[k].children == old(session).tree()[k].children
                &&& k != id ==> final(session).tree()[k].handles
                    == old(session).tree()[k].handles
            },
{
    let t = old(session).tree();
    tree::lemma_release_keeps(t, id);
    assert(final(session).tree().dom() =~= t.dom());
}

/// The last handle to a resource from which nothing was created deletes it: its C
/// objects go first and in their order, and its memory goes last of all.
pub proof fn law_drop_of_the_last_handle(session: &mut Session, id: usize, calls: Vec<Call>)
    requires
        old(session).wf(),
        call_ensures(Session::release, (session, id), calls),
        old(session).tree().contains_key(id),
        old(session).tree()[id].handles == 1,
        old(session).tree()[id].children == 0,
        old(session).cached() != Some(id),
    ensures
        !final(session).tree().contains_key(id),
        calls@.len() > 0,
        match old(session).tree()[id].resource {
            Resource::Init => calls@[0] == Call::Uninit,
            Resource::Context { ctx } => calls@[0] == (Call::DeleteContext { ctx }),
            Resource::Queue { jfce, jfc } => {
                &&& calls@.len() >= 2
                &&& calls@[0] == (Call::DeleteJfc { jfc })
                &&& calls@[1] == (Call::DeleteJfce { jfce })
            },
            Resource::Jetty { jfr, jetty } => {
                &&& calls@.len() >= 2
                &&& calls@[0] == (Call::DeleteJetty { jetty })
                &&& calls@[1] == (Call::DeleteJfr { jfr })
            },
            Resource::Seg { tseg, page } => {
                &&& calls@[0] == (Call::UnregisterSeg { tseg })
                &&& page matches Some(p) ==> {
                    &&& calls@.len() >= 2
                    &&& calls@.last() == (Call::Dealloc {
                        addr: p.addr,
                        size: p.size,
                        align: PAGE_SIZE,
                    })
                }
            },
            Resource::Peer { tseg, tjetty } => {
                &&& calls@.len() >= 2
                &&& calls@[0] == (Call::UnimportJetty { tjetty })
                &&& calls@[1] == (Call::UnimportSeg { tseg })
            },
        },
{
    let t = old(session).tree();
    let u = tree::without_handle(t, id);
    tree::law_release(t, id);
    let rest = seq![id].drop_last();
    let later = tree::sweep(tree::cut(u, id), u[id].onto(rest));
    let r = t[id].resource;
    assert(seq![id].last() == id);
    assert(u.dom() =~= t.dom());
    assert(tree::release(t, id).calls == r.deletes() + later.calls + r.frees());
    assert(tree::release(t, id).gone == seq![id] + later.gone);
    assert((seq![id] + later.gone)[0] == id);
}

/// The calls of a teardown are those that are due for what goes, and no others.
proof fn lemma_teardown_is_due(t: Tree, gone: Seq<usize>, c: Call)
    ensures
        tree::teardown(t, gone).contains(c) <==> (exists|i: int|
            0 <= i < gone.len() && #[trigger] due(t[gone[i]].resource).contains(c)),
    decreases gone.len(),
{
    let calls = tree::teardown(t, gone);
    if gone.len() > 0 {
        let r = t[gone[0]].resource;
        let rest = gone.drop_first();
        let later = tree::teardown(t, rest);
        let (d, f) = (r.deletes(), r.frees());
        lemma_teardown_is_due(t, rest, c);
        lemma_due(r);
        if calls.contains(c) {
            let i = choose|i: int| 0 <= i < calls.len() && calls[i] == c;
            if i < d.len() {
                assert((d + f)[i] == c);
                assert(due(t[gone[0]].resource).contains(c));
            } else if i < d.len() + later.len() {
                assert(later[i - d.len()] == c);
                let j = choose|j: int|
                    0 <= j < rest.len() && #[trigger] due(t[rest[j]].resource).contains(c);
                assert(rest[j] == gone[j + 1]);
                assert(due(t[gone[j + 1]].resource).contains(c));
            } else {
                assert((d + f)[i - later.len()] == c);
                assert(due(t[gone[0]].resource).contains(c));
            }
        }
        if exists|i: int|
            0 <= i < gone.len() && #[trigger] due(t[gone[i]].resource).contains(c) {
            let i = choose|i: int|
                0 <= i < gone.len() && #[trigger] due(t[gone[i]].resource).contains(c);
            if i == 0 {
                let j = choose|j: int| 0 <= j < (d + f).len() && (d + f)[j] == c;
                if j < d.len() {
                    assert(calls[j] == c);
                } else {
                    assert(calls[j + later.len()] == c);
                }
            } else {
                assert(rest[i - 1] == gone[i]);
                assert(due(t[rest[i - 1]].resource).contains(c));
                let j = choose|j: int| 0 <= j < later.len() && later[j] == c;
                assert(calls[d.len() + j] == c);
            }
        }
    }
}

/// Dropping a handle makes exactly the calls that are due for the resources that go
/// with it, whatever they are.
pub proof fn law_drop_deletes_what_goes(
    session: &mut Session,
    id: usize,
    calls: Vec<Call>,
    c: Call,
)
    requires
        old(session).wf(),
        call_ensures(Session::release, (session, id), calls),
    ensures
        calls@.contains(c) <==> (exists|k: usize|
            old(session).tree().contains_key(k) && !final(session).tree().contains_key(k)
                && #[trigger] due(old(session).tree()[k].resource).contains(c)),
{
    let t = old(session).tree();
    let gone = tree::release(t, id).gone;
    tree::law_release(t, id);
    lemma_teardown_is_due(t, gone, c);
    lemma_gone_is_due(t, final(session).tree(), gone, c, old(session).has_handle(id));
}

/// What went of a tree, said in two ways.
proof fn lemma_gone_is_due(t: Tree, u: Tree, gone: Seq<usize>, c: Call, dropped: bool)
    requires
        dropped ==> tree::left_after(t, gone, u),
        !dropped ==> u == t,
    ensures
        (exists|k: usize|
            t.contains_key(k) && !u.contains_key(k) && #[trigger] due(t[k].resource).contains(c))
            <==> dropped && (exists|i: int|
            0 <= i < gone.len() && #[trigger] due(t[gone[i]].resource).contains(c)),
{
    if dropped {
        if exists|k: usize|
            t.contains_key(k) && !u.contains_key(k) && #[trigger] due(t[k].resource).contains(c) {
            let k = choose|k: usize|
                t.contains_key(k) && !u.contains_key(k) && #[trigger] due(t[k].resource).contains(
                    c,
                );
            assert(gone.contains(k));
            let i = choose|i: int| 0 <= i < gone.len() && gone[i] == k;
            assert(due(t[gone[i]].resource).contains(c));
        }
        if exists|i: int|
            0 <= i < gone.len() && #[trigger] due(t[gone[i]].resource).contains(c) {
            let i = choose|i: int|
                0 <= i < gone.len() && #[trigger] due(t[gone[i]].resource).contains(c);
            assert(t.contains_key(gone[i]));
            assert(gone.contains(gone[i]));
            assert(!u.contains_key(gone[i]));
            assert(due(t[gone[i]].resource).contains(c));
        }
    }
}

/// Whatever goes with a handle: everything that another handle keeps stays as it is,
/// and so does what that hangs on. Nothing appears.
pub proof fn law_drop_keeps_the_rest(session: &mut Session, id: usize, calls: Vec<Call>, k: usize)
    requires
        old(session).wf(),
        call_ensures(Session::release, (session, id), calls),
    ensures
        final(session).tree().contains_key(k) ==> {
            &&& old(session).tree().contains_key(k)
            &&& final(session).tree()[k].resource == old(session).tree()[k].resource
            &&& final(session).tree()[k].parent == old(session).tree()[k].parent
            &&& final(session).tree()[k].context == old(session).tree()[k].context
            &&& k != id ==> final(session).tree()[k].handles == old(session).tree()[k].handles
        },
        old(session).tree().contains_key(k) && k != id && old(session).tree()[k].handles > 0
            ==> final(session).tree().contains_key(k),
        final(session).tree().contains_key(k) ==> {
            let node = final(session).tree()[k];
            &&& node.handles + node.children > 0
            &&& node.parent matches Some(p) ==> final(session).tree().contains_key(p)
            &&& node.context matches Some(c) ==> final(session).tree().contains_key(c)
        },
{
    let t = old(session).tree();
    tree::law_release(t, id);
    if final(session).tree().contains_key(k) {
        assert(tree::well_placed(final(session).tree(), k));
    }
}

/// The thread ends: it drops the handle that it kept to its initialization, and that
/// one only. If nothing else needs the initialization, that ends it.
pub proof fn law_thread_drops_its_initialization(session: &mut Session, calls: Vec<Call>)
    requires
        old(session).wf(),
        call_ensures(Session::finish, (session,), calls),
    ensures
        final(session).cached() is None,
        old(session).cached() is None ==> calls@.len() == 0 && final(session).tree() == old(
            session,
        ).tree(),
        old(session).cached() matches Some(id) ==> {
            let node = old(session).tree()[id];
            &&& node.handles + node.children > 1 ==> {
                &&& calls@.len() == 0
                &&& final(session).tree().contains_key(id)
                &&& final(session).tree()[id].handles == node.handles - 1
            }
            &&& node.handles + node.children == 1 ==> {
                &&& !final(session).tree().contains_key(id)
                &&& calls@.contains(Call::Uninit)
            }
        },
        forall|k: usize| #[trigger]
            old(session).tree().contains_key(k) && old(session).cached() != Some(k)
                ==> final(session).tree().contains_key(k) && final(session).tree()[k].handles
                == old(session).tree()[k].handles,
{
    let t = old(session).tree();
    if let Some(id) = old(session).cached() {
        tree::law_release(t, id);
        let gone = tree::release(t, id).gone;
        let u = tree::without_handle(t, id);
        if t[id].handles + t[id].children > 1 {
            tree::lemma_release_keeps(t, id);
        } else {
            let rest = seq![id].drop_last();
            assert(seq![id].last() == id);
            assert(u.dom() =~= t.dom());
            assert(tree::well_placed(t, id));
            let later = tree::sweep(tree::cut(u, id), u[id].onto(rest));
            assert(u[id].onto(rest) =~= seq![]);
            assert(later.gone =~= seq![]);
            assert(gone =~= seq![id]);
            assert(gone[0] == id);
            assert(tree::release(t, id).calls[0] == Call::Uninit);
        }
    }
}

/// What a session says of a resource is whether it exists, and whether there is room
/// to count another handle to it.
pub proof fn law_session_knows_its_resources(
    session: &Session,
    id: usize,
    live: bool,
    room: bool,
    kept: Option<usize>,
)
    requires
        call_ensures(Session::is_live, (session, id), live),
        call_ensures(Session::can_retain, (session, id), room),
        call_ensures(Session::initialized, (session,), kept),
    ensures
        live == session.tree().contains_key(id),
        room == (live && session.tree()[id].handles < usize::MAX),
        kept == session.cached(),
{
}

/// A thread can initialize the library if it is not initialized, or if the thread
/// keeps the initialization and can count another handle to it.
pub proof fn law_session_knows_whether_to_initialize(session: &Session, r: bool)
    requires
        session.wf(),
        call_ensures(Session::can_init, (session,), r),
    ensures
        session.cached() matches Some(id) ==> r == (session.tree()[id].handles < usize::MAX),
        session.cached() is None ==> r == (forall|k: usize| #[trigger]
            session.tree().contains_key(k) ==> !(session.tree()[k].resource is Init)),
{
}

/// The calls of a resource are appended in their order, memory last.
pub proof fn law_due_calls_are_appended(
    resource: &Resource,
    first: &mut Vec<Call>,
    then: &mut Vec<Call>,
)
    requires
        call_ensures(Resource::push_deletes, (resource, first), ()),
        call_ensures(Resource::push_frees, (resource, then), ()),
        old(then)@ == final(first)@,
    ensures
        final(then)@ == old(first)@ + due(*resource),
        forall|i: int|
            old(first)@.len() <= i < final(first)@.len() ==> !((
            #[trigger] final(first)@[i]) is Dealloc),
{
    lemma_due(*resource);
    assert(final(then)@ =~= old(first)@ + (resource.deletes() + resource.frees()));
}

/// Another handle to a resource is counted; a new resource hangs where it was put; and
/// an initialization is kept by the thread, with one more handle for the caller.
pub proof fn law_session_keeps_count(
    a: &mut Session,
    id: usize,
    b: &mut Session,
    parent: usize,
    context: Option<usize>,
    resource: Resource,
    new: usize,
    c: &mut Session,
    root: usize,
)
    requires
        call_ensures(Session::retain, (a, id), ()),
        old(a).tree().contains_key(id),
        old(a).tree()[id].handles < usize::MAX,
        call_ensures(Session::adopt, (b, parent, context, resource), new),
        old(b).tree().contains_key(parent),
        context matches Some(k) ==> old(b).tree().contains_key(k),
        call_ensures(Session::install, (c,), root),
    ensures
        laws::counted_once_more(*old(a), *final(a), id),
        laws::created(*old(b), *final(b), new, parent, context, resource),
        !old(c).tree().contains_key(root),
        final(c).tree().dom() == old(c).tree().dom().insert(root),
        final(c).tree()[root].resource is Init,
        final(c).tree()[root].handles == 2,
        final(c).cached() == Some(root),
{
    laws::lemma_counted(*old(a), *final(a), id);
    laws::lemma_created(*old(b), *final(b), new, parent, context, resource);
    assert(final(c).tree().dom() =~= old(c).tree().dom().insert(root));
}

/// A thread that has done nothing has nothing.
pub proof fn law_session_starts_empty(r: Session)
    requires
        call_ensures(Session::new, (), r),
    ensures
        r.wf(),
        forall|k: usize| !r.tree().contains_key(k),
        r.cached() is None,
{
}

} // verus!
