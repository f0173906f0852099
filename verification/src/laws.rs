//! What the operations are for.
//!
//! The contracts say of every step what follows from the answer to a call. Here it
//! is said of whole operations, from what the caller passes in to the calls that
//! are made and to what comes back: each law is about whatever the named function
//! returns, and about every run that starts with that.

pub mod device;
pub mod flags;
pub mod inputs;
pub mod jetty;
pub mod memory;
pub mod peer;
pub mod queue;
pub mod release;
pub mod text;

use vstd::prelude::*;

use crate::operation;
use crate::session::Session;
use crate::tree;
use crate::tree::Resource;

verus! {

/// A resource was created below `parent` and, if it is a jetty, on `context`. There
/// is one handle to it, and nothing hangs on it. Everything else is as it was, but
/// for what hangs on those two.
pub open spec fn created(
    before: Session,
    after: Session,
    id: usize,
    parent: usize,
    context: Option<usize>,
    resource: Resource,
) -> bool {
    let (t, u) = (before.tree(), after.tree());
    &&& !t.contains_key(id)
    &&& u.dom() == t.dom().insert(id)
    &&& u[id].resource == resource
    &&& u[id].parent == Some(parent)
    &&& u[id].context == context
    &&& u[id].handles == 1
    &&& u[id].children == 0
    &&& forall|k: usize| #[trigger]
        t.contains_key(k) ==> {
            &&& u[k].resource == t[k].resource
            &&& u[k].parent == t[k].parent
            &&& u[k].context == t[k].context
            &&& u[k].handles == t[k].handles
        }
    &&& after.cached() == before.cached()
}

/// There is one more handle to a resource, and nothing else has changed.
pub open spec fn counted_once_more(before: Session, after: Session, id: usize) -> bool {
    let (t, u) = (before.tree(), after.tree());
    &&& u.dom() == t.dom()
    &&& u[id].handles == t[id].handles + 1
    &&& forall|k: usize| #[trigger]
        t.contains_key(k) ==> {
            &&& u[k].resource == t[k].resource
            &&& u[k].parent == t[k].parent
            &&& u[k].context == t[k].context
            &&& u[k].children == t[k].children
            &&& k != id ==> u[k].handles == t[k].handles
        }
    &&& after.cached() == before.cached()
}

/// A new resource of the tree is a created one.
pub proof fn lemma_created(
    before: Session,
    after: Session,
    id: usize,
    parent: usize,
    context: Option<usize>,
    resource: Resource,
)
    requires
        operation::adopts(id, parent, context, resource, &before, &after),
        before.tree().contains_key(parent),
        context matches Some(c) ==> before.tree().contains_key(c),
    ensures
        created(before, after, id, parent, context, resource),
{
    let (t, u) = (before.tree(), after.tree());
    assert(u.dom() =~= t.dom().insert(id));
}

/// A retained resource of the tree is counted once more.
pub proof fn lemma_counted(before: Session, after: Session, id: usize)
    requires
        before.tree().contains_key(id),
        before.tree()[id].handles < usize::MAX,
        after.tree() == tree::with_handle(before.tree(), id),
        after.cached() == before.cached(),
    ensures
        counted_once_more(before, after, id),
{
    assert(after.tree().dom() =~= before.tree().dom());
}

} // verus!
