//! Global init.

use vstd::prelude::*;

use crate::call::{Call, Effect, Object, Reply, Step};
use crate::error::{check_status, ErrorView};
use crate::ffi::{urma_init_attr_t, URMA_SUCCESS};
use crate::operation;
use crate::operation::{Operation, Request};
use crate::session::Session;
use crate::tree;
use crate::tree::{Node, Resource};

verus! {

/// Global init guard: a handle to the thread's initialization of the library.
/// Every `Context` created from a guard keeps the initialization alive, so
/// `urma_uninit` always runs after the last context is deleted, wherever the
/// guard itself is dropped.
pub struct Urma {
    node: usize,
}

/// `urma_init` was called and has not answered yet.
pub struct UrmaInit;

impl Urma {
    /// The resource that this is a handle to.
    pub closed spec fn id(&self) -> usize {
        self.node
    }

    /// The handle is to an initialization of the session.
    pub open spec fn lives_in(&self, session: &Session) -> bool {
        &&& session.tree().contains_key(self.id())
        &&& session.tree()[self.id()].resource is Init
    }

    /// See [`Urma::id`].
    pub fn node(&self) -> (r: usize)
        ensures
            r == self.id(),
    {
        self.node
    }

    /// `urma_init` may only run once per process: the C library returns
    /// URMA_EEXIST on a second call. So a successful initialization is cached
    /// per thread and later calls share it; `urma_uninit` runs once, when the
    /// thread's initialization goes away.
    pub fn init(session: &mut Session) -> (r: Step<UrmaInit, Urma>)
        requires
            old(session).wf(),
            old(session).may_init(),
        ensures
            final(session).wf(),
            operation::starts(r),
            match old(session).cached() {
                Some(id) => {
                    &&& r matches Step::Done(Ok(urma)) && urma.id() == id && urma.lives_in(final(session))
                    &&& final(session).tree() == tree::with_handle(old(session).tree(), id)
                    &&& final(session).cached() == old(session).cached()
                },
                None => {
                    &&& r == Step::<UrmaInit, Urma>::Ask(UrmaInit, init_call())
                    &&& *final(session) == *old(session)
                },
            },
    {
        match session.initialized() {
            Some(node) => {
                session.retain(node);
                Step::Done(Ok(Urma { node }))
            },
            None => {
                Step::Ask(
                    UrmaInit,
                    Call::Init {
                        attr: urma_init_attr_t {
                            token: 0,
                            uasid: 0,
                        } /* 0 means assigned by the system */
                        ,
                    },
                )
            },
        }
    }
}

/// The call that initializes the library: no token, and a uasid of the system's
/// choice.
pub open spec fn init_call() -> Call {
    Call::Init { attr: urma_init_attr_t { token: 0, uasid: 0 } }
}

impl Request for UrmaInit {
    type Output = Urma;

    open spec fn held(&self) -> Set<Object> {
        Set::empty()
    }

    open spec fn effect(&self) -> Effect {
        Effect::Neither
    }

    open spec fn initializes(&self) -> bool {
        true
    }

    open spec fn awaits(&self, reply: &Reply) -> bool {
        reply is Status
    }

    open spec fn ready(&self, session: &Session) -> bool {
        session.cached() is None && tree::no_init(session.tree())
    }

    open spec fn rank(&self) -> nat {
        0
    }

    open spec fn kept(output: &Urma, session: &Session) -> Set<Object> {
        Resource::Init.objects()
    }

    /// On success the thread keeps the initialization and the caller gets a
    /// guard; otherwise nothing changes.
    open spec fn follows(
        &self,
        reply: Reply,
        r: Step<UrmaInit, Urma>,
        before: &Session,
        after: &Session,
    ) -> bool {
        match r {
            Step::Ask(_, _) => false,
            Step::Done(Ok(urma)) => {
                &&& reply == Reply::Status(URMA_SUCCESS)
                &&& !before.tree().contains_key(urma.id())
                &&& after.tree() == before.tree().insert(
                    urma.id(),
                    Node { resource: Resource::Init, parent: None, context: None, handles: 2, children: 0 },
                )
                &&& after.cached() == Some(urma.id())
                &&& urma.lives_in(after)
            },
            Step::Done(Err(e)) => {
                &&& reply matches Reply::Status(st) && st != URMA_SUCCESS && e@
                    == ErrorView::Status(st, "urma_init"@)
                &&& *after == *before
            },
        }
    }
}

impl Operation for UrmaInit {
    proof fn accounts(
        &self,
        reply: Reply,
        r: Step<UrmaInit, Urma>,
        before: &Session,
        after: &Session,
    ) {
        if let Step::Done(Ok(urma)) = r {
            assert(after.tree().contains_key(urma.id()));
        }
    }

    fn step(self, session: &mut Session, reply: Reply) -> (r: Step<UrmaInit, Urma>) {
        let st: i32 = match reply {
            Reply::Status(st) => st,
            _ => vstd::pervasive::unreached(),
        };
        match check_status(st, "urma_init") {
            Ok(_) => {
                let node: usize = session.install();
                Step::Done(Ok(Urma { node }))
            },
            Err(e) => Step::Done(Err(e)),
        }
    }
}

} // verus!
