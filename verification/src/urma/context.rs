//! Contexts.

use vstd::prelude::*;
use vstd::string::*;

use crate::call::{Call, Effect, Kind, Object, Reply, Step};
use crate::error::{null_err, Error, ErrorView};
use crate::ffi::{urma_context_t, urma_eid_info_t, Addr};
use crate::operation;
use crate::operation::{Operation, Request};
use crate::session::Session;
use crate::tree;
use crate::tree::Resource;
use crate::urma::init::Urma;
use crate::urma::value::Eid;

verus! {

/// Context binding a device + EID; container for all resource operations.
/// A handle that can be duplicated: the underlying `urma_context_t` is deleted
/// when the last handle and the last resource created from it are gone.
pub struct Context {
    node: usize,
    raw: urma_context_t,
    eid: Eid,
}

/// Where the creation of a context stands.
pub enum ContextStage {
    /// The device is looked up
    Device,
    /// Its EIDs are listed
    Eids { dev: Addr },
    /// There is no EID, but a list to free
    NoEid { list: Addr },
    /// The first EID is taken and the list is freed
    Freeing { dev: Addr, list: Addr, info: urma_eid_info_t },
    /// The context is created
    Creating { eid: Eid },
}

/// A context is being created.
pub struct ContextCreate {
    pub urma: usize,
    pub dev_name: String,
    pub stage: ContextStage,
}

/// No device has this name.
pub open spec fn no_device(dev_name: Seq<char>) -> ErrorView {
    ErrorView::NotFound("device '"@ + dev_name + "' not found, see list_devices()"@)
}

/// The device has no EID.
pub open spec fn no_eid(dev_name: Seq<char>) -> ErrorView {
    ErrorView::NotFound("no eid on device '"@ + dev_name + "'"@)
}

/// See [`no_device`].
pub fn no_device_err(dev_name: &str) -> (r: Error)
    ensures
        r@ == no_device(dev_name@),
{
    let mut s = String::new();
    s.append("device '");
    s.append(dev_name);
    s.append("' not found, see list_devices()");
    assert(s@ =~= "device '"@ + dev_name@ + "' not found, see list_devices()"@);
    Error::NotFound(s)
}

fn no_eid_err(dev_name: &str) -> (r: Error)
    ensures
        r@ == no_eid(dev_name@),
{
    let mut s = String::new();
    s.append("no eid on device '");
    s.append(dev_name);
    s.append("'");
    assert(s@ =~= "no eid on device '"@ + dev_name@ + "'"@);
    Error::NotFound(s)
}

/// The name as a C string: its bytes and a NUL. `None` if a NUL is inside it.
pub fn c_string(name: &str) -> (r: Option<Vec<u8>>)
    ensures
        r is None <==> name.spec_bytes().contains(0u8),
        r matches Some(bytes) ==> bytes@ == name.spec_bytes().push(0u8),
{
    let bytes = name.as_bytes();
    let mut out: Vec<u8> = Vec::new();
    let mut i: usize = 0;
    while i < bytes.len()
        invariant
            i <= bytes@.len(),
            bytes@ == name.spec_bytes(),
            out@ == bytes@.take(i as int),
            forall|j: int| 0 <= j < i ==> bytes@[j] != 0,
        decreases bytes@.len() - i,
    {
        if bytes[i] == 0 {
            assert(bytes@.contains(0u8));
            return None;
        }
        out.push(bytes[i]);
        i += 1;
        assert(out@ =~= bytes@.take(i as int));
    }
    assert(bytes@.take(i as int) =~= bytes@);
    out.push(0);
    Some(out)
}

impl Context {
    /// The resource that this is a handle to.
    pub closed spec fn id(&self) -> usize {
        self.node
    }

    /// The C object.
    pub closed spec fn raw_ctx(&self) -> urma_context_t {
        self.raw
    }

    /// The EID that the context was created with.
    pub closed spec fn own_eid(&self) -> Eid {
        self.eid
    }

    /// The handle is to a context of the session.
    pub open spec fn lives_in(&self, session: &Session) -> bool {
        tree::stands_at(session.tree(), self.id(), Resource::Context { ctx: self.raw_ctx() })
    }

    /// See [`Context::id`].
    pub fn node(&self) -> (r: usize)
        ensures
            r == self.id(),
    {
        self.node
    }

    pub fn eid(&self) -> (r: Eid)
        ensures
            r == self.own_eid(),
    {
        self.eid
    }

    pub fn raw(&self) -> (r: urma_context_t)
        ensures
            r == self.raw_ctx(),
    {
        self.raw
    }

    /// Another handle to the same context.
    pub fn dup(&self, session: &mut Session) -> (r: Context)
        requires
            old(session).wf(),
            self.lives_in(old(session)),
            old(session).tree()[self.id()].handles < usize::MAX,
        ensures
            final(session).wf(),
            final(session).tree() == tree::with_handle(old(session).tree(), self.id()),
            final(session).cached() == old(session).cached(),
            r == *self,
    {
        session.retain(self.node);
        Context { node: self.node, raw: self.raw, eid: self.eid }
    }

    /// Create by device name: get device -> enumerate EIDs, take the first ->
    /// `urma_create_context`. The `Urma` guard argument proves the library is
    /// initialized; the context keeps the initialization alive.
    pub fn create(urma: &Urma, dev_name: &str) -> (r: Step<ContextCreate, Context>)
        ensures
            operation::starts(r),
            r matches Step::Ask(state, _) ==> forall|s: Session| #[trigger]
                urma.lives_in(&s) ==> state.ready(&s),
            match r {
                Step::Ask(s, c) => {
                    &&& !dev_name.spec_bytes().contains(0u8)
                    &&& c matches Call::GetDeviceByName { name } && name@
                        == dev_name.spec_bytes().push(0u8)
                    &&& s.urma == urma.id()
                    &&& s.dev_name@ == dev_name@
                    &&& s.stage is Device
                },
                Step::Done(Ok(_)) => false,
                Step::Done(Err(e)) => {
                    &&& dev_name.spec_bytes().contains(0u8)
                    &&& e@ == ErrorView::Invalid("device name contains NUL"@)
                },
            },
    {
        match c_string(dev_name) {
            None => Step::Done(Err(Error::Invalid("device name contains NUL".to_owned()))),
            Some(name) => {
                let state = ContextCreate {
                    urma: urma.node(),
                    dev_name: dev_name.to_owned(),
                    stage: ContextStage::Device,
                };
                Step::Ask(state, Call::GetDeviceByName { name })
            },
        }
    }
}

impl Request for ContextCreate {
    type Output = Context;

    open spec fn held(&self) -> Set<Object> {
        match self.stage {
            ContextStage::NoEid { list } => set![Object { kind: Kind::EidList, addr: list }],
            ContextStage::Freeing { list, .. } => set![Object { kind: Kind::EidList, addr: list }],
            _ => Set::empty(),
        }
    }

    open spec fn effect(&self) -> Effect {
        match self.stage {
            ContextStage::Device => Effect::Neither,
            ContextStage::Eids { .. } => Effect::Make(Kind::EidList),
            ContextStage::NoEid { list } => Effect::GiveBack(
                Object { kind: Kind::EidList, addr: list },
            ),
            ContextStage::Freeing { list, .. } => Effect::GiveBack(
                Object { kind: Kind::EidList, addr: list },
            ),
            ContextStage::Creating { .. } => Effect::Make(Kind::Context),
        }
    }

    open spec fn initializes(&self) -> bool {
        false
    }

    open spec fn awaits(&self, reply: &Reply) -> bool {
        match self.stage {
            ContextStage::Device => reply is Pointer,
            ContextStage::Eids { .. } => reply is Eids,
            ContextStage::NoEid { .. } => reply is Done,
            ContextStage::Freeing { .. } => reply is Done,
            ContextStage::Creating { .. } => reply is Pointer,
        }
    }

    open spec fn ready(&self, session: &Session) -> bool {
        &&& session.tree().contains_key(self.urma)
        &&& session.tree()[self.urma].resource is Init
    }

    open spec fn rank(&self) -> nat {
        match self.stage {
            ContextStage::Device => 3,
            ContextStage::Eids { .. } => 2,
            ContextStage::NoEid { .. } => 0,
            ContextStage::Freeing { .. } => 1,
            ContextStage::Creating { .. } => 0,
        }
    }

    open spec fn kept(output: &Context, session: &Session) -> Set<Object> {
        session.tree()[output.id()].resource.objects()
    }

    open spec fn follows(
        &self,
        reply: Reply,
        r: Step<ContextCreate, Context>,
        before: &Session,
        after: &Session,
    ) -> bool {
        match (self.stage, reply) {
            (ContextStage::Device, Reply::Pointer { addr: dev, .. }) => if dev == 0 {
                operation::fails(r, no_device(self.dev_name@), before, after)
            } else {
                operation::asks(
                    r,
                    ContextCreate { stage: ContextStage::Eids { dev }, ..*self },
                    Call::GetEidList { dev },
                    before,
                    after,
                )
            },
            (ContextStage::Eids { dev }, Reply::Eids { list, count, first }) => if list == 0 {
                operation::fails(r, no_eid(self.dev_name@), before, after)
            } else if count == 0 {
                operation::asks(
                    r,
                    ContextCreate { stage: ContextStage::NoEid { list }, ..*self },
                    Call::FreeEidList { list },
                    before,
                    after,
                )
            } else {
                operation::asks(
                    r,
                    ContextCreate {
                        stage: ContextStage::Freeing { dev, list, info: first },
                        ..*self
                    },
                    Call::FreeEidList { list },
                    before,
                    after,
                )
            },
            (ContextStage::NoEid { .. }, Reply::Done) => operation::fails(
                r,
                no_eid(self.dev_name@),
                before,
                after,
            ),
            (ContextStage::Freeing { dev, info, .. }, Reply::Done) => operation::asks(
                r,
                ContextCreate {
                    stage: ContextStage::Creating { eid: Eid(info.eid.raw) },
                    ..*self
                },
                Call::CreateContext { dev, eid_index: info.eid_index },
                before,
                after,
            ),
            (ContextStage::Creating { eid }, Reply::Pointer { addr, errno }) => if addr == 0 {
                operation::fails(r, ErrorView::Null("urma_create_context"@, errno), before, after)
            } else {
                &&& r matches Step::Done(Ok(ctx))
                &&& ctx.own_eid() == eid
                &&& ctx.lives_in(after)
                &&& ctx.raw_ctx() == (urma_context_t { addr })
                &&& operation::adopts(
                    ctx.id(),
                    self.urma,
                    None,
                    Resource::Context { ctx: urma_context_t { addr } },
                    before,
                    after,
                )
            },
            _ => false,
        }
    }
}

impl Operation for ContextCreate {
    proof fn accounts(
        &self,
        reply: Reply,
        r: Step<ContextCreate, Context>,
        before: &Session,
        after: &Session,
    ) {
        if let Step::Done(Ok(made)) = r {
            let resource = after.tree()[made.id()].resource;
            tree::lemma_adopted_inits(before.tree(), made.id(), self.urma, None, resource);
        }
    }

    fn step(self, session: &mut Session, reply: Reply) -> (r: Step<ContextCreate, Context>) {
        match self.stage {
            ContextStage::Device => match reply {
                Reply::Pointer { addr: dev, .. } => {
                    if dev == 0 {
                        Step::Done(Err(no_device_err(self.dev_name.as_str())))
                    } else {
                        Step::Ask(
                            ContextCreate { stage: ContextStage::Eids { dev }, ..self },
                            Call::GetEidList { dev },
                        )
                    }
                },
                _ => vstd::pervasive::unreached(),
            },
            ContextStage::Eids { dev } => match reply {
                Reply::Eids { list, count, first } => {
                    if list == 0 {
                        Step::Done(Err(no_eid_err(self.dev_name.as_str())))
                    } else if count == 0 {
                        Step::Ask(
                            ContextCreate { stage: ContextStage::NoEid { list }, ..self },
                            Call::FreeEidList { list },
                        )
                    } else {
                        Step::Ask(
                            ContextCreate {
                                stage: ContextStage::Freeing { dev, list, info: first },
                                ..self
                            },
                            Call::FreeEidList { list },
                        )
                    }
                },
                _ => vstd::pervasive::unreached(),
            },
            ContextStage::NoEid { .. } => Step::Done(Err(no_eid_err(self.dev_name.as_str()))),
            ContextStage::Freeing { dev, info, .. } => Step::Ask(
                ContextCreate {
                    stage: ContextStage::Creating { eid: Eid::from_raw(info.eid) },
                    ..self
                },
                Call::CreateContext { dev, eid_index: info.eid_index },
            ),
            ContextStage::Creating { eid } => match reply {
                Reply::Pointer { addr, errno } => {
                    if addr == 0 {
                        Step::Done(Err(null_err("urma_create_context", errno)))
                    } else {
                        let raw = urma_context_t { addr };
                        let node: usize = session.adopt(
                            self.urma,
                            None,
                            Resource::Context { ctx: raw },
                        );
                        Step::Done(Ok(Context { node, raw, eid }))
                    }
                },
                _ => vstd::pervasive::unreached(),
            },
        }
    }
}

} // verus!
