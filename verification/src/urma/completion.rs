//! Completion queues.

use vstd::prelude::*;

use crate::call::{Call, Effect, Kind, Object, Reply, Step};
use crate::error::{null_err, Error, ErrorView, Result};
use crate::ffi::{
    urma_context_t, urma_cr_t, urma_jfc_cfg_t, urma_jfc_flag_t, urma_jfc_t, urma_jfce_t,
    URMA_CR_SUCCESS,
};
use crate::operation;
use crate::operation::{Operation, Request, Turn};
use crate::session::Session;
use crate::tree;
use crate::tree::Resource;
use crate::urma::context::Context;
use crate::urma::value::{POLL_INTERVAL, POLL_RETRIES};

verus! {

/// Safe view of one completion record (cr)
#[derive(Clone, Copy, Debug)]
pub struct Completion {
    pub status: i32,
    pub user_ctx: u64,
    pub completion_len: u32,
}

impl Completion {
    /// Whether this completion record reports success (`URMA_CR_SUCCESS`)
    pub fn is_success(&self) -> (r: bool)
        ensures
            r == (self.status == URMA_CR_SUCCESS),
    {
        self.status == URMA_CR_SUCCESS
    }
}

/// What a completion record says.
pub open spec fn completion_of(cr: urma_cr_t) -> Completion {
    Completion {
        status: cr.status,
        user_ctx: cr.user_ctx,
        completion_len: cr.completion_len,
    }
}

/// What a poll that returned `n` and filled in `cr` found. A negative count is
/// an error, and zero means that there is no completion record yet.
pub fn read_poll(n: i32, cr: urma_cr_t) -> (r: Result<Option<Completion>>)
    ensures
        match r {
            Ok(Some(c)) => n > 0 && c == completion_of(cr),
            Ok(None) => n == 0,
            Err(e) => n < 0 && e@ == ErrorView::Status(n, "urma_poll_jfc"@),
        },
{
    if n < 0 {
        return Err(Error::Status(n, "urma_poll_jfc"));
    }
    if n == 0 {
        return Ok(None);
    }
    Ok(
        Some(
            Completion {
                status: cr.status,
                user_ctx: cr.user_ctx,
                completion_len: cr.completion_len,
            },
        ),
    )
}

/// jfce + jfc: all completion records are polled from here. A handle that can
/// be duplicated, with the same sharing semantics as [`Context`].
pub struct CompletionQueue {
    node: usize,
    jfc: urma_jfc_t,
}

/// Where the creation of a completion queue stands.
pub enum QueueStage {
    /// The jfce is created
    Jfce,
    /// The jfc is created
    Jfc { jfce: urma_jfce_t },
    /// The jfc could not be created; the jfce is deleted again
    Undo { jfce: urma_jfce_t, errno: i32 },
}

/// A completion queue is being created.
pub struct QueueCreate {
    pub parent: usize,
    pub ctx: urma_context_t,
    pub depth: u32,
    pub stage: QueueStage,
}

/// The parameters of the jfc: jfce is a required field in urma_jfc_cfg_t, and
/// everything but the depth stays 0.
pub open spec fn jfc_cfg(depth: u32, jfce: urma_jfce_t) -> urma_jfc_cfg_t {
    urma_jfc_cfg_t { depth, flag: urma_jfc_flag_t { value: 0 }, ceqn: 0, jfce, user_ctx: 0 }
}

impl CompletionQueue {
    /// The resource that this is a handle to.
    pub closed spec fn id(&self) -> usize {
        self.node
    }

    /// The jfc that is polled.
    pub closed spec fn raw_jfc(&self) -> urma_jfc_t {
        self.jfc
    }

    /// The handle is to a completion queue of the session.
    pub open spec fn lives_in(&self, session: &Session) -> bool {
        tree::queue_at(session.tree(), self.id(), self.raw_jfc())
    }

    /// See [`CompletionQueue::id`].
    pub fn node(&self) -> (r: usize)
        ensures
            r == self.id(),
    {
        self.node
    }

    pub fn jfc(&self) -> (r: urma_jfc_t)
        ensures
            r == self.raw_jfc(),
    {
        self.jfc
    }

    /// Another handle to the same completion queue.
    pub fn dup(&self, session: &mut Session) -> (r: CompletionQueue)
        requires
            old(session).wf(),
            self.lives_in(old(session)),
            old(session).tree()[self.id()].handles < usize::MAX,
        ensures
            final(session).wf(),
            final(session).tree() == tree::with_handle(old(session).tree(), self.id()),
            final(session).cached() == old(session).cached(),
            r == *self,
    {
        session.retain(self.node);
        CompletionQueue { node: self.node, jfc: self.jfc }
    }

    /// Create the jfce, then the jfc on it.
    pub fn new(ctx: &Context, depth: u32) -> (r: Step<QueueCreate, CompletionQueue>)
        ensures
            operation::starts(r),
            r matches Step::Ask(state, _) ==> forall|s: Session| #[trigger]
                ctx.lives_in(&s) ==> state.ready(&s),
            r == Step::<QueueCreate, CompletionQueue>::Ask(
                (QueueCreate {
                    parent: ctx.id(),
                    ctx: ctx.raw_ctx(),
                    depth,
                    stage: QueueStage::Jfce,
                }),
                Call::CreateJfce { ctx: ctx.raw_ctx() },
            ),
    {
        Step::Ask(
            QueueCreate { parent: ctx.node(), ctx: ctx.raw(), depth, stage: QueueStage::Jfce },
            Call::CreateJfce { ctx: ctx.raw() },
        )
    }

    /// Non-blocking single poll; `Ok(None)` means no completion record yet
    pub fn poll(&self) -> (r: Step<PollOnce, Option<Completion>>)
        ensures
            operation::starts(r),
            r matches Step::Ask(state, _) ==> forall|s: Session| #[trigger]
                self.lives_in(&s) ==> state.ready(&s),
            r == Step::<PollOnce, Option<Completion>>::Ask(
                (PollOnce { node: self.id(), jfc: self.raw_jfc() }),
                Call::PollJfc { jfc: self.raw_jfc(), max: 1 },
            ),
    {
        Step::Ask(PollOnce { node: self.node, jfc: self.jfc }, Call::PollJfc { jfc: self.jfc, max: 1 })
    }

    /// Poll until the success completion record for the given user_ctx arrives
    pub fn wait_read(&self, expected_ctx: u64) -> (r: Step<WaitRead, Completion>)
        ensures
            operation::starts(r),
            r matches Step::Ask(state, _) ==> forall|s: Session| #[trigger]
                self.lives_in(&s) ==> state.ready(&s),
            r == wait_start(self.id(), self.raw_jfc(), expected_ctx),
    {
        Step::Ask(
            WaitRead {
                node: self.node,
                jfc: self.jfc,
                expected_ctx,
                polls_left: POLL_RETRIES - 1,
                stage: WaitStage::Poll,
            },
            Call::PollJfc { jfc: self.jfc, max: 1 },
        )
    }
}

impl Request for QueueCreate {
    type Output = CompletionQueue;

    open spec fn held(&self) -> Set<Object> {
        match self.stage {
            QueueStage::Jfce => Set::empty(),
            QueueStage::Jfc { jfce } => set![Object { kind: Kind::Jfce, addr: jfce.addr }],
            QueueStage::Undo { jfce, .. } => set![Object { kind: Kind::Jfce, addr: jfce.addr }],
        }
    }

    open spec fn effect(&self) -> Effect {
        match self.stage {
            QueueStage::Jfce => Effect::Make(Kind::Jfce),
            QueueStage::Jfc { .. } => Effect::Make(Kind::Jfc),
            QueueStage::Undo { jfce, .. } => Effect::GiveBack(
                Object { kind: Kind::Jfce, addr: jfce.addr },
            ),
        }
    }

    open spec fn initializes(&self) -> bool {
        false
    }

    open spec fn awaits(&self, reply: &Reply) -> bool {
        match self.stage {
            QueueStage::Jfce => reply is Pointer,
            QueueStage::Jfc { .. } => reply is Pointer,
            QueueStage::Undo { .. } => reply is Done,
        }
    }

    open spec fn ready(&self, session: &Session) -> bool {
        tree::stands_at(session.tree(), self.parent, Resource::Context { ctx: self.ctx })
    }

    open spec fn rank(&self) -> nat {
        match self.stage {
            QueueStage::Jfce => 2,
            QueueStage::Jfc { .. } => 1,
            QueueStage::Undo { .. } => 0,
        }
    }

    open spec fn kept(output: &CompletionQueue, session: &Session) -> Set<Object> {
        session.tree()[output.id()].resource.objects()
    }

    open spec fn follows(
        &self,
        reply: Reply,
        r: Step<QueueCreate, CompletionQueue>,
        before: &Session,
        after: &Session,
    ) -> bool {
        match (self.stage, reply) {
            (QueueStage::Jfce, Reply::Pointer { addr, errno }) => if addr == 0 {
                operation::fails(r, ErrorView::Null("urma_create_jfce"@, errno), before, after)
            } else {
                let jfce = urma_jfce_t { addr };
                operation::asks(
                    r,
                    QueueCreate { stage: QueueStage::Jfc { jfce }, ..*self },
                    Call::CreateJfc { ctx: self.ctx, cfg: jfc_cfg(self.depth, jfce) },
                    before,
                    after,
                )
            },
            (QueueStage::Jfc { jfce }, Reply::Pointer { addr, errno }) => if addr == 0 {
                operation::asks(
                    r,
                    QueueCreate { stage: QueueStage::Undo { jfce, errno }, ..*self },
                    Call::DeleteJfce { jfce },
                    before,
                    after,
                )
            } else {
                let jfc = urma_jfc_t { addr };
                &&& r matches Step::Done(Ok(cq))
                &&& cq.raw_jfc() == jfc
                &&& cq.lives_in(after)
                &&& operation::adopts(
                    cq.id(),
                    self.parent,
                    None,
                    Resource::Queue { jfce, jfc },
                    before,
                    after,
                )
            },
            (QueueStage::Undo { errno, .. }, Reply::Done) => operation::fails(
                r,
                ErrorView::Null("urma_create_jfc"@, errno),
                before,
                after,
            ),
            _ => false,
        }
    }
}

impl Operation for QueueCreate {
    proof fn accounts(
        &self,
        reply: Reply,
        r: Step<QueueCreate, CompletionQueue>,
        before: &Session,
        after: &Session,
    ) {
        if let Step::Done(Ok(made)) = r {
            let resource = after.tree()[made.id()].resource;
            tree::lemma_adopted_inits(before.tree(), made.id(), self.parent, None, resource);
        }
    }

    fn step(self, session: &mut Session, reply: Reply) -> (r: Step<QueueCreate, CompletionQueue>) {
        match self.stage {
            QueueStage::Jfce => match reply {
                Reply::Pointer { addr, errno } => {
                    if addr == 0 {
                        return Step::Done(Err(null_err("urma_create_jfce", errno)));
                    }
                    let jfce = urma_jfce_t { addr };
                    let cfg = urma_jfc_cfg_t {
                        depth: self.depth,
                        flag: urma_jfc_flag_t { value: 0 },
                        ceqn: 0,
                        jfce,
                        user_ctx: 0,
                    };
                    Step::Ask(
                        QueueCreate { stage: QueueStage::Jfc { jfce }, ..self },
                        Call::CreateJfc { ctx: self.ctx, cfg },
                    )
                },
                _ => vstd::pervasive::unreached(),
            },
            QueueStage::Jfc { jfce } => match reply {
                Reply::Pointer { addr, errno } => {
                    if addr == 0 {
                        return Step::Ask(
                            QueueCreate { stage: QueueStage::Undo { jfce, errno }, ..self },
                            Call::DeleteJfce { jfce },
                        );
                    }
                    let jfc = urma_jfc_t { addr };
                    let node: usize = session.adopt(self.parent, None, Resource::Queue { jfce, jfc });
                    Step::Done(Ok(CompletionQueue { node, jfc }))
                },
                _ => vstd::pervasive::unreached(),
            },
            QueueStage::Undo { errno, .. } => Step::Done(Err(null_err("urma_create_jfc", errno))),
        }
    }
}

/// A completion queue is being polled.
pub struct PollOnce {
    pub node: usize,
    pub jfc: urma_jfc_t,
}

impl Request for PollOnce {
    type Output = Option<Completion>;

    open spec fn held(&self) -> Set<Object> {
        Set::empty()
    }

    open spec fn effect(&self) -> Effect {
        Effect::Neither
    }

    open spec fn initializes(&self) -> bool {
        false
    }

    open spec fn awaits(&self, reply: &Reply) -> bool {
        reply is Polled
    }

    open spec fn ready(&self, session: &Session) -> bool {
        tree::queue_at(session.tree(), self.node, self.jfc)
    }

    open spec fn rank(&self) -> nat {
        0
    }

    open spec fn kept(output: &Option<Completion>, session: &Session) -> Set<Object> {
        Set::empty()
    }

    open spec fn follows(
        &self,
        reply: Reply,
        r: Step<PollOnce, Option<Completion>>,
        before: &Session,
        after: &Session,
    ) -> bool {
        &&& *after == *before
        &&& reply matches Reply::Polled { n, cr }
        &&& match r {
            Step::Ask(_, _) => false,
            Step::Done(Ok(Some(c))) => n > 0 && c == completion_of(cr),
            Step::Done(Ok(None)) => n == 0,
            Step::Done(Err(e)) => n < 0 && e@ == ErrorView::Status(n, "urma_poll_jfc"@),
        }
    }
}

impl Operation for PollOnce {
    proof fn accounts(
        &self,
        reply: Reply,
        r: Step<PollOnce, Option<Completion>>,
        before: &Session,
        after: &Session,
    ) {
    }

    fn step(self, session: &mut Session, reply: Reply) -> (r: Step<PollOnce, Option<Completion>>) {
        match reply {
            Reply::Polled { n, cr } => Step::Done(read_poll(n, cr)),
            _ => vstd::pervasive::unreached(),
        }
    }
}

/// What a wait is doing.
pub enum WaitStage {
    Poll,
    Sleep,
}

/// A completion record is being waited for.
pub struct WaitRead {
    pub node: usize,
    pub jfc: urma_jfc_t,
    pub expected_ctx: u64,
    /// How many polls may follow the present one
    pub polls_left: u32,
    pub stage: WaitStage,
}

/// The first poll of a wait.
pub open spec fn wait_start(node: usize, jfc: urma_jfc_t, expected_ctx: u64) -> Step<
    WaitRead,
    Completion,
> {
    Step::Ask(
        WaitRead {
            node,
            jfc,
            expected_ctx,
            polls_left: (POLL_RETRIES - 1) as u32,
            stage: WaitStage::Poll,
        },
        Call::PollJfc { jfc, max: 1 },
    )
}

/// The record is the one that was waited for.
pub open spec fn is_expected(c: Completion, expected_ctx: u64) -> bool {
    c.status == URMA_CR_SUCCESS && c.user_ctx == expected_ctx
}

impl Request for WaitRead {
    type Output = Completion;

    open spec fn held(&self) -> Set<Object> {
        Set::empty()
    }

    open spec fn effect(&self) -> Effect {
        Effect::Neither
    }

    open spec fn initializes(&self) -> bool {
        false
    }

    open spec fn awaits(&self, reply: &Reply) -> bool {
        match self.stage {
            WaitStage::Poll => reply is Polled,
            WaitStage::Sleep => reply is Done,
        }
    }

    open spec fn ready(&self, session: &Session) -> bool {
        tree::queue_at(session.tree(), self.node, self.jfc)
    }

    open spec fn rank(&self) -> nat {
        match self.stage {
            WaitStage::Poll => 2 * self.polls_left as nat + 1,
            WaitStage::Sleep => 2 * self.polls_left as nat,
        }
    }

    open spec fn kept(output: &Completion, session: &Session) -> Set<Object> {
        Set::empty()
    }

    open spec fn follows(
        &self,
        reply: Reply,
        r: Step<WaitRead, Completion>,
        before: &Session,
        after: &Session,
    ) -> bool {
        match (self.stage, reply) {
            (WaitStage::Poll, Reply::Polled { n, cr }) => if n < 0 {
                operation::fails(r, ErrorView::Status(n, "urma_poll_jfc"@), before, after)
            } else if n == 0 {
                operation::asks(
                    r,
                    WaitRead { stage: WaitStage::Sleep, ..*self },
                    Call::Sleep { millis: POLL_INTERVAL },
                    before,
                    after,
                )
            } else if is_expected(completion_of(cr), self.expected_ctx) {
                r == Step::<WaitRead, Completion>::Done(Ok(completion_of(cr))) && *after == *before
            } else {
                operation::fails(
                    r,
                    ErrorView::BadCompletion { status: cr.status, user_ctx: cr.user_ctx },
                    before,
                    after,
                )
            },
            (WaitStage::Sleep, Reply::Done) => if self.polls_left == 0 {
                operation::fails(
                    r,
                    ErrorView::PollTimeout { user_ctx: self.expected_ctx },
                    before,
                    after,
                )
            } else {
                operation::asks(
                    r,
                    WaitRead {
                        polls_left: (self.polls_left - 1) as u32,
                        stage: WaitStage::Poll,
                        ..*self
                    },
                    Call::PollJfc { jfc: self.jfc, max: 1 },
                    before,
                    after,
                )
            },
            _ => false,
        }
    }
}

impl Operation for WaitRead {
    proof fn accounts(
        &self,
        reply: Reply,
        r: Step<WaitRead, Completion>,
        before: &Session,
        after: &Session,
    ) {
    }

    fn step(self, session: &mut Session, reply: Reply) -> (r: Step<WaitRead, Completion>) {
        match self.stage {
            WaitStage::Poll => match reply {
                Reply::Polled { n, cr } => match read_poll(n, cr) {
                    Err(e) => Step::Done(Err(e)),
                    Ok(None) => Step::Ask(
                        WaitRead { stage: WaitStage::Sleep, ..self },
                        Call::Sleep { millis: POLL_INTERVAL },
                    ),
                    Ok(Some(c)) => {
                        if !c.is_success() || c.user_ctx != self.expected_ctx {
                            Step::Done(
                                Err(
                                    Error::BadCompletion { status: c.status, user_ctx: c.user_ctx },
                                ),
                            )
                        } else {
                            Step::Done(Ok(c))
                        }
                    },
                },
                _ => vstd::pervasive::unreached(),
            },
            WaitStage::Sleep => {
                if self.polls_left == 0 {
                    Step::Done(Err(Error::PollTimeout { user_ctx: self.expected_ctx }))
                } else {
                    Step::Ask(
                        WaitRead {
                            polls_left: self.polls_left - 1,
                            stage: WaitStage::Poll,
                            ..self
                        },
                        Call::PollJfc { jfc: self.jfc, max: 1 },
                    )
                }
            },
        }
    }
}

/// The calls of a wait: polls and sleeps in turn. Every poll but the last call
/// found nothing.
pub open spec fn polls_and_sleeps(jfc: urma_jfc_t, run: Seq<Turn<WaitRead>>) -> bool {
    forall|i: int|
        0 <= i < run.len() ==> {
            &&& (#[trigger] run[i]).call == if i % 2 == 0 {
                Call::PollJfc { jfc, max: 1 }
            } else {
                Call::Sleep { millis: POLL_INTERVAL }
            }
            &&& i % 2 == 0 && i < run.len() - 1 ==> found_nothing(run[i].reply)
        }
}

/// The poll was answered, and there was no record.
pub open spec fn found_nothing(reply: Reply) -> bool {
    reply matches Reply::Polled { n, .. } && n == 0
}

/// How a wait ends on the answer of its last poll.
pub open spec fn decided_by(
    reply: Reply,
    expected_ctx: u64,
    last: Step<WaitRead, Completion>,
) -> bool {
    &&& reply matches Reply::Polled { n, cr }
    &&& match last {
        Step::Ask(_, _) => false,
        Step::Done(Ok(c)) => n > 0 && c == completion_of(cr) && is_expected(c, expected_ctx),
        Step::Done(Err(e)) => if n < 0 {
            e@ == ErrorView::Status(n, "urma_poll_jfc"@)
        } else {
            &&& n > 0
            &&& !is_expected(completion_of(cr), expected_ctx)
            &&& e@ == (ErrorView::BadCompletion { status: cr.status, user_ctx: cr.user_ctx })
        },
    }
}

/// How a wait ended.
pub open spec fn wait_outcome(
    run: Seq<Turn<WaitRead>>,
    expected_ctx: u64,
    last: Step<WaitRead, Completion>,
) -> bool {
    if run.len() == 2 * POLL_RETRIES {
        last matches Step::Done(Err(e)) && e@ == (ErrorView::PollTimeout { user_ctx: expected_ctx })
    } else if last is Done {
        run.len() % 2 == 1 && decided_by(run.last().reply, expected_ctx, last)
    } else {
        true
    }
}

/// A wait polls at most [`POLL_RETRIES`] times and sleeps [`POLL_INTERVAL`] after
/// each poll that found nothing. It times out exactly when all of them found
/// nothing. The first record that is found decides it: the wait succeeds with
/// that record if it reports success for the expected user_ctx, and fails with
/// what the record says otherwise; a poll that fails ends it too.
pub proof fn law_wait_read(
    node: usize,
    jfc: urma_jfc_t,
    expected_ctx: u64,
    before: Session,
    run: Seq<Turn<WaitRead>>,
    last: Step<WaitRead, Completion>,
    after: Session,
)
    requires
        operation::leads_to(wait_start(node, jfc, expected_ctx), before, run, last, after),
    ensures
        after == before,
        run.len() <= 2 * POLL_RETRIES,
        polls_and_sleeps(jfc, run),
        wait_outcome(run, expected_ctx, last),
{
    lemma_wait(node, jfc, expected_ctx, before, run, last, after);
}

/// Besides what [`law_wait_read`] says: the state after each turn.
pub proof fn lemma_wait(
    node: usize,
    jfc: urma_jfc_t,
    expected_ctx: u64,
    before: Session,
    run: Seq<Turn<WaitRead>>,
    last: Step<WaitRead, Completion>,
    after: Session,
)
    requires
        operation::leads_to(wait_start(node, jfc, expected_ctx), before, run, last, after),
    ensures
        after == before,
        run.len() <= 2 * POLL_RETRIES,
        polls_and_sleeps(jfc, run),
        wait_outcome(run, expected_ctx, last),
        last matches Step::Ask(state, c) ==> {
            &&& state.node == node
            &&& state.jfc == jfc
            &&& state.expected_ctx == expected_ctx
            &&& state.polls_left == POLL_RETRIES - 1 - run.len() / 2
            &&& state.stage is Poll <==> run.len() % 2 == 0
            &&& c == if run.len() % 2 == 0 {
                Call::PollJfc { jfc, max: 1 }
            } else {
                Call::Sleep { millis: POLL_INTERVAL }
            }
            &&& run.len() % 2 == 1 ==> found_nothing(run.last().reply)
        },
    decreases run.len(),
{
    if run.len() > 0 {
        let turn = run.last();
        let earlier = run.drop_last();
        lemma_wait(
            node,
            jfc,
            expected_ctx,
            before,
            earlier,
            Step::Ask(turn.state, turn.call),
            turn.session,
        );
        assert forall|i: int| 0 <= i < run.len() - 1 implies (#[trigger] run[i]) == earlier[i] by {}
    }
}

} // verus!
