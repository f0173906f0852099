//! Completion queues: creating, polling, waiting.

use vstd::prelude::*;

use crate::call::{Call, Reply, Step};
use crate::error::{ErrorView, Result};
use crate::ffi::{urma_cr_t, urma_jfc_t, urma_jfce_t, URMA_CR_SUCCESS};
use crate::laws;
use crate::operation;
use crate::operation::Turn;
use crate::session::Session;
use crate::tree::Resource;
use crate::urma::completion;
use crate::urma::completion::{
    read_poll, Completion, CompletionQueue, PollOnce, QueueCreate, WaitRead,
};
use crate::urma::context::Context;
use crate::urma::value::{POLL_INTERVAL, POLL_RETRIES};

verus! {

/// A completion queue of the given depth is created on the context: a jfce, and a
/// jfc that reports to it. If the jfc cannot be created, the jfce is deleted, and
/// the error is that of the jfc.
pub proof fn law_queue_is_created(
    ctx: &Context,
    depth: u32,
    first: Step<QueueCreate, CompletionQueue>,
    before: Session,
    run: Seq<Turn<QueueCreate>>,
    last: Step<QueueCreate, CompletionQueue>,
    after: Session,
)
    requires
        call_ensures(CompletionQueue::new, (ctx, depth), first),
        operation::leads_to(first, before, run, last, after),
        before.tree().contains_key(ctx.id()),
    ensures
        operation::asked(run, last, 0) == Some(Call::CreateJfce { ctx: ctx.raw_ctx() }),
        operation::asked(run, last, 1) matches Some(c) ==> {
            &&& c matches Call::CreateJfc { ctx: on, cfg }
            &&& on == ctx.raw_ctx()
            &&& cfg.depth == depth
            &&& cfg.jfce.addr == run[0].reply->Pointer_addr
            &&& cfg.jfce.addr != 0
            &&& cfg.flag.value == 0
            &&& cfg.ceqn == 0
            &&& cfg.user_ctx == 0
        },
        operation::asked(run, last, 2) matches Some(c) ==> {
            &&& run[1].reply->Pointer_addr == 0
            &&& c matches Call::DeleteJfce { jfce }
            &&& jfce.addr == run[0].reply->Pointer_addr
        },
        run.len() <= 3,
        last matches Step::Done(Ok(cq)) ==> {
            &&& run.len() == 2
            &&& run[1].reply->Pointer_addr != 0
            &&& cq.raw_jfc().addr == run[1].reply->Pointer_addr
            &&& laws::created(
                before,
                after,
                cq.id(),
                ctx.id(),
                None,
                Resource::Queue {
                    jfce: urma_jfce_t { addr: run[0].reply->Pointer_addr },
                    jfc: urma_jfc_t { addr: run[1].reply->Pointer_addr },
                },
            )
        },
        last matches Step::Done(Err(e)) ==> {
            &&& after == before
            &&& if run[0].reply->Pointer_addr == 0 {
                &&& run.len() == 1
                &&& e@ == ErrorView::Null("urma_create_jfce"@, run[0].reply->Pointer_errno)
            } else {
                &&& run.len() == 3
                &&& e@ == ErrorView::Null("urma_create_jfc"@, run[1].reply->Pointer_errno)
            }
        },
        run.len() > 0 && run[0].reply->Pointer_addr == 0 ==> last is Done,
        run.len() > 1 && run[1].reply->Pointer_addr != 0 ==> last matches Step::Done(Ok(_)),
        run.len() == 3 ==> last is Done,
{
    operation::lemma_turns(first, before, run, last, after);
    if let Step::Done(Ok(cq)) = last {
        let resource = after.tree()[cq.id()].resource;
        laws::lemma_created(before, after, cq.id(), ctx.id(), None, resource);
    }
}

/// What a poll finds is what the record says: no record if there is none, and an
/// error if the count is negative.
pub proof fn law_poll_reads_the_record(n: i32, cr: urma_cr_t, r: Result<Option<Completion>>)
    requires
        call_ensures(read_poll, (n, cr), r),
    ensures
        n > 0 ==> {
            &&& r matches Ok(Some(c))
            &&& c.status == cr.status
            &&& c.user_ctx == cr.user_ctx
            &&& c.completion_len == cr.completion_len
        },
        n == 0 ==> r matches Ok(None),
        n < 0 ==> (r matches Err(e) && e@ == ErrorView::Status(n, "urma_poll_jfc"@)),
{
}

/// A poll asks the queue's own jfc for one record, once, and gives what it finds.
pub proof fn law_queue_is_polled(
    cq: &CompletionQueue,
    first: Step<PollOnce, Option<Completion>>,
    before: Session,
    run: Seq<Turn<PollOnce>>,
    last: Step<PollOnce, Option<Completion>>,
    after: Session,
)
    requires
        call_ensures(CompletionQueue::poll, (cq,), first),
        operation::leads_to(first, before, run, last, after),
    ensures
        operation::asked(run, last, 0) == Some(Call::PollJfc { jfc: cq.raw_jfc(), max: 1 }),
        run.len() <= 1,
        run.len() == 1 ==> {
            &&& after == before
            &&& run[0].reply matches Reply::Polled { n, cr }
            &&& n > 0 ==> {
                &&& last matches Step::Done(Ok(Some(c)))
                &&& c.status == cr.status
                &&& c.user_ctx == cr.user_ctx
                &&& c.completion_len == cr.completion_len
            }
            &&& n == 0 ==> last == Step::<PollOnce, Option<Completion>>::Done(Ok(None))
            &&& n < 0 ==> {
                &&& last matches Step::Done(Err(e))
                &&& e@ == ErrorView::Status(n, "urma_poll_jfc"@)
            }
        },
{
    operation::lemma_turns(first, before, run, last, after);
}

/// A wait that succeeds gives the record of the request that was waited for, and
/// that record reports success.
pub proof fn law_wait_gives_the_awaited_record(
    cq: &CompletionQueue,
    expected_ctx: u64,
    first: Step<WaitRead, Completion>,
    before: Session,
    run: Seq<Turn<WaitRead>>,
    last: Step<WaitRead, Completion>,
    after: Session,
)
    requires
        call_ensures(CompletionQueue::wait_read, (cq, expected_ctx), first),
        operation::leads_to(first, before, run, last, after),
    ensures
        after == before,
        last matches Step::Done(Ok(c)) ==> {
            &&& c.user_ctx == expected_ctx
            &&& c.status == URMA_CR_SUCCESS
            &&& run.len() > 0
            &&& run.last().reply matches Reply::Polled { n, cr }
            &&& n > 0
            &&& cr.user_ctx == expected_ctx
            &&& cr.status == URMA_CR_SUCCESS
            &&& c.completion_len == cr.completion_len
        },
{
    completion::law_wait_read(cq.id(), cq.raw_jfc(), expected_ctx, before, run, last, after);
}

/// The first record that a wait finds ends it. If it is that of the awaited request
/// and reports success, the wait succeeds with it; if it is that of any other
/// request, or does not report success, the wait fails with what it says. A poll
/// that fails ends the wait with its status.
pub proof fn law_wait_ends_with_the_first_record(
    cq: &CompletionQueue,
    expected_ctx: u64,
    first: Step<WaitRead, Completion>,
    before: Session,
    run: Seq<Turn<WaitRead>>,
    last: Step<WaitRead, Completion>,
    after: Session,
    i: int,
)
    requires
        call_ensures(CompletionQueue::wait_read, (cq, expected_ctx), first),
        operation::leads_to(first, before, run, last, after),
        0 <= i < run.len(),
    ensures
        run[i].reply matches Reply::Polled { n, cr } ==> n != 0 ==> {
            &&& i == run.len() - 1
            &&& n > 0 && cr.user_ctx == expected_ctx && cr.status == URMA_CR_SUCCESS ==> {
                &&& last matches Step::Done(Ok(c))
                &&& c.status == cr.status
                &&& c.user_ctx == cr.user_ctx
                &&& c.completion_len == cr.completion_len
            }
            &&& n > 0 && (cr.user_ctx != expected_ctx || cr.status != URMA_CR_SUCCESS) ==> {
                &&& last matches Step::Done(Err(e))
                &&& e@ == (ErrorView::BadCompletion { status: cr.status, user_ctx: cr.user_ctx })
            }
            &&& n < 0 ==> {
                &&& last matches Step::Done(Err(e))
                &&& e@ == ErrorView::Status(n, "urma_poll_jfc"@)
            }
        },
{
    completion::law_wait_read(cq.id(), cq.raw_jfc(), expected_ctx, before, run, last, after);
    operation::lemma_turn(first, before, run, last, after, i);
}

/// A wait polls the queue's own jfc for one record at a time and sleeps after each
/// poll that found none. It gives up exactly when the last of its polls found none.
pub proof fn law_wait_polls_until_it_gives_up(
    cq: &CompletionQueue,
    expected_ctx: u64,
    first: Step<WaitRead, Completion>,
    before: Session,
    run: Seq<Turn<WaitRead>>,
    last: Step<WaitRead, Completion>,
    after: Session,
    i: int,
)
    requires
        call_ensures(CompletionQueue::wait_read, (cq, expected_ctx), first),
        operation::leads_to(first, before, run, last, after),
    ensures
        operation::asked(run, last, i) matches Some(c) ==> {
            &&& i % 2 == 0 ==> c == (Call::PollJfc { jfc: cq.raw_jfc(), max: 1 })
            &&& i % 2 == 1 ==> c == (Call::Sleep { millis: POLL_INTERVAL })
            &&& i % 2 == 1 ==> {
                &&& run[i - 1].reply matches Reply::Polled { n, .. }
                &&& n == 0
            }
            &&& i < 2 * POLL_RETRIES
        },
        run.len() < 2 * POLL_RETRIES && run.len() % 2 == 0 ==> last is Ask,
        run.len() == 2 * POLL_RETRIES ==> (last matches Step::Done(Err(e)) && e@ == (
        ErrorView::PollTimeout { user_ctx: expected_ctx })),
        last matches Step::Done(Err(e)) ==> e@ is PollTimeout ==> run.len() == 2 * POLL_RETRIES,
{
    completion::lemma_wait(cq.id(), cq.raw_jfc(), expected_ctx, before, run, last, after);
    if run.len() > 0 {
        operation::lemma_turn(first, before, run, last, after, run.len() - 1);
    }
}

/// What a queue shows of itself.
pub proof fn law_queue_shows_itself(cq: &CompletionQueue, node: usize, jfc: urma_jfc_t)
    requires
        call_ensures(CompletionQueue::node, (cq,), node),
        call_ensures(CompletionQueue::jfc, (cq,), jfc),
    ensures
        node == cq.id(),
        jfc == cq.raw_jfc(),
{
}

/// A record reports success if its status is that of success.
pub proof fn law_success_is_a_status(c: &Completion, r: bool)
    requires
        call_ensures(Completion::is_success, (c,), r),
    ensures
        r == (c.status == URMA_CR_SUCCESS),
{
}

/// Another handle to a queue polls the same jfc, and is counted.
pub proof fn law_queue_is_shared(cq: &CompletionQueue, session: &mut Session, r: CompletionQueue)
    requires
        call_ensures(CompletionQueue::dup, (cq, session), r),
        old(session).tree().contains_key(cq.id()),
        old(session).tree()[cq.id()].handles < usize::MAX,
    ensures
        r.id() == cq.id(),
        r.raw_jfc() == cq.raw_jfc(),
        laws::counted_once_more(*old(session), *final(session), cq.id()),
{
    laws::lemma_counted(*old(session), *final(session), cq.id());
}

} // verus!
