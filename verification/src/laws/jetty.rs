//! Jettys: creating them, and posting on them.

use vstd::prelude::*;

use crate::call::{Call, Reply, Step};
use crate::error::{ErrorView, Result};
use crate::ffi::{
    urma_jfr_t, urma_sg_t, urma_sge_t, URMA_JETTY_FLAG_SHARE_JFR, URMA_JFS_WR_FLAG_COMPLETE_ENABLE,
    URMA_MAX_PRIORITY, URMA_OPC_READ, URMA_OPC_SEND, URMA_SUCCESS, URMA_TM_RM,
    URMA_TYPICAL_ERR_TIMEOUT, URMA_TYPICAL_MIN_RNR_TIMER, URMA_TYPICAL_RNR_RETRY,
};
use crate::laws;
use crate::operation;
use crate::operation::Turn;
use crate::session::Session;
use crate::text;
use crate::tree::Resource;
use crate::urma::completion::CompletionQueue;
use crate::urma::context::Context;
use crate::urma::jetty;
use crate::urma::jetty::{Jetty, JettyCreate, JettyOpts, Post};
use crate::urma::peer::Peer;
use crate::urma::segment::LocalSge;
use crate::urma::value::{JettyId, DEFAULT_DEPTH, TOKEN_VALUE};

verus! {

/// The jfr that a jetty shares is created on the jetty's context, for the jetty's
/// queue, with the options of the caller: their depth, their limit of elements, and
/// the token that peers are held to.
pub proof fn law_jfr_has_the_callers_options(
    ctx: &Context,
    cq: &CompletionQueue,
    opts: JettyOpts,
    first: Step<JettyCreate, Jetty>,
)
    requires
        call_ensures(Jetty::new, (ctx, cq, opts), first),
    ensures
        first matches Step::Ask(_, c) && (c matches Call::CreateJfr { ctx: on, cfg } && {
            &&& on == ctx.raw_ctx()
            &&& cfg.jfc == cq.raw_jfc()
            &&& cfg.depth == opts.depth
            &&& cfg.max_sge == opts.max_sge
            &&& cfg.token_value.token == opts.token_value
            &&& cfg.trans_mode == URMA_TM_RM
            &&& cfg.min_rnr_timer == URMA_TYPICAL_MIN_RNR_TIMER
            &&& cfg.id == 0
            &&& cfg.flag.value == 0
            &&& cfg.user_ctx == 0
        }),
{
}

/// The jetty is created on the same context and queue, with the same options, and
/// on the jfr that was just made. It shares that jfr, and it uses several paths
/// exactly if the caller asked for that.
pub proof fn law_jetty_has_the_callers_options(
    ctx: &Context,
    cq: &CompletionQueue,
    opts: JettyOpts,
    first: Step<JettyCreate, Jetty>,
    before: Session,
    run: Seq<Turn<JettyCreate>>,
    last: Step<JettyCreate, Jetty>,
    after: Session,
)
    requires
        call_ensures(Jetty::new, (ctx, cq, opts), first),
        operation::leads_to(first, before, run, last, after),
    ensures
        operation::asked(run, last, 0) matches Some(c) && c is CreateJfr,
        operation::asked(run, last, 1) matches Some(c) ==> {
            &&& run[0].reply->Pointer_addr != 0
            &&& c matches Call::CreateJetty { ctx: on, cfg }
            &&& on == ctx.raw_ctx()
            &&& cfg.recv.jfr.addr == run[0].reply->Pointer_addr
            &&& cfg.recv.jfc.addr == 0
            &&& cfg.flag.value == URMA_JETTY_FLAG_SHARE_JFR
            &&& cfg.id == 0
            &&& cfg.jetty_grp.addr == 0
            &&& cfg.user_ctx == 0
            &&& cfg.jfs_cfg.jfc == cq.raw_jfc()
            &&& cfg.jfs_cfg.depth == opts.depth
            &&& cfg.jfs_cfg.max_sge == opts.max_sge
            &&& cfg.jfs_cfg.trans_mode == URMA_TM_RM
            &&& cfg.jfs_cfg.priority == URMA_MAX_PRIORITY
            &&& cfg.jfs_cfg.rnr_retry == URMA_TYPICAL_RNR_RETRY
            &&& cfg.jfs_cfg.err_timeout == URMA_TYPICAL_ERR_TIMEOUT
            &&& cfg.jfs_cfg.max_rsge == 0
            &&& cfg.jfs_cfg.max_inline_data == 0
            &&& cfg.jfs_cfg.user_ctx == 0
            &&& opts.multi_path ==> cfg.jfs_cfg.flag.value == 0x800
            &&& !opts.multi_path ==> cfg.jfs_cfg.flag.value == 0
        },
        run.len() > 0 && run[0].reply->Pointer_addr != 0 ==> operation::asked(
            run,
            last,
            1,
        ) is Some,
{
    operation::lemma_turns(first, before, run, last, after);
}

/// What comes of creating a jetty: its identifier is the one that the library found
/// for it, its lists may be as long as the caller asked for, and it hangs below its
/// queue and on its context. If it cannot be created, its jfr is deleted, and the
/// error is that of the jetty.
pub proof fn law_jetty_is_created(
    ctx: &Context,
    cq: &CompletionQueue,
    opts: JettyOpts,
    first: Step<JettyCreate, Jetty>,
    before: Session,
    run: Seq<Turn<JettyCreate>>,
    last: Step<JettyCreate, Jetty>,
    after: Session,
)
    requires
        call_ensures(Jetty::new, (ctx, cq, opts), first),
        operation::leads_to(first, before, run, last, after),
        before.tree().contains_key(ctx.id()),
        before.tree().contains_key(cq.id()),
    ensures
        run.len() <= 3,
        operation::asked(run, last, 2) matches Some(c) ==> {
            &&& run[1].reply->Jetty_addr == 0
            &&& c matches Call::DeleteJfr { jfr }
            &&& jfr.addr == run[0].reply->Pointer_addr
        },
        last matches Step::Done(Ok(j)) ==> {
            &&& run.len() == 2
            &&& run[1].reply->Jetty_addr != 0
            &&& j.raw_jetty() == run[1].reply->Jetty_addr
            &&& j.raw_jfr().addr == run[0].reply->Pointer_addr
            &&& j.own_id().eid.0 == run[1].reply->Jetty_jetty_id.eid.raw
            &&& j.own_id().uasid == run[1].reply->Jetty_jetty_id.uasid
            &&& j.own_id().id == run[1].reply->Jetty_jetty_id.id
            &&& j.sge_limit() == opts.max_sge
            &&& laws::created(
                before,
                after,
                j.node_id(),
                cq.id(),
                Some(ctx.id()),
                Resource::Jetty {
                    jfr: urma_jfr_t { addr: run[0].reply->Pointer_addr },
                    jetty: run[1].reply->Jetty_addr,
                },
            )
        },
        last matches Step::Done(Err(e)) ==> {
            &&& after == before
            &&& if run[0].reply->Pointer_addr == 0 {
                &&& run.len() == 1
                &&& e@ == ErrorView::Null("urma_create_jfr"@, run[0].reply->Pointer_errno)
            } else {
                &&& run.len() == 3
                &&& e@ == ErrorView::Null("urma_create_jetty"@, run[1].reply->Jetty_errno)
            }
        },
        run.len() > 0 && run[0].reply->Pointer_addr == 0 ==> last is Done,
        run.len() > 1 && run[1].reply->Jetty_addr != 0 ==> last matches Step::Done(Ok(_)),
        run.len() == 3 ==> last is Done,
{
    operation::lemma_turns(first, before, run, last, after);
    if let Step::Done(Ok(j)) = last {
        let resource = after.tree()[j.node_id()].resource;
        laws::lemma_created(before, after, j.node_id(), cq.id(), Some(ctx.id()), resource);
    }
}

/// The identifier that a jetty shows is the one it has.
pub proof fn law_jetty_shows_its_id(j: &Jetty, id: JettyId, node: usize)
    requires
        call_ensures(Jetty::id, (j,), id),
        call_ensures(Jetty::node, (j,), node),
    ensures
        id == j.own_id(),
        node == j.node_id(),
{
}

/// Options that nobody chose.
pub proof fn law_default_options(opts: JettyOpts)
    requires
        call_ensures(JettyOpts::default, (), opts),
    ensures
        opts.depth == DEFAULT_DEPTH,
        opts.token_value == TOKEN_VALUE,
        opts.max_sge == 1,
        !opts.multi_path,
{
}

/* ============================== Work requests ============================== */

/// How many bytes the elements of a list have together.
pub open spec fn bytes_in(list: Seq<urma_sge_t>) -> nat
    decreases list.len(),
{
    if list.len() == 0 {
        0
    } else {
        bytes_in(list.drop_last()) + list.last().len as nat
    }
}

/// The list is made of the windows, one by one and in their order: each element has
/// the address, the length and the segment of its window, and the C side is told of
/// all of them.
pub open spec fn made_of(list: urma_sg_t, local: Seq<LocalSge<'_>>) -> bool {
    &&& list.num_sge == local.len()
    &&& list.sge@.len() == local.len()
    &&& forall|i: int|
        0 <= i < local.len() ==> {
            &&& (#[trigger] list.sge@[i]).addr == local[i].element().addr
            &&& list.sge@[i].len == local[i].element().len
            &&& list.sge@[i].tseg == local[i].element().tseg
            &&& list.sge@[i].user_tseg.addr == 0
        }
}

/// How many bytes the windows have together.
pub open spec fn bytes_of(local: Seq<LocalSge<'_>>) -> nat
    decreases local.len(),
{
    if local.len() == 0 {
        0
    } else {
        bytes_of(local.drop_last()) + local.last().element().len as nat
    }
}

proof fn lemma_bytes_of(local: Seq<LocalSge<'_>>)
    ensures
        bytes_of(local) == jetty::total_len(local),
    decreases local.len(),
{
    if local.len() > 0 {
        lemma_bytes_of(local.drop_last());
    }
}

proof fn lemma_bytes_in(list: Seq<urma_sge_t>, local: Seq<LocalSge<'_>>)
    requires
        list.len() == local.len(),
        forall|i: int| 0 <= i < local.len() ==> (#[trigger] list[i]).len == local[i].element().len,
    ensures
        bytes_in(list) == bytes_of(local),
    decreases local.len(),
{
    if local.len() > 0 {
        let (a, b) = (list.drop_last(), local.drop_last());
        assert forall|i: int| 0 <= i < b.len() implies (#[trigger] a[i]).len
            == b[i].element().len by {
            assert(a[i] == list[i] && b[i] == local[i]);
        }
        lemma_bytes_in(a, b);
        assert(list.last() == list[list.len() - 1]);
    }
}

/// What is wrong with a list of windows, whatever it is for: there is none, or there
/// are more than the jetty was created for.
pub open spec fn refused(j: &Jetty, local: Seq<LocalSge<'_>>, e: ErrorView) -> bool {
    ||| local.len() == 0 && e == ErrorView::Invalid("empty local sge list"@)
    ||| local.len() > j.sge_limit() && e == ErrorView::Invalid(
        text::decimal(local.len() as int) + " local sges exceed max_sge "@ + text::decimal(
            j.sge_limit() as int,
        ) + " (see JettyOpts::max_sge)"@,
    )
}

/// A list of windows is accepted exactly if it is not empty and no longer than the
/// jetty was created for; then its elements are the windows.
pub proof fn law_local_list_is_checked(
    j: &Jetty,
    local: &[LocalSge<'_>],
    r: Result<Vec<urma_sge_t>>,
)
    requires
        call_ensures(Jetty::check_local, (j, local), r),
    ensures
        r is Ok <==> 0 < local@.len() <= j.sge_limit(),
        r matches Err(e) ==> refused(j, local@, e@),
        r matches Ok(sges) ==> {
            &&& sges@.len() == local@.len()
            &&& forall|i: int|
                0 <= i < local@.len() ==> {
                    &&& (#[trigger] sges@[i]).addr == local@[i].element().addr
                    &&& sges@[i].len == local@[i].element().len
                    &&& sges@[i].tseg == local@[i].element().tseg
                    &&& sges@[i].user_tseg.addr == 0
                }
        },
{
}

/// A READ takes one remote range and scatters it over the windows: each element of
/// the destination is its window, and the remote range is as long as all of them
/// together. It is for the peer, it reports completion under the caller's context,
/// and it is posted on the jetty itself.
pub proof fn law_read_is_posted(
    j: &Jetty,
    peer: &Peer,
    remote_va: u64,
    local: &[LocalSge<'_>],
    user_ctx: u64,
    first: Step<Post, ()>,
)
    requires
        call_ensures(Jetty::post_read, (j, peer, remote_va, local, user_ctx), first),
    ensures
        first is Ask <==> 0 < local@.len() <= j.sge_limit() && bytes_of(local@) <= u32::MAX,
        first matches Step::Ask(_, c) ==> {
            &&& c matches Call::PostJettySendWr { jetty: on, wr }
            &&& on == j.raw_jetty()
            &&& wr.opcode == URMA_OPC_READ
            &&& wr.tjetty == peer.raw_tjetty()
            &&& wr.user_ctx == user_ctx
            &&& wr.flag.value == URMA_JFS_WR_FLAG_COMPLETE_ENABLE
            &&& wr.next == 0
            &&& made_of(wr.rw.dst, local@)
            &&& wr.rw.src.num_sge == 1
            &&& wr.rw.src.sge@.len() == 1
            &&& wr.rw.src.sge@[0].addr == remote_va
            &&& wr.rw.src.sge@[0].tseg == peer.raw_tseg()
            &&& wr.rw.src.sge@[0].len == bytes_in(wr.rw.dst.sge@)
            &&& wr.rw.src.sge@[0].user_tseg.addr == 0
            &&& wr.rw.target_hint == 0
            &&& wr.rw.notify_data == 0
        },
        first matches Step::Done(r) ==> {
            &&& r matches Err(e)
            &&& if 0 < local@.len() <= j.sge_limit() {
                e@ == ErrorView::Invalid("total local sge length overflows u32"@)
            } else {
                refused(j, local@, e@)
            }
        },
{
    lemma_bytes_of(local@);
    if let Step::Ask(_, c) = first {
        let dst = c->PostJettySendWr_wr.rw.dst;
        assert forall|i: int| 0 <= i < local@.len() implies {
            &&& (#[trigger] dst.sge@[i]).addr == local@[i].element().addr
            &&& dst.sge@[i].len == local@[i].element().len
            &&& dst.sge@[i].tseg == local@[i].element().tseg
            &&& dst.sge@[i].user_tseg.addr == 0
        } by {
            local@[i].law_window_has_no_user_tseg();
        }
        lemma_bytes_in(dst.sge@, local@);
    }
}

/// A SEND gathers the windows for the peer; nothing else goes with it.
pub proof fn law_send_is_posted(
    j: &Jetty,
    peer: &Peer,
    local: &[LocalSge<'_>],
    user_ctx: u64,
    first: Step<Post, ()>,
)
    requires
        call_ensures(Jetty::post_send, (j, peer, local, user_ctx), first),
    ensures
        first is Ask <==> 0 < local@.len() <= j.sge_limit(),
        first matches Step::Ask(_, c) ==> {
            &&& c matches Call::PostJettySendWr { jetty: on, wr }
            &&& on == j.raw_jetty()
            &&& wr.opcode == URMA_OPC_SEND
            &&& wr.tjetty == peer.raw_tjetty()
            &&& wr.user_ctx == user_ctx
            &&& wr.flag.value == URMA_JFS_WR_FLAG_COMPLETE_ENABLE
            &&& wr.next == 0
            &&& made_of(wr.rw.src, local@)
            &&& wr.rw.dst.num_sge == 0
            &&& wr.rw.dst.sge@.len() == 0
            &&& wr.rw.target_hint == 0
            &&& wr.rw.notify_data == 0
        },
        first matches Step::Done(r) ==> r matches Err(e) && refused(j, local@, e@),
{
    if let Step::Ask(_, c) = first {
        let src = c->PostJettySendWr_wr.rw.src;
        assert forall|i: int| 0 <= i < local@.len() implies {
            &&& (#[trigger] src.sge@[i]).addr == local@[i].element().addr
            &&& src.sge@[i].len == local@[i].element().len
            &&& src.sge@[i].tseg == local@[i].element().tseg
            &&& src.sge@[i].user_tseg.addr == 0
        } by {
            local@[i].law_window_has_no_user_tseg();
        }
    }
}

/// A receive is posted on the jetty's jfr, and what arrives lands in the windows.
pub proof fn law_receive_is_posted(
    j: &Jetty,
    local: &[LocalSge<'_>],
    user_ctx: u64,
    first: Step<Post, ()>,
)
    requires
        call_ensures(Jetty::post_recv, (j, local, user_ctx), first),
    ensures
        first is Ask <==> 0 < local@.len() <= j.sge_limit(),
        first matches Step::Ask(_, c) ==> {
            &&& c matches Call::PostJfrWr { jfr: on, wr }
            &&& on == j.raw_jfr()
            &&& wr.user_ctx == user_ctx
            &&& wr.next == 0
            &&& made_of(wr.src, local@)
        },
        first matches Step::Done(r) ==> r matches Err(e) && refused(j, local@, e@),
{
    if let Step::Ask(_, c) = first {
        let src = c->PostJfrWr_wr.src;
        assert forall|i: int| 0 <= i < local@.len() implies {
            &&& (#[trigger] src.sge@[i]).addr == local@[i].element().addr
            &&& src.sge@[i].len == local@[i].element().len
            &&& src.sge@[i].tseg == local@[i].element().tseg
            &&& src.sge@[i].user_tseg.addr == 0
        } by {
            local@[i].law_window_has_no_user_tseg();
        }
    }
}

/// A work request is posted if the library says so, and fails with the status that
/// the library gave and the name of the call otherwise.
pub open spec fn posted(
    what: Seq<char>,
    before: Session,
    run: Seq<Turn<Post>>,
    last: Step<Post, ()>,
    after: Session,
) -> bool {
    &&& after == before
    &&& run.len() <= 1
    &&& run.len() == 1 ==> {
        &&& run[0].reply matches Reply::Status(st)
        &&& st == URMA_SUCCESS ==> last is Done && last->Done_0 is Ok
        &&& st != URMA_SUCCESS ==> last is Done && last->Done_0 is Err && last->Done_0->Err_0@
            == ErrorView::Status(st, what)
    }
}

/// See [`posted`], for a READ.
pub proof fn law_read_reports_the_status(
    j: &Jetty,
    peer: &Peer,
    remote_va: u64,
    local: &[LocalSge<'_>],
    user_ctx: u64,
    first: Step<Post, ()>,
    before: Session,
    run: Seq<Turn<Post>>,
    last: Step<Post, ()>,
    after: Session,
)
    requires
        call_ensures(Jetty::post_read, (j, peer, remote_va, local, user_ctx), first),
        operation::leads_to(first, before, run, last, after),
    ensures
        posted("urma_post_jetty_send_wr(READ)"@, before, run, last, after),
{
    operation::lemma_turns(first, before, run, last, after);
}

/// See [`posted`], for a SEND.
pub proof fn law_send_reports_the_status(
    j: &Jetty,
    peer: &Peer,
    local: &[LocalSge<'_>],
    user_ctx: u64,
    first: Step<Post, ()>,
    before: Session,
    run: Seq<Turn<Post>>,
    last: Step<Post, ()>,
    after: Session,
)
    requires
        call_ensures(Jetty::post_send, (j, peer, local, user_ctx), first),
        operation::leads_to(first, before, run, last, after),
    ensures
        posted("urma_post_jetty_send_wr(SEND)"@, before, run, last, after),
{
    operation::lemma_turns(first, before, run, last, after);
}

/// See [`posted`], for a receive.
pub proof fn law_receive_reports_the_status(
    j: &Jetty,
    local: &[LocalSge<'_>],
    user_ctx: u64,
    first: Step<Post, ()>,
    before: Session,
    run: Seq<Turn<Post>>,
    last: Step<Post, ()>,
    after: Session,
)
    requires
        call_ensures(Jetty::post_recv, (j, local, user_ctx), first),
        operation::leads_to(first, before, run, last, after),
    ensures
        posted("urma_post_jfr_wr"@, before, run, last, after),
{
    operation::lemma_turns(first, before, run, last, after);
}

} // verus!
