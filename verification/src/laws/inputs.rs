//! What may be passed in: the inputs that are never turned away before they are
//! looked at.

use vstd::prelude::*;
use vstd::string::*;

use crate::call::{Call, Reply, Step};
use crate::error::Error;
use crate::ffi::{urma_cr_t, urma_device_cap_t, urma_eid_t, urma_jetty_id_t, urma_seg_t, Addr};
use crate::operation::Operation;
use crate::session::Session;
use crate::urma::blob::{align_words, BlobSource, ByteOrder};
use crate::urma::capability::{query_device, DeviceCap, TpType, TransMode};
use crate::urma::completion::{read_poll, CompletionQueue};
use crate::urma::context::Context;
use crate::urma::device::{decode_names, list_devices};
use crate::urma::init::Urma;
use crate::urma::jetty::{Jetty, JettyOpts};
use crate::urma::page::PageBuf;
use crate::urma::peer::Peer;
use crate::urma::segment::{LocalSge, RegisteredBuf, RegisteredSeg};
use crate::urma::value::{Eid, JettyId, SegDesc};

verus! {

/// Every answer of the awaited form carries an operation on, and what follows from it
/// is what the operation says.
pub proof fn law_every_answer_carries_on<O: Operation>(
    state: O,
    session: &mut Session,
    reply: Reply,
    r: Step<O, O::Output>,
)
    requires
        old(session).wf(),
        state.ready(old(session)),
        state.awaits(&reply),
    ensures
        call_requires(O::step, (state, session, reply)),
        call_ensures(O::step, (state, session, reply), r) ==> final(session).wf() && state.follows(
            reply,
            r,
            old(session),
            final(session),
        ),
{
}

/// Anything can be asked for on a context: queues and jettys with any options, memory
/// of any size at any place, and any peer.
pub proof fn law_anything_can_be_created(
    urma: &Urma,
    dev_name: &str,
    ctx: &Context,
    depth: u32,
    cq: &CompletionQueue,
    opts: JettyOpts,
    ptr: Addr,
    len: usize,
    token_value: u32,
    seg: SegDesc,
    jetty: JettyId,
    seg_ctx: &[u8],
    rjetty: &[u8],
    order: ByteOrder,
)
    ensures
        call_requires(Context::create, (urma, dev_name)),
        call_requires(CompletionQueue::new, (ctx, depth)),
        call_requires(Jetty::new, (ctx, cq, opts)),
        call_requires(RegisteredSeg::<()>::register, (ctx, ptr, len, token_value)),
        call_requires(RegisteredBuf::new, (ctx, len, token_value)),
        call_requires(PageBuf::new, (len,)),
        call_requires(Peer::import, (ctx, seg, jetty, token_value)),
        call_requires(Peer::import_ctx, (ctx, seg_ctx, rjetty, token_value, order)),
{
}

/// Anything can be posted, polled, waited for and exported.
pub proof fn law_anything_can_be_posted<B>(
    j: &Jetty,
    peer: &Peer,
    remote_va: u64,
    local: &[LocalSge<'_>],
    user_ctx: u64,
    cq: &CompletionQueue,
    seg: &RegisteredSeg<B>,
    raw: urma_seg_t,
)
    ensures
        call_requires(Jetty::check_local, (j, local)),
        call_requires(Jetty::post_read, (j, peer, remote_va, local, user_ctx)),
        call_requires(Jetty::post_send, (j, peer, local, user_ctx)),
        call_requires(Jetty::post_recv, (j, local, user_ctx)),
        call_requires(Jetty::export_rjetty, (j,)),
        call_requires(CompletionQueue::poll, (cq,)),
        call_requires(CompletionQueue::wait_read, (cq, user_ctx)),
        call_requires(RegisteredSeg::<B>::export_seg_ctx, (seg,)),
        call_requires(RegisteredSeg::<B>::descriptor, (seg, raw)),
{
}

/// Any window can be asked for of a segment that ends where addresses do, or before.
pub proof fn law_any_window_can_be_asked_for<B>(seg: &RegisteredSeg<B>, off: usize, len: u32)
    requires
        seg.start() + seg.size() <= u64::MAX,
    ensures
        call_requires(LocalSge::new::<B>, (seg, off, len)),
        call_requires(RegisteredSeg::<B>::sge, (seg, off, len)),
{
}

/// A thread that can initialize the library can list and query its devices, and any
/// handle can be dropped at any time.
pub proof fn law_a_thread_can_start_and_end(session: &mut Session, dev_name: &str, id: usize)
    requires
        old(session).wf(),
    ensures
        old(session).may_init() ==> call_requires(Urma::init, (session,)),
        old(session).may_init() ==> call_requires(list_devices, (session,)),
        old(session).may_init() ==> call_requires(query_device, (session, dev_name)),
        call_requires(Session::release, (session, id)),
        call_requires(Session::finish, (session,)),
{
}

/// Any value can be read, shown and checked.
pub proof fn law_any_value_can_be_read(
    n: i32,
    cr: urma_cr_t,
    names: &Vec<Option<Vec<u8>>>,
    raw: &urma_device_cap_t,
    cap: &DeviceCap,
    mode: TransMode,
    tp: TpType,
    bytes: &[u8],
    order: ByteOrder,
    source: BlobSource,
    blob: Vec<u8>,
    eid: &Eid,
    raw_eid: &urma_eid_t,
    raw_id: &urma_jetty_id_t,
    e: &Error,
    os_text: &str,
    c: &Call,
    reply: &Reply,
)
    ensures
        call_requires(read_poll, (n, cr)),
        call_requires(decode_names, (names,)),
        call_requires(DeviceCap::from_raw, (raw,)),
        call_requires(DeviceCap::supports, (cap, mode, tp)),
        call_requires(DeviceCap::supported_combos, (cap,)),
        call_requires(align_words, (bytes, order)),
        call_requires(BlobSource::check_blob, (source, blob)),
        call_requires(Eid::to_string, (eid,)),
        call_requires(urma_eid_t::to_debug_string, (raw_eid,)),
        call_requires(JettyId::from_raw, (raw_id,)),
        call_requires(Error::render, (e, os_text)),
        call_requires(Error::to_string, (e,)),
        call_requires(Call::is_answered_by, (c, reply)),
{
}

} // verus!
