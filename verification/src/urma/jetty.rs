//! Jettys, and the work requests that are posted on them.

use vstd::prelude::*;
use vstd::string::*;

use crate::call;
use crate::call::{Call, Effect, Kind, Object, Reply, Step};
use crate::error::{check_status, null_err, Error, ErrorView, Result};
use crate::ffi;
use crate::ffi::{
    urma_context_t, urma_jetty_cfg_t, urma_jetty_flag_t, urma_jetty_grp_t, urma_jetty_recv_cfg_t,
    urma_jfc_t, urma_jfr_cfg_t, urma_jfr_flag_t, urma_jfr_t, urma_jfr_wr_t, urma_jfs_cfg_t,
    urma_jfs_flag_t, urma_jfs_wr_flag_t, urma_jfs_wr_t, urma_rw_wr_t, urma_sg_t, urma_sge_t,
    urma_token_t, urma_user_tseg_t, Addr, URMA_JETTY_FLAG_SHARE_JFR, URMA_JFS_FLAG_MULTI_PATH,
    URMA_JFS_WR_FLAG_COMPLETE_ENABLE, URMA_MAX_PRIORITY, URMA_OPC_READ, URMA_OPC_SEND,
    URMA_SUCCESS, URMA_TM_RM, URMA_TYPICAL_ERR_TIMEOUT, URMA_TYPICAL_MIN_RNR_TIMER,
    URMA_TYPICAL_RNR_RETRY,
};
use crate::operation;
use crate::operation::{Operation, Request};
use crate::session::Session;
use crate::text;
use crate::text::push_decimal;
use crate::tree;
use crate::tree::Resource;
use crate::urma::blob::{BlobExport, BlobSource, ExportStage};
use crate::urma::completion::CompletionQueue;
use crate::urma::context::Context;
use crate::urma::peer::Peer;
use crate::urma::segment::LocalSge;
use crate::urma::value::{JettyId, DEFAULT_DEPTH, TOKEN_VALUE};

verus! {

/// jetty creation parameters
#[derive(Clone, Copy, Debug)]
pub struct JettyOpts {
    pub depth: u32,
    /// Must be true for bonding devices + RM mode
    pub multi_path: bool,
    /// Plain token value (`urma_token_t`), matched by the peer on import
    pub token_value: u32,
    /// Max local sges per work request (scatter/gather list length), applied to
    /// both the jfs and the shared jfr; the driver validates it against the
    /// device capabilities (`max_jfs_sge` / `max_jfr_sge`, typically 13+ / 4+).
    /// 1 (default) disables scatter/gather.
    pub max_sge: u8,
}

impl Default for JettyOpts {
    fn default() -> (r: Self)
        ensures
            r == (JettyOpts {
                depth: DEFAULT_DEPTH,
                multi_path: false,
                token_value: TOKEN_VALUE,
                max_sge: 1,
            }),
    {
        JettyOpts { depth: DEFAULT_DEPTH, multi_path: false, token_value: TOKEN_VALUE, max_sge: 1 }
    }
}

/// jfr + jetty (communication endpoint created in shared-jfr mode). It keeps both
/// its completion queue and the context that it was created on alive until the
/// jetty and the jfr are deleted.
pub struct Jetty {
    node: usize,
    jfr: urma_jfr_t,
    raw: Addr,
    id: JettyId,
    max_sge: u8,
}

/// Where the creation of a jetty stands.
pub enum JettyStage {
    /// The jfr is created
    Jfr,
    /// The jetty is created on it
    Jetty { jfr: urma_jfr_t },
    /// The jetty could not be created; the jfr is deleted again
    Undo { jfr: urma_jfr_t, errno: i32 },
}

/// A jetty is being created: below its completion queue, and on its context.
pub struct JettyCreate {
    pub parent: usize,
    pub context: usize,
    pub ctx: urma_context_t,
    pub jfc: urma_jfc_t,
    pub opts: JettyOpts,
    pub stage: JettyStage,
}

/// The parameters of the jfr: RM, NO_TAG_MATCHING + order 0; id = 0 means
/// assigned by the system.
pub open spec fn jfr_cfg(jfc: urma_jfc_t, opts: JettyOpts) -> urma_jfr_cfg_t {
    urma_jfr_cfg_t {
        id: 0,
        depth: opts.depth,
        flag: urma_jfr_flag_t { value: 0 },
        trans_mode: URMA_TM_RM,
        max_sge: opts.max_sge,
        min_rnr_timer: URMA_TYPICAL_MIN_RNR_TIMER,
        jfc,
        token_value: urma_token_t { token: opts.token_value },
        user_ctx: 0,
    }
}

/// The flag of the jfs: default order type, and multi-path as asked for.
pub open spec fn jfs_flag(multi_path: bool) -> urma_jfs_flag_t {
    urma_jfs_flag_t {
        value: if multi_path {
            URMA_JFS_FLAG_MULTI_PATH
        } else {
            0
        },
    }
}

/// The parameters of the jetty: RM, on the shared jfr.
pub open spec fn jetty_cfg(jfc: urma_jfc_t, jfr: urma_jfr_t, opts: JettyOpts) -> urma_jetty_cfg_t {
    urma_jetty_cfg_t {
        id: 0,
        flag: urma_jetty_flag_t { value: URMA_JETTY_FLAG_SHARE_JFR },
        jfs_cfg: urma_jfs_cfg_t {
            depth: opts.depth,
            flag: jfs_flag(opts.multi_path),
            trans_mode: URMA_TM_RM,
            priority: URMA_MAX_PRIORITY,
            max_sge: opts.max_sge,
            max_rsge: 0,
            max_inline_data: 0,
            rnr_retry: URMA_TYPICAL_RNR_RETRY,
            err_timeout: URMA_TYPICAL_ERR_TIMEOUT,
            jfc,
            user_ctx: 0,
        },
        recv: urma_jetty_recv_cfg_t { jfr, jfc: urma_jfc_t { addr: 0 } },
        jetty_grp: urma_jetty_grp_t { addr: 0 },
        user_ctx: 0,
    }
}

fn make_jfr_cfg(jfc: urma_jfc_t, opts: JettyOpts) -> (r: urma_jfr_cfg_t)
    ensures
        r == jfr_cfg(jfc, opts),
{
    urma_jfr_cfg_t {
        id: 0,
        depth: opts.depth,
        flag: urma_jfr_flag_t { value: 0 },
        trans_mode: URMA_TM_RM,
        max_sge: opts.max_sge,
        min_rnr_timer: URMA_TYPICAL_MIN_RNR_TIMER,
        jfc,
        token_value: urma_token_t { token: opts.token_value },
        user_ctx: 0,
    }
}

fn make_jetty_cfg(jfc: urma_jfc_t, jfr: urma_jfr_t, opts: JettyOpts) -> (r: urma_jetty_cfg_t)
    ensures
        r == jetty_cfg(jfc, jfr, opts),
        r.jfs_cfg.flag.order_type_field() == 0,
        ffi::bit(r.jfs_cfg.flag.value, 11) == opts.multi_path,
{
    let flag = urma_jfs_flag_t { value: 0 }.with_order_type(0).with_multi_path(opts.multi_path);
    proof {
        assert((0u32 & !0x7f8) | (0u32 << 3) == 0) by (bit_vector);
        assert(0u32 | 0x800 == 0x800 && 0u32 & !0x800u32 == 0) by (bit_vector);
        assert((0x800u32 >> 3) & 0xff == 0 && (0u32 >> 3) & 0xff == 0) by (bit_vector);
    }
    urma_jetty_cfg_t {
        id: 0,
        flag: urma_jetty_flag_t { value: URMA_JETTY_FLAG_SHARE_JFR },
        jfs_cfg: urma_jfs_cfg_t {
            depth: opts.depth,
            flag,
            trans_mode: URMA_TM_RM,
            priority: URMA_MAX_PRIORITY,
            max_sge: opts.max_sge,
            max_rsge: 0,
            max_inline_data: 0,
            rnr_retry: URMA_TYPICAL_RNR_RETRY,
            err_timeout: URMA_TYPICAL_ERR_TIMEOUT,
            jfc,
            user_ctx: 0,
        },
        recv: urma_jetty_recv_cfg_t { jfr, jfc: urma_jfc_t { addr: 0 } },
        jetty_grp: urma_jetty_grp_t { addr: 0 },
        user_ctx: 0,
    }
}

/* ============================== Work requests ============================== */

/// The elements of a list of windows, as the C library takes them.
pub open spec fn elements(local: Seq<LocalSge<'_>>) -> Seq<urma_sge_t> {
    local.map_values(|s: LocalSge<'_>| s.element())
}

/// How many bytes the windows have together.
pub open spec fn total_len(local: Seq<LocalSge<'_>>) -> nat
    decreases local.len(),
{
    if local.len() == 0 {
        0
    } else {
        total_len(local.drop_last()) + local.last().element().len as nat
    }
}

/// Adding windows adds bytes.
proof fn lemma_total_grows(local: Seq<LocalSge<'_>>, i: int)
    requires
        0 <= i <= local.len(),
    ensures
        total_len(local.take(i)) <= total_len(local),
    decreases local.len() - i,
{
    if i < local.len() {
        lemma_total_grows(local, i + 1);
        assert(local.take(i + 1).drop_last() =~= local.take(i));
    } else {
        assert(local.take(i) =~= local);
    }
}

/// A list of elements, as the C library takes it.
pub open spec fn is_list(sg: urma_sg_t, elements: Seq<urma_sge_t>) -> bool {
    sg.sge@ == elements && sg.num_sge == elements.len()
}

/// What is wrong with a local sge list, if anything.
pub open spec fn local_fault(n: int, max_sge: u8) -> Option<ErrorView> {
    if n == 0 {
        Some(ErrorView::Invalid("empty local sge list"@))
    } else if n > max_sge {
        Some(
            ErrorView::Invalid(
                text::decimal(n) + " local sges exceed max_sge "@ + text::decimal(max_sge as int)
                    + " (see JettyOpts::max_sge)"@,
            ),
        )
    } else {
        None
    }
}

/// What is wrong with the local sge list of a READ, if anything.
pub open spec fn read_fault(local: Seq<LocalSge<'_>>, max_sge: u8) -> Option<ErrorView> {
    match local_fault(local.len() as int, max_sge) {
        Some(e) => Some(e),
        None => if total_len(local) > u32::MAX {
            Some(ErrorView::Invalid("total local sge length overflows u32"@))
        } else {
            None
        },
    }
}

/// A one-sided READ: src is the one remote range, dst the local list.
pub open spec fn is_read(
    wr: urma_jfs_wr_t,
    peer: &Peer,
    remote_va: u64,
    local: Seq<LocalSge<'_>>,
    user_ctx: u64,
) -> bool {
    &&& wr.opcode == URMA_OPC_READ
    &&& wr.flag.value == URMA_JFS_WR_FLAG_COMPLETE_ENABLE
    &&& wr.tjetty == peer.raw_tjetty()
    &&& wr.user_ctx == user_ctx
    &&& is_list(
        wr.rw.src,
        seq![
            urma_sge_t {
                addr: remote_va,
                len: total_len(local) as u32,
                tseg: peer.raw_tseg(),
                user_tseg: urma_user_tseg_t { addr: 0 },
            },
        ],
    )
    &&& is_list(wr.rw.dst, elements(local))
    &&& wr.rw.target_hint == 0
    &&& wr.rw.notify_data == 0
    &&& wr.next == 0
}

/// A plain two-sided SEND of the local list: it reuses rw.src (union offset 0),
/// and the other union members stay 0.
pub open spec fn is_send(
    wr: urma_jfs_wr_t,
    peer: &Peer,
    local: Seq<LocalSge<'_>>,
    user_ctx: u64,
) -> bool {
    &&& wr.opcode == URMA_OPC_SEND
    &&& wr.flag.value == URMA_JFS_WR_FLAG_COMPLETE_ENABLE
    &&& wr.tjetty == peer.raw_tjetty()
    &&& wr.user_ctx == user_ctx
    &&& is_list(wr.rw.src, elements(local))
    &&& is_list(wr.rw.dst, seq![])
    &&& wr.rw.target_hint == 0
    &&& wr.rw.notify_data == 0
    &&& wr.next == 0
}

/// A receive into the local list.
pub open spec fn is_recv(wr: urma_jfr_wr_t, local: Seq<LocalSge<'_>>, user_ctx: u64) -> bool {
    &&& is_list(wr.src, elements(local))
    &&& wr.user_ctx == user_ctx
    &&& wr.next == 0
}

/// How many bytes the windows have together, if that fits.
fn sum_len(local: &[LocalSge<'_>]) -> (r: Option<u32>)
    ensures
        match r {
            Some(n) => n == total_len(local@),
            None => total_len(local@) > u32::MAX,
        },
{
    let mut total: u32 = 0;
    let mut i: usize = 0;
    assert(local@.take(0) =~= seq![]);
    while i < local.len()
        invariant
            i <= local@.len(),
            total == total_len(local@.take(i as int)),
        decreases local@.len() - i,
    {
        proof {
            assert(local@.take(i + 1).drop_last() =~= local@.take(i as int));
            lemma_total_grows(local@, i + 1);
        }
        match total.checked_add(local[i].len()) {
            Some(n) => {
                total = n;
            },
            None => {
                return None;
            },
        }
        i += 1;
    }
    assert(local@.take(i as int) =~= local@);
    Some(total)
}

/// Where the windows of a list lie: their segments, as resources and as C objects.
pub open spec fn places(local: Seq<LocalSge<'_>>) -> Seq<(usize, Addr)> {
    local.map_values(|s: LocalSge<'_>| (s.seg_id(), s.element().tseg))
}

/// See [`places`].
fn list_places(local: &[LocalSge<'_>]) -> (r: Vec<(usize, Addr)>)
    ensures
        r@ == places(local@),
{
    let mut r: Vec<(usize, Addr)> = Vec::new();
    let mut i: usize = 0;
    while i < local.len()
        invariant
            i <= local@.len(),
            r@ == places(local@).take(i as int),
        decreases local@.len() - i,
    {
        r.push((local[i].node(), local[i].tseg()));
        i += 1;
        assert(r@ =~= places(local@).take(i as int));
    }
    assert(places(local@).take(i as int) =~= places(local@));
    r
}

/// The windows are all of registered segments of the session.
pub open spec fn all_live(local: Seq<LocalSge<'_>>, session: &Session) -> bool {
    forall|i: int| 0 <= i < local.len() ==> (#[trigger] local[i]).lives_in(session)
}

/// A work request is being posted.
pub struct Post {
    pub what: &'static str,
    /// The jetty that it is posted on
    pub node: usize,
    pub jetty: Resource,
    /// The peer that it is for, if it is for one
    pub peer: Option<(usize, Resource)>,
    /// The segments that its local elements lie in
    pub segs: Vec<(usize, Addr)>,
}

impl Post {
    /// The request is posted on `jetty`, for `peer`, with the windows `local`.
    pub open spec fn is_for(
        &self,
        what: Seq<char>,
        jetty: &Jetty,
        peer: Option<&Peer>,
        local: Seq<LocalSge<'_>>,
    ) -> bool {
        &&& self.what@ == what
        &&& self.node == jetty.node_id()
        &&& self.jetty == jetty.resource()
        &&& match peer {
            Some(p) => self.peer == Some((p.id(), p.resource())),
            None => self.peer is None,
        }
        &&& self.segs@ == places(local)
    }
}

/// The segments of the windows exist where the request is ready.
proof fn lemma_segs_exist(
    post: &Post,
    list: urma_sg_t,
    local: Seq<LocalSge<'_>>,
    session: &Session,
)
    requires
        list.sge@ == elements(local),
        post.segs@ == places(local),
        post.ready(session),
    ensures
        call::segs_of(list, Kind::Seg).subset_of(tree::owned(session.tree())),
{
    let t = session.tree();
    assert forall|o: Object| call::segs_of(list, Kind::Seg).contains(o) implies tree::owned(
        t,
    ).contains(o) by {
        let i = choose|i: int|
            0 <= i < list.sge@.len() && (#[trigger] list.sge@[i]).tseg == o.addr;
        assert(tree::seg_at(t, post.segs@[i].0, post.segs@[i].1));
        assert(t[post.segs@[i].0].resource.objects().contains(o));
    }
}

/// A request can be posted as long as the jetty, the peer and the segments of the
/// windows exist.
pub proof fn law_post_is_ready(
    post: &Post,
    what: Seq<char>,
    jetty: &Jetty,
    peer: Option<&Peer>,
    local: Seq<LocalSge<'_>>,
    session: &Session,
)
    requires
        post.is_for(what, jetty, peer, local),
        jetty.lives_in(session),
        peer matches Some(p) ==> p.lives_in(session),
        all_live(local, session),
    ensures
        post.ready(session),
{
    assert forall|i: int| 0 <= i < post.segs@.len() implies tree::seg_at(
        session.tree(),
        (#[trigger] post.segs@[i]).0,
        post.segs@[i].1,
    ) by {
        assert(local[i].lives_in(session));
    }
}

impl Jetty {
    /// The resource that this is the handle to.
    pub closed spec fn node_id(&self) -> usize {
        self.node
    }

    /// The address of the `urma_jetty_t`.
    pub closed spec fn raw_jetty(&self) -> Addr {
        self.raw
    }

    /// The shared jfr.
    pub closed spec fn raw_jfr(&self) -> urma_jfr_t {
        self.jfr
    }

    /// The identifier that the library gave the jetty.
    pub closed spec fn own_id(&self) -> JettyId {
        self.id
    }

    /// How long a local sge list may be.
    pub closed spec fn sge_limit(&self) -> u8 {
        self.max_sge
    }

    /// The resource that a jetty is.
    pub open spec fn resource(&self) -> Resource {
        Resource::Jetty { jfr: self.raw_jfr(), jetty: self.raw_jetty() }
    }

    /// The handle is to a jetty of the session.
    pub open spec fn lives_in(&self, session: &Session) -> bool {
        tree::stands_at(session.tree(), self.node_id(), self.resource())
    }

    /// See [`Jetty::node_id`].
    pub fn node(&self) -> (r: usize)
        ensures
            r == self.node_id(),
    {
        self.node
    }

    /// Fixed RM transport mode (order_type uses default 0); the tp_type
    /// (CTP) is only chosen later, at import time — see `Peer::import`.
    /// One-sided READ never receives data through the jfr, but the jetty is
    /// created with share_jfr, so the jfr is created first. Both are created on
    /// `ctx`, which need not be the context of `cq`; both are kept alive.
    pub fn new(ctx: &Context, cq: &CompletionQueue, opts: JettyOpts) -> (r: Step<
        JettyCreate,
        Jetty,
    >)
        ensures
            operation::starts(r),
            r matches Step::Ask(state, _) ==> forall|s: Session|
                #![trigger ctx.lives_in(&s)]
                ctx.lives_in(&s) && cq.lives_in(&s) ==> state.ready(&s),
            r == Step::<JettyCreate, Jetty>::Ask(
                (JettyCreate {
                    parent: cq.id(),
                    context: ctx.id(),
                    ctx: ctx.raw_ctx(),
                    jfc: cq.raw_jfc(),
                    opts,
                    stage: JettyStage::Jfr,
                }),
                Call::CreateJfr { ctx: ctx.raw_ctx(), cfg: jfr_cfg(cq.raw_jfc(), opts) },
            ),
    {
        Step::Ask(
            JettyCreate {
                parent: cq.node(),
                context: ctx.node(),
                ctx: ctx.raw(),
                jfc: cq.jfc(),
                opts,
                stage: JettyStage::Jfr,
            },
            Call::CreateJfr { ctx: ctx.raw(), cfg: make_jfr_cfg(cq.jfc(), opts) },
        )
    }

    pub fn id(&self) -> (r: JettyId)
        ensures
            r == self.own_id(),
    {
        self.id
    }

    /// Export the remote-import descriptor as an opaque blob
    /// (`urma_get_rjetty`; requires a shared jfr, which [`Jetty::new`] always
    /// sets). Same bonding rationale as `RegisteredSeg::export_seg_ctx`:
    /// the appended ext lets the importer skip the kernel-side jetty exchange.
    pub fn export_rjetty(&self) -> (r: Step<BlobExport, Vec<u8>>)
        ensures
            operation::starts(r),
            r matches Step::Ask(state, _) ==> forall|s: Session| #[trigger]
                self.lives_in(&s) ==> state.ready(&s),
            r == Step::<BlobExport, Vec<u8>>::Ask(
                (BlobExport {
                    source: BlobSource::Rjetty,
                    node: self.node_id(),
                    target: self.raw_jetty(),
                    stage: ExportStage::Get,
                }),
                Call::GetRjetty { jetty: self.raw_jetty() },
            ),
    {
        Step::Ask(
            BlobExport {
                source: BlobSource::Rjetty,
                node: self.node,
                target: self.raw,
                stage: ExportStage::Get,
            },
            Call::GetRjetty { jetty: self.raw },
        )
    }

    /// Validate a local sge list against `JettyOpts::max_sge` and convert to ffi
    pub fn check_local(&self, local: &[LocalSge<'_>]) -> (r: Result<Vec<urma_sge_t>>)
        ensures
            match local_fault(local@.len() as int, self.sge_limit()) {
                None => {
                    &&& r matches Ok(sges)
                    &&& sges@ == elements(local@)
                    &&& forall|i: int|
                        0 <= i < sges@.len() ==> (#[trigger] sges@[i]).user_tseg.addr == 0
                },
                Some(fault) => r matches Err(e) && e@ == fault,
            },
    {
        let n: usize = local.len();
        if n == 0 {
            return Err(Error::Invalid("empty local sge list".to_owned()));
        }
        if n > self.max_sge as usize {
            let mut s = String::new();
            push_decimal(&mut s, n as u64);
            s.append(" local sges exceed max_sge ");
            push_decimal(&mut s, self.max_sge as u64);
            s.append(" (see JettyOpts::max_sge)");
            assert(s@ =~= text::decimal(n as int) + " local sges exceed max_sge "@ + text::decimal(
                self.max_sge as int,
            ) + " (see JettyOpts::max_sge)"@);
            return Err(Error::Invalid(s));
        }
        let mut sges: Vec<urma_sge_t> = Vec::new();
        let mut i: usize = 0;
        while i < n
            invariant
                i <= n,
                n == local@.len(),
                sges@ == elements(local@).take(i as int),
                forall|j: int| 0 <= j < sges@.len() ==> (#[trigger] sges@[j]).user_tseg.addr == 0,
            decreases n - i,
        {
            sges.push(local[i].to_ffi());
            i += 1;
            assert(sges@ =~= elements(local@).take(i as int));
        }
        assert(elements(local@).take(i as int) =~= elements(local@));
        Ok(sges)
    }

    /// A request on this jetty: what it builds on.
    fn post(&self, what: &'static str, peer: Option<&Peer>, local: &[LocalSge<'_>]) -> (r: Post)
        ensures
            r.is_for(what@, self, peer, local@),
    {
        let peer: Option<(usize, Resource)> = match peer {
            Some(p) => Some((p.node(), Resource::Peer { tseg: p.tseg(), tjetty: p.tjetty() })),
            None => None,
        };
        Post {
            what,
            node: self.node,
            jetty: Resource::Jetty { jfr: self.jfr, jetty: self.raw },
            peer,
            segs: list_places(local),
        }
    }

    /// Post one one-sided READ: the contiguous remote range at `remote_va` ->
    /// the local sge list. src is the remote address (the API allows exactly
    /// one src sge, hence a single remote va), dst the local address; multiple
    /// local sges give scatter. Wait for the user_ctx completion via
    /// `CompletionQueue::wait_read`.
    pub fn post_read(
        &self,
        peer: &Peer,
        remote_va: u64,
        local: &[LocalSge<'_>],
        user_ctx: u64,
    ) -> (r: Step<Post, ()>)
        ensures
            operation::starts(r),
            match read_fault(local@, self.sge_limit()) {
                None => {
                    &&& r matches Step::Ask(state, c)
                    &&& state.is_for("urma_post_jetty_send_wr(READ)"@, self, Some(peer), local@)
                    &&& c matches Call::PostJettySendWr { jetty, wr }
                    &&& jetty == self.raw_jetty()
                    &&& is_read(wr, peer, remote_va, local@, user_ctx)
                },
                Some(fault) => r matches Step::Done(Err(e)) && e@ == fault,
            },
    {
        let local_sges = match self.check_local(local) {
            Ok(sges) => sges,
            Err(e) => return Step::Done(Err(e)),
        };
        let total: u32 = match sum_len(local) {
            Some(n) => n,
            None => return Step::Done(
                Err(Error::Invalid("total local sge length overflows u32".to_owned())),
            ),
        };
        let remote_sge = urma_sge_t {
            addr: remote_va,
            len: total,
            tseg: peer.tseg(),
            user_tseg: urma_user_tseg_t { addr: 0 },
        };
        let remote_sg = urma_sg_t { sge: vec![remote_sge], num_sge: 1 };
        let num_sge: u32 = local_sges.len() as u32;
        let local_sg = urma_sg_t { sge: local_sges, num_sge };
        let wr = urma_jfs_wr_t {
            opcode: URMA_OPC_READ,
            flag: urma_jfs_wr_flag_t { value: URMA_JFS_WR_FLAG_COMPLETE_ENABLE },
            tjetty: peer.tjetty(),
            user_ctx,
            rw: urma_rw_wr_t { src: remote_sg, dst: local_sg, target_hint: 0, notify_data: 0 },
            next: 0,
        };
        assert(wr.rw.src.sge@ =~= seq![remote_sge]);
        let post = self.post("urma_post_jetty_send_wr(READ)", Some(peer), local);
        proof {
            assert forall|session: Session| #[trigger]
                post.ready(&session) implies operation::may_make(
                Call::PostJettySendWr { jetty: self.raw, wr },
                Set::empty(),
                &session,
            ) by {
                lemma_segs_exist(&post, wr.rw.dst, local@, &session);
            }
        }
        Step::Ask(post, Call::PostJettySendWr { jetty: self.raw, wr })
    }

    /// Post one two-sided SEND: send the local sge list (gather) to `peer`'s
    /// receive buffer (posted beforehand via [`Jetty::post_recv`]). Both sides
    /// get a completion record: local send completion means "data consumed by
    /// the peer", peer recv completion means "data landed".
    /// A plain SEND is modeled via rw.src: `urma_send_wr_t.src` shares union
    /// offset 0 with `urma_rw_wr_t.src`, and the other union members stay 0.
    pub fn post_send(&self, peer: &Peer, local: &[LocalSge<'_>], user_ctx: u64) -> (r: Step<
        Post,
        (),
    >)
        ensures
            operation::starts(r),
            match local_fault(local@.len() as int, self.sge_limit()) {
                None => {
                    &&& r matches Step::Ask(state, c)
                    &&& state.is_for("urma_post_jetty_send_wr(SEND)"@, self, Some(peer), local@)
                    &&& c matches Call::PostJettySendWr { jetty, wr }
                    &&& jetty == self.raw_jetty()
                    &&& is_send(wr, peer, local@, user_ctx)
                },
                Some(fault) => r matches Step::Done(Err(e)) && e@ == fault,
            },
    {
        let sges = match self.check_local(local) {
            Ok(sges) => sges,
            Err(e) => return Step::Done(Err(e)),
        };
        let num_sge: u32 = sges.len() as u32;
        let sg = urma_sg_t { sge: sges, num_sge };
        let none = urma_sg_t { sge: Vec::new(), num_sge: 0 };
        let wr = urma_jfs_wr_t {
            opcode: URMA_OPC_SEND,
            flag: urma_jfs_wr_flag_t { value: URMA_JFS_WR_FLAG_COMPLETE_ENABLE },
            tjetty: peer.tjetty(),
            user_ctx,
            rw: urma_rw_wr_t { src: sg, dst: none, target_hint: 0, notify_data: 0 },
            next: 0,
        };
        let post = self.post("urma_post_jetty_send_wr(SEND)", Some(peer), local);
        proof {
            assert forall|session: Session| #[trigger]
                post.ready(&session) implies operation::may_make(
                Call::PostJettySendWr { jetty: self.raw, wr },
                Set::empty(),
                &session,
            ) by {
                lemma_segs_exist(&post, wr.rw.src, local@, &session);
            }
        }
        Step::Ask(post, Call::PostJettySendWr { jetty: self.raw, wr })
    }

    /// Post a receive buffer to the JFR (two-sided receive direction): data
    /// from the peer's SEND lands in the local sge list (scatter), and on
    /// arrival the local CQ gets a `user_ctx` completion record
    /// (completion_len is the arrived length). Must be posted before data
    /// arrives (buffer first, then let the peer send), otherwise RNR is
    /// triggered.
    pub fn post_recv(&self, local: &[LocalSge<'_>], user_ctx: u64) -> (r: Step<Post, ()>)
        ensures
            operation::starts(r),
            match local_fault(local@.len() as int, self.sge_limit()) {
                None => {
                    &&& r matches Step::Ask(state, c)
                    &&& state.is_for("urma_post_jfr_wr"@, self, None, local@)
                    &&& c matches Call::PostJfrWr { jfr, wr }
                    &&& jfr == self.raw_jfr()
                    &&& is_recv(wr, local@, user_ctx)
                },
                Some(fault) => r matches Step::Done(Err(e)) && e@ == fault,
            },
    {
        let sges = match self.check_local(local) {
            Ok(sges) => sges,
            Err(e) => return Step::Done(Err(e)),
        };
        let num_sge: u32 = sges.len() as u32;
        let wr = urma_jfr_wr_t { src: urma_sg_t { sge: sges, num_sge }, user_ctx, next: 0 };
        let post = self.post("urma_post_jfr_wr", None, local);
        proof {
            assert forall|session: Session| #[trigger]
                post.ready(&session) implies operation::may_make(
                Call::PostJfrWr { jfr: self.jfr, wr },
                Set::empty(),
                &session,
            ) by {
                lemma_segs_exist(&post, wr.src, local@, &session);
            }
        }
        Step::Ask(post, Call::PostJfrWr { jfr: self.jfr, wr })
    }
}

impl Request for JettyCreate {
    type Output = Jetty;

    open spec fn held(&self) -> Set<Object> {
        match self.stage {
            JettyStage::Jfr => Set::empty(),
            JettyStage::Jetty { jfr } => set![Object { kind: Kind::Jfr, addr: jfr.addr }],
            JettyStage::Undo { jfr, .. } => set![Object { kind: Kind::Jfr, addr: jfr.addr }],
        }
    }

    open spec fn effect(&self) -> Effect {
        match self.stage {
            JettyStage::Jfr => Effect::Make(Kind::Jfr),
            JettyStage::Jetty { .. } => Effect::Make(Kind::Jetty),
            JettyStage::Undo { jfr, .. } => Effect::GiveBack(
                Object { kind: Kind::Jfr, addr: jfr.addr },
            ),
        }
    }

    open spec fn initializes(&self) -> bool {
        false
    }

    open spec fn awaits(&self, reply: &Reply) -> bool {
        match self.stage {
            JettyStage::Jfr => reply is Pointer,
            JettyStage::Jetty { .. } => reply is Jetty,
            JettyStage::Undo { .. } => reply is Done,
        }
    }

    open spec fn ready(&self, session: &Session) -> bool {
        &&& tree::queue_at(session.tree(), self.parent, self.jfc)
        &&& tree::stands_at(session.tree(), self.context, Resource::Context { ctx: self.ctx })
    }

    open spec fn rank(&self) -> nat {
        match self.stage {
            JettyStage::Jfr => 2,
            JettyStage::Jetty { .. } => 1,
            JettyStage::Undo { .. } => 0,
        }
    }

    open spec fn kept(output: &Jetty, session: &Session) -> Set<Object> {
        session.tree()[output.node_id()].resource.objects()
    }

    open spec fn follows(
        &self,
        reply: Reply,
        r: Step<JettyCreate, Jetty>,
        before: &Session,
        after: &Session,
    ) -> bool {
        match (self.stage, reply) {
            (JettyStage::Jfr, Reply::Pointer { addr, errno }) => if addr == 0 {
                operation::fails(r, ErrorView::Null("urma_create_jfr"@, errno), before, after)
            } else {
                let jfr = urma_jfr_t { addr };
                operation::asks(
                    r,
                    JettyCreate { stage: JettyStage::Jetty { jfr }, ..*self },
                    Call::CreateJetty { ctx: self.ctx, cfg: jetty_cfg(self.jfc, jfr, self.opts) },
                    before,
                    after,
                )
            },
            (JettyStage::Jetty { jfr }, Reply::Jetty { addr, errno, jetty_id }) => if addr == 0 {
                operation::asks(
                    r,
                    JettyCreate { stage: JettyStage::Undo { jfr, errno }, ..*self },
                    Call::DeleteJfr { jfr },
                    before,
                    after,
                )
            } else {
                &&& r matches Step::Done(Ok(jetty))
                &&& jetty.raw_jetty() == addr
                &&& jetty.raw_jfr() == jfr
                &&& jetty.lives_in(after)
                &&& jetty.own_id() == JettyId::of(jetty_id)
                &&& jetty.sge_limit() == self.opts.max_sge
                &&& operation::adopts(
                    jetty.node_id(),
                    self.parent,
                    Some(self.context),
                    Resource::Jetty { jfr, jetty: addr },
                    before,
                    after,
                )
            },
            (JettyStage::Undo { errno, .. }, Reply::Done) => operation::fails(
                r,
                ErrorView::Null("urma_create_jetty"@, errno),
                before,
                after,
            ),
            _ => false,
        }
    }
}

impl Operation for JettyCreate {
    proof fn accounts(
        &self,
        reply: Reply,
        r: Step<JettyCreate, Jetty>,
        before: &Session,
        after: &Session,
    ) {
        if let Step::Done(Ok(made)) = r {
            let resource = after.tree()[made.node_id()].resource;
            tree::lemma_adopted_inits(before.tree(), made.node_id(), self.parent, Some(self.context), resource);
        }
    }

    fn step(self, session: &mut Session, reply: Reply) -> (r: Step<JettyCreate, Jetty>) {
        match self.stage {
            JettyStage::Jfr => match reply {
                Reply::Pointer { addr, errno } => {
                    if addr == 0 {
                        return Step::Done(Err(null_err("urma_create_jfr", errno)));
                    }
                    let jfr = urma_jfr_t { addr };
                    Step::Ask(
                        JettyCreate { stage: JettyStage::Jetty { jfr }, ..self },
                        Call::CreateJetty {
                            ctx: self.ctx,
                            cfg: make_jetty_cfg(self.jfc, jfr, self.opts),
                        },
                    )
                },
                _ => vstd::pervasive::unreached(),
            },
            JettyStage::Jetty { jfr } => match reply {
                Reply::Jetty { addr, errno, jetty_id } => {
                    if addr == 0 {
                        return Step::Ask(
                            JettyCreate { stage: JettyStage::Undo { jfr, errno }, ..self },
                            Call::DeleteJfr { jfr },
                        );
                    }
                    let id = JettyId::from_raw(&jetty_id);
                    let node: usize = session.adopt(
                        self.parent,
                        Some(self.context),
                        Resource::Jetty { jfr, jetty: addr },
                    );
                    Step::Done(
                        Ok(Jetty { node, jfr, raw: addr, id, max_sge: self.opts.max_sge }),
                    )
                },
                _ => vstd::pervasive::unreached(),
            },
            JettyStage::Undo { errno, .. } => Step::Done(
                Err(null_err("urma_create_jetty", errno)),
            ),
        }
    }
}

impl Request for Post {
    type Output = ();

    open spec fn held(&self) -> Set<Object> {
        Set::empty()
    }

    open spec fn effect(&self) -> Effect {
        Effect::Neither
    }

    open spec fn initializes(&self) -> bool {
        false
    }

    open spec fn awaits(&self, reply: &Reply) -> bool {
        reply is Status
    }

    open spec fn ready(&self, session: &Session) -> bool {
        let t = session.tree();
        &&& tree::stands_at(t, self.node, self.jetty)
        &&& self.peer matches Some((id, peer)) ==> tree::stands_at(t, id, peer)
        &&& forall|i: int|
            0 <= i < self.segs@.len() ==> tree::seg_at(
                t,
                (#[trigger] self.segs@[i]).0,
                self.segs@[i].1,
            )
    }

    open spec fn rank(&self) -> nat {
        0
    }

    open spec fn kept(output: &(), session: &Session) -> Set<Object> {
        Set::empty()
    }

    open spec fn follows(
        &self,
        reply: Reply,
        r: Step<Post, ()>,
        before: &Session,
        after: &Session,
    ) -> bool {
        match reply {
            Reply::Status(st) => if st == URMA_SUCCESS {
                r matches Step::Done(Ok(_)) && *after == *before
            } else {
                operation::fails(r, ErrorView::Status(st, self.what@), before, after)
            },
            _ => false,
        }
    }
}

impl Operation for Post {
    proof fn accounts(
        &self,
        reply: Reply,
        r: Step<Post, ()>,
        before: &Session,
        after: &Session,
    ) {
    }

    fn step(self, session: &mut Session, reply: Reply) -> (r: Step<Post, ()>) {
        match reply {
            Reply::Status(st) => Step::Done(check_status(st, self.what)),
            _ => vstd::pervasive::unreached(),
        }
    }
}

} // verus!
