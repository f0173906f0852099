//! Memory registration, and windows into registered memory.

use std::marker::PhantomData;

use vstd::prelude::*;
use vstd::string::*;

use crate::call;
use crate::call::{Call, Effect, Kind, Object, Reply, Step};
use crate::error::{null_err, Error, ErrorView, Result};
use crate::ffi;
use crate::ffi::{
    urma_context_t, urma_reg_seg_flag_t, urma_seg_cfg_t, urma_seg_t, urma_sge_t, urma_token_id_t,
    urma_token_t, urma_user_tseg_t, Addr, URMA_ACCESS_READ, URMA_ACCESS_WRITE,
    URMA_SEG_ATTR_HAS_USER_INFO,
};
use crate::operation;
use crate::operation::{Operation, Request};
use crate::session::Session;
use crate::text;
use crate::text::push_decimal;
use crate::tree;
use crate::tree::{Page, Resource, PAGE_SIZE};
use crate::urma::blob::{BlobExport, BlobSource, ExportStage};
use crate::urma::context::Context;
use crate::urma::page;
use crate::urma::page::{alloc_err, check_page_len, PageBuf};
use crate::urma::value::{Eid, SegDesc};

verus! {

/// Registered local memory, the low-level addressing unit: a target segment
/// plus its address window. The type parameter says who owns the registered
/// memory: `RegisteredSeg` (short for `RegisteredSeg<()>`) borrows memory
/// owned elsewhere (an external allocation, hugepages) and the caller must
/// keep it alive; [`RegisteredBuf`] owns a page-aligned buffer that is freed
/// only after the segment is unregistered.
pub struct RegisteredSeg<B = ()> {
    node: usize,
    tseg: Addr,
    pub va: u64,
    pub len: u64,
    /// the registered memory itself, or `()` when it is owned elsewhere
    buf: B,
}

/// Page-aligned buffer plus its registration as one unit (alias for
/// `RegisteredSeg<PageBuf>`): the buffer is owned by the registration and freed
/// only after the segment is unregistered, so memory and registration can never
/// get out of sync. Addressed in the post_* methods via [`RegisteredSeg::sge`].
pub type RegisteredBuf = RegisteredSeg<PageBuf>;

/// The parameters of a registration: the peer is granted READ|WRITE and no user
/// token id is requested, so only the access field of the flag is set.
pub open spec fn seg_cfg(va: u64, len: u64, token_value: u32) -> urma_seg_cfg_t {
    urma_seg_cfg_t {
        va,
        len,
        token_id: urma_token_id_t { addr: 0 },
        token_value: urma_token_t { token: token_value },
        flag: urma_reg_seg_flag_t { value: (URMA_ACCESS_READ | URMA_ACCESS_WRITE) << 5 },
        user_ctx: 0,
        iova: 0,
    }
}

/// See [`seg_cfg`].
fn make_seg_cfg(va: u64, len: u64, token_value: u32) -> (r: urma_seg_cfg_t)
    ensures
        r == seg_cfg(va, len, token_value),
{
    let flag = urma_reg_seg_flag_t { value: 0 }.with_access(URMA_ACCESS_READ | URMA_ACCESS_WRITE);
    assert((0u32 & !0x7e0) | ((0x2u32 | 0x4u32) << 5) == (0x2u32 | 0x4u32) << 5) by (bit_vector);
    urma_seg_cfg_t {
        va,
        len,
        token_id: urma_token_id_t { addr: 0 },
        token_value: urma_token_t { token: token_value },
        flag,
        user_ctx: 0,
        iova: 0,
    }
}

/// Memory that is owned elsewhere is being registered.
pub struct SegRegister {
    pub parent: usize,
    pub ctx: urma_context_t,
    pub va: u64,
    pub len: u64,
}

/// Where the creation of a registered buffer stands.
pub enum BufStage {
    /// The memory is allocated
    Alloc,
    /// The memory is registered
    Register { page: Page },
    /// The memory could not be registered and is given back
    Undo { page: Page, errno: i32 },
}

/// A buffer is being allocated and registered.
pub struct BufCreate {
    pub parent: usize,
    pub ctx: urma_context_t,
    pub len: usize,
    pub token_value: u32,
    pub stage: BufStage,
}

impl RegisteredSeg<()> {
    /// Grant the peer READ|WRITE; no user token id is requested:
    /// token_policy/cacheable/token_id_valid are all 0, only the access field
    /// is set, and authentication relies on the plain `token_value` alone.
    /// (The driver still allocates an internal token id at register —
    /// `descriptor()` must ship it for the peer's import to resolve.)
    pub fn register(ctx: &Context, ptr: Addr, len: usize, token_value: u32) -> (r: Step<
        SegRegister,
        RegisteredSeg<()>,
    >)
        ensures
            operation::starts(r),
            r matches Step::Ask(state, _) ==> forall|s: Session| #[trigger]
                ctx.lives_in(&s) ==> state.ready(&s),
            r == Step::<SegRegister, RegisteredSeg<()>>::Ask(
                (SegRegister {
                    parent: ctx.id(),
                    ctx: ctx.raw_ctx(),
                    va: ptr,
                    len: len as u64,
                }),
                Call::RegisterSeg {
                    ctx: ctx.raw_ctx(),
                    cfg: seg_cfg(ptr, len as u64, token_value),
                },
            ),
    {
        Step::Ask(
            SegRegister { parent: ctx.node(), ctx: ctx.raw(), va: ptr, len: len as u64 },
            Call::RegisterSeg { ctx: ctx.raw(), cfg: make_seg_cfg(ptr, len as u64, token_value) },
        )
    }
}

impl RegisteredSeg<PageBuf> {
    /// The memory that is registered.
    pub closed spec fn memory(&self) -> Page {
        self.buf.memory()
    }

    /// The buffer, for reading and writing it.
    pub fn buffer(&self) -> (r: &PageBuf)
        ensures
            r.memory() == self.memory(),
    {
        &self.buf
    }

    /// Allocate `len` page-aligned bytes and register them (READ|WRITE for
    /// the peer), see [`RegisteredSeg::register`]
    pub fn new(ctx: &Context, len: usize, token_value: u32) -> (r: Step<BufCreate, RegisteredBuf>)
        ensures
            operation::starts(r),
            r matches Step::Ask(state, _) ==> forall|s: Session| #[trigger]
                ctx.lives_in(&s) ==> state.ready(&s),
            match r {
                Step::Ask(state, c) => {
                    &&& len > 0 && page::fits_in_pages(len)
                    &&& state == (BufCreate {
                        parent: ctx.id(),
                        ctx: ctx.raw_ctx(),
                        len,
                        token_value,
                        stage: BufStage::Alloc,
                    })
                    &&& c == (Call::AllocZeroed { size: len, align: PAGE_SIZE })
                },
                Step::Done(Ok(_)) => false,
                Step::Done(Err(e)) => {
                    &&& len == 0 ==> e@ == ErrorView::Invalid("zero-length page buffer"@)
                    &&& len > 0 ==> !page::fits_in_pages(len) && page::is_bad_layout(e@)
                },
            },
    {
        match check_page_len(len) {
            Some(e) => Step::Done(Err(e)),
            None => Step::Ask(
                BufCreate {
                    parent: ctx.node(),
                    ctx: ctx.raw(),
                    len,
                    token_value,
                    stage: BufStage::Alloc,
                },
                Call::AllocZeroed { size: len, align: PAGE_SIZE },
            ),
        }
    }
}

/// The segment attributes that may travel: all but has_user_info.
pub open spec fn without_user_info(attr: u32) -> u32 {
    attr & !URMA_SEG_ATTR_HAS_USER_INFO
}

/// What is published of a segment.
pub open spec fn descriptor_of(seg: urma_seg_t) -> SegDesc {
    SegDesc {
        eid: Eid(seg.ubva.eid),
        uasid: seg.ubva.uasid,
        va: seg.ubva.va,
        len: seg.len,
        attr: without_user_info(seg.attr.value),
        token_id: seg.token_id,
    }
}

impl<B> RegisteredSeg<B> {
    /// The resource that this is the handle to.
    pub closed spec fn id(&self) -> usize {
        self.node
    }

    /// The address of the `urma_target_seg_t`.
    pub closed spec fn raw_tseg(&self) -> Addr {
        self.tseg
    }

    /// The address that the segment starts at.
    pub closed spec fn start(&self) -> u64 {
        self.va
    }

    /// How many bytes the segment has.
    pub closed spec fn size(&self) -> u64 {
        self.len
    }

    /// The handle is to a registered segment of the session.
    pub open spec fn lives_in(&self, session: &Session) -> bool {
        tree::seg_at(session.tree(), self.id(), self.raw_tseg())
    }

    /// The range of a segment is the one that its fields show.
    proof fn law_segment_shows_its_range(&self)
        ensures
            self.start() == self.va,
            self.size() == self.len,
    {
    }

    /// See [`RegisteredSeg::id`].
    pub fn node(&self) -> (r: usize)
        ensures
            r == self.id(),
    {
        self.node
    }

    /// See [`RegisteredSeg::raw_tseg`].
    pub fn tseg(&self) -> (r: Addr)
        ensures
            r == self.raw_tseg(),
    {
        self.tseg
    }

    /// Public descriptor: published to the directory for the peer to import.
    /// `seg` is the `seg` member of the `urma_target_seg_t`.
    pub fn descriptor(&self, seg: urma_seg_t) -> (r: SegDesc)
        ensures
            r == descriptor_of(seg),
            !ffi::bit(r.attr, 14),
            forall|j: u32| j < 32 && j != 14 ==> ffi::bit(r.attr, j) == ffi::bit(seg.attr.value, j),
    {
        proof {
            ffi::lemma_bit(seg.attr.value, 14);
            assert(1u32 << 14 == 0x4000) by (bit_vector);
        }
        SegDesc {
            eid: Eid(seg.ubva.eid),
            uasid: seg.ubva.uasid,
            va: seg.ubva.va(),
            // has_user_info (bit 14) would promise extension data appended
            // after urma_seg_t; a descriptor crossing the wire as plain values
            // never carries that payload, so the bit must not travel (the
            // bonding provider would parse nonexistent trailing bytes).
            attr: seg.attr.value & !URMA_SEG_ATTR_HAS_USER_INFO,
            len: seg.len,
            // token_id is allocated by the driver at register and is the key
            // of the import exchange: the importer's kernel sends it back and
            // the REMOTE looks the segment up by it. It must travel as-is.
            token_id: seg.token_id,
        }
    }

    /// Export the full segment context as an opaque blob (`urma_get_seg_ctx`;
    /// the library-allocated buffer is copied out and freed with
    /// `urma_put_seg_ctx`). On bonding devices the blob appends the
    /// per-physical-device info, so the importer resolves everything locally
    /// and skips the kernel-side seg exchange. On plain devices the blob is
    /// just the `urma_seg_t`.
    pub fn export_seg_ctx(&self) -> (r: Step<BlobExport, Vec<u8>>)
        ensures
            operation::starts(r),
            r matches Step::Ask(state, _) ==> forall|s: Session| #[trigger]
                self.lives_in(&s) ==> state.ready(&s),
            r == Step::<BlobExport, Vec<u8>>::Ask(
                (BlobExport {
                    source: BlobSource::SegCtx,
                    node: self.id(),
                    target: self.raw_tseg(),
                    stage: ExportStage::Get,
                }),
                Call::GetSegCtx { tseg: self.raw_tseg() },
            ),
    {
        Step::Ask(
            BlobExport {
                source: BlobSource::SegCtx,
                node: self.node,
                target: self.tseg,
                stage: ExportStage::Get,
            },
            Call::GetSegCtx { tseg: self.tseg },
        )
    }

    /// Window `[off, off + len)` of this segment as a [`LocalSge`],
    /// bounds-checked; shorthand for [`LocalSge::new`]
    pub fn sge(&self, off: usize, len: u32) -> (r: Result<LocalSge<'_>>)
        requires
            in_window(self.size(), off, len) ==> self.start() + off <= u64::MAX,
        ensures
            match r {
                Ok(s) => in_window(self.size(), off, len) && s.covers(self, off, len),
                Err(e) => !in_window(self.size(), off, len) && e@ == outside(self.size(), off, len),
            },
    {
        LocalSge::new(self, off, len)
    }
}

impl Request for SegRegister {
    type Output = RegisteredSeg<()>;

    open spec fn held(&self) -> Set<Object> {
        Set::empty()
    }

    open spec fn effect(&self) -> Effect {
        Effect::Make(Kind::Seg)
    }

    open spec fn initializes(&self) -> bool {
        false
    }

    open spec fn awaits(&self, reply: &Reply) -> bool {
        reply is Pointer
    }

    open spec fn ready(&self, session: &Session) -> bool {
        tree::stands_at(session.tree(), self.parent, Resource::Context { ctx: self.ctx })
    }

    open spec fn rank(&self) -> nat {
        0
    }

    open spec fn kept(output: &RegisteredSeg<()>, session: &Session) -> Set<Object> {
        session.tree()[output.id()].resource.objects()
    }

    open spec fn follows(
        &self,
        reply: Reply,
        r: Step<SegRegister, RegisteredSeg<()>>,
        before: &Session,
        after: &Session,
    ) -> bool {
        match reply {
            Reply::Pointer { addr, errno } => if addr == 0 {
                operation::fails(r, ErrorView::Null("urma_register_seg"@, errno), before, after)
            } else {
                &&& r matches Step::Done(Ok(seg))
                &&& seg.raw_tseg() == addr
                &&& seg.lives_in(after)
                &&& seg.start() == self.va
                &&& seg.size() == self.len
                &&& operation::adopts(
                    seg.id(),
                    self.parent,
                    None,
                    Resource::Seg { tseg: addr, page: None },
                    before,
                    after,
                )
            },
            _ => false,
        }
    }
}

impl Operation for SegRegister {
    proof fn accounts(
        &self,
        reply: Reply,
        r: Step<SegRegister, RegisteredSeg<()>>,
        before: &Session,
        after: &Session,
    ) {
        if let Step::Done(Ok(made)) = r {
            let resource = after.tree()[made.id()].resource;
            tree::lemma_adopted_inits(before.tree(), made.id(), self.parent, None, resource);
        }
    }

    fn step(self, session: &mut Session, reply: Reply) -> (r: Step<SegRegister, RegisteredSeg<()>>) {
        match reply {
            Reply::Pointer { addr, errno } => {
                if addr == 0 {
                    return Step::Done(Err(null_err("urma_register_seg", errno)));
                }
                let node: usize = session.adopt(
                    self.parent,
                    None,
                    Resource::Seg { tseg: addr, page: None },
                );
                Step::Done(
                    Ok(RegisteredSeg { node, tseg: addr, va: self.va, len: self.len, buf: () }),
                )
            },
            _ => vstd::pervasive::unreached(),
        }
    }
}

impl Request for BufCreate {
    type Output = RegisteredBuf;

    open spec fn held(&self) -> Set<Object> {
        match self.stage {
            BufStage::Alloc => Set::empty(),
            BufStage::Register { page } => set![Object { kind: Kind::Memory, addr: page.addr }],
            BufStage::Undo { page, .. } => set![Object { kind: Kind::Memory, addr: page.addr }],
        }
    }

    open spec fn effect(&self) -> Effect {
        match self.stage {
            BufStage::Alloc => Effect::Make(Kind::Memory),
            BufStage::Register { .. } => Effect::Make(Kind::Seg),
            BufStage::Undo { page, .. } => Effect::GiveBack(
                Object { kind: Kind::Memory, addr: page.addr },
            ),
        }
    }

    open spec fn initializes(&self) -> bool {
        false
    }

    open spec fn awaits(&self, reply: &Reply) -> bool {
        match self.stage {
            BufStage::Alloc => reply matches Reply::Pointer { addr, .. } && call::is_aligned(
                *addr,
                PAGE_SIZE,
            ),
            BufStage::Register { .. } => reply is Pointer,
            BufStage::Undo { .. } => reply is Done,
        }
    }

    /// The context exists, and what was allocated is aligned.
    open spec fn ready(&self, session: &Session) -> bool {
        &&& tree::stands_at(session.tree(), self.parent, Resource::Context { ctx: self.ctx })
        &&& match self.stage {
            BufStage::Alloc => true,
            BufStage::Register { page } => call::is_aligned(page.addr, PAGE_SIZE),
            BufStage::Undo { page, .. } => call::is_aligned(page.addr, PAGE_SIZE),
        }
    }

    open spec fn rank(&self) -> nat {
        match self.stage {
            BufStage::Alloc => 2,
            BufStage::Register { .. } => 1,
            BufStage::Undo { .. } => 0,
        }
    }

    open spec fn kept(output: &RegisteredBuf, session: &Session) -> Set<Object> {
        session.tree()[output.id()].resource.objects()
    }

    open spec fn follows(
        &self,
        reply: Reply,
        r: Step<BufCreate, RegisteredBuf>,
        before: &Session,
        after: &Session,
    ) -> bool {
        match (self.stage, reply) {
            (BufStage::Alloc, Reply::Pointer { addr, .. }) => if addr == 0 {
                operation::fails(r, ErrorView::Invalid("alloc page buffer failed"@), before, after)
            } else {
                let page = Page { addr, size: self.len };
                operation::asks(
                    r,
                    BufCreate { stage: BufStage::Register { page }, ..*self },
                    Call::RegisterSeg {
                        ctx: self.ctx,
                        cfg: seg_cfg(addr, self.len as u64, self.token_value),
                    },
                    before,
                    after,
                )
            },
            (BufStage::Register { page }, Reply::Pointer { addr, errno }) => if addr == 0 {
                operation::asks(
                    r,
                    BufCreate { stage: BufStage::Undo { page, errno }, ..*self },
                    Call::Dealloc { addr: page.addr, size: page.size, align: PAGE_SIZE },
                    before,
                    after,
                )
            } else {
                &&& r matches Step::Done(Ok(seg))
                &&& seg.raw_tseg() == addr
                &&& seg.lives_in(after)
                &&& seg.start() == page.addr
                &&& seg.size() == self.len
                &&& seg.memory() == page
                &&& call::is_aligned(seg.memory().addr, PAGE_SIZE)
                &&& operation::adopts(
                    seg.id(),
                    self.parent,
                    None,
                    Resource::Seg { tseg: addr, page: Some(page) },
                    before,
                    after,
                )
            },
            (BufStage::Undo { errno, .. }, Reply::Done) => operation::fails(
                r,
                ErrorView::Null("urma_register_seg"@, errno),
                before,
                after,
            ),
            _ => false,
        }
    }
}

impl Operation for BufCreate {
    proof fn accounts(
        &self,
        reply: Reply,
        r: Step<BufCreate, RegisteredBuf>,
        before: &Session,
        after: &Session,
    ) {
        if let Step::Done(Ok(made)) = r {
            let resource = after.tree()[made.id()].resource;
            tree::lemma_adopted_inits(before.tree(), made.id(), self.parent, None, resource);
        }
    }

    fn step(self, session: &mut Session, reply: Reply) -> (r: Step<BufCreate, RegisteredBuf>) {
        match self.stage {
            BufStage::Alloc => match reply {
                Reply::Pointer { addr, .. } => {
                    if addr == 0 {
                        return Step::Done(Err(alloc_err()));
                    }
                    let page = Page { addr, size: self.len };
                    let cfg = make_seg_cfg(addr, self.len as u64, self.token_value);
                    Step::Ask(
                        BufCreate { stage: BufStage::Register { page }, ..self },
                        Call::RegisterSeg { ctx: self.ctx, cfg },
                    )
                },
                _ => vstd::pervasive::unreached(),
            },
            BufStage::Register { page } => match reply {
                Reply::Pointer { addr, errno } => {
                    if addr == 0 {
                        return Step::Ask(
                            BufCreate { stage: BufStage::Undo { page, errno }, ..self },
                            Call::Dealloc { addr: page.addr, size: page.size, align: PAGE_SIZE },
                        );
                    }
                    let node: usize = session.adopt(
                        self.parent,
                        None,
                        Resource::Seg { tseg: addr, page: Some(page) },
                    );
                    Step::Done(
                        Ok(
                            RegisteredSeg {
                                node,
                                tseg: addr,
                                va: page.addr,
                                len: self.len as u64,
                                buf: PageBuf::from_page(page),
                            },
                        ),
                    )
                },
                _ => vstd::pervasive::unreached(),
            },
            BufStage::Undo { errno, .. } => Step::Done(Err(null_err("urma_register_seg", errno))),
        }
    }
}

/* ============================== Local scatter/gather element ============================== */

/// One local scatter/gather element for the post_* methods: a window inside a
/// registered segment. It anchors a shared borrow of the segment it was cut
/// from, so it cannot outlive its memory, and the address always comes from
/// the same object as the tseg, so a mismatched pointer/segment pair cannot
/// be expressed. The post_* methods take a `&[LocalSge]` — one element is the
/// common case, several give scatter/gather (bounded by `JettyOpts::max_sge`).
#[derive(Clone, Copy)]
pub struct LocalSge<'a> {
    node: usize,
    tseg: Addr,
    addr: u64,
    len: u32,
    /// anchors the borrow of the segment this window was cut from
    seg: PhantomData<&'a RegisteredSeg>,
}

/// The window `[off, off + len)` lies in a segment of `seg_len` bytes, and its
/// end is an offset that the machine can express.
pub open spec fn in_window(seg_len: u64, off: usize, len: u32) -> bool {
    off + len <= seg_len && off + len <= usize::MAX
}

/// The window is not in the segment.
pub open spec fn outside(seg_len: u64, off: usize, len: u32) -> ErrorView {
    ErrorView::Invalid(
        "local range ["@ + text::decimal(off as int) + ", +"@ + text::decimal(len as int)
            + ") exceeds segment (len "@ + text::decimal(seg_len as int) + ")"@,
    )
}

fn outside_err(seg_len: u64, off: usize, len: u32) -> (r: Error)
    ensures
        r@ == outside(seg_len, off, len),
{
    let mut s = String::new();
    s.append("local range [");
    push_decimal(&mut s, off as u64);
    s.append(", +");
    push_decimal(&mut s, len as u64);
    s.append(") exceeds segment (len ");
    push_decimal(&mut s, seg_len);
    s.append(")");
    assert(s@ =~= "local range ["@ + text::decimal(off as int) + ", +"@ + text::decimal(len as int)
        + ") exceeds segment (len "@ + text::decimal(seg_len as int) + ")"@);
    Error::Invalid(s)
}

impl<'a> LocalSge<'a> {
    /// The element as the C library takes it.
    pub closed spec fn element(&self) -> urma_sge_t {
        urma_sge_t {
            addr: self.addr,
            len: self.len,
            tseg: self.tseg,
            user_tseg: urma_user_tseg_t { addr: 0 },
        }
    }

    /// The segment that the window was cut from, as a resource.
    pub closed spec fn seg_id(&self) -> usize {
        self.node
    }

    /// The window is one of a registered segment of the session.
    pub open spec fn lives_in(&self, session: &Session) -> bool {
        tree::seg_at(session.tree(), self.seg_id(), self.element().tseg)
    }

    /// A window lives in a session exactly when the segment it was cut from does.
    pub proof fn law_window_lives_with_its_segment<B>(
        &self,
        seg: &RegisteredSeg<B>,
        off: usize,
        len: u32,
        session: &Session,
    )
        requires
            self.covers(seg, off, len),
        ensures
            self.lives_in(session) == seg.lives_in(session),
    {
    }

    /// No window names a user token segment.
    pub proof fn law_window_has_no_user_tseg(&self)
        ensures
            self.element().user_tseg.addr == 0,
    {
    }

    /// The element is the window `[off, off + len)` of the segment.
    pub open spec fn covers<B>(&self, seg: &RegisteredSeg<B>, off: usize, len: u32) -> bool {
        &&& self.element() == (urma_sge_t {
            addr: (seg.start() + off) as u64,
            len,
            tseg: seg.raw_tseg(),
            user_tseg: urma_user_tseg_t { addr: 0 },
        })
        &&& self.seg_id() == seg.id()
    }

    /// Window `[off, off + len)` of a registered segment, bounds-checked.
    /// Works with any [`RegisteredSeg`], including memory not owned by a
    /// [`RegisteredBuf`] (external allocations, hugepages); for the common
    /// case prefer [`RegisteredSeg::sge`].
    pub fn new<B>(seg: &'a RegisteredSeg<B>, off: usize, len: u32) -> (r: Result<Self>)
        requires
            in_window(seg.size(), off, len) ==> seg.start() + off <= u64::MAX,
        ensures
            match r {
                Ok(s) => in_window(seg.size(), off, len) && s.covers(seg, off, len),
                Err(e) => !in_window(seg.size(), off, len) && e@ == outside(seg.size(), off, len),
            },
            r matches Ok(s) ==> {
                &&& seg.start() <= s.element().addr
                &&& s.element().addr + s.element().len <= seg.start() + seg.size()
            },
    {
        let in_range = match off.checked_add(len as usize) {
            Some(end) => (end as u64) <= seg.len,
            None => false,
        };
        if !in_range {
            return Err(outside_err(seg.len, off, len));
        }
        Ok(
            LocalSge {
                node: seg.node,
                tseg: seg.tseg,
                addr: seg.va + off as u64,
                len,
                seg: PhantomData,
            },
        )
    }

    /// See [`LocalSge::seg_id`].
    pub fn node(&self) -> (r: usize)
        ensures
            r == self.seg_id(),
    {
        self.node
    }

    /// The address of the segment's `urma_target_seg_t`.
    pub fn tseg(&self) -> (r: Addr)
        ensures
            r == self.element().tseg,
    {
        self.tseg
    }

    /// How many bytes the window has.
    pub fn len(&self) -> (r: u32)
        ensures
            r == self.element().len,
    {
        self.len
    }

    pub fn to_ffi(self) -> (r: urma_sge_t)
        ensures
            r == self.element(),
            r.user_tseg.addr == 0,
    {
        urma_sge_t {
            addr: self.addr,
            len: self.len,
            tseg: self.tseg,
            user_tseg: urma_user_tseg_t { addr: 0 },
        }
    }
}

} // verus!
