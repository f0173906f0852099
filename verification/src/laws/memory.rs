//! Registered memory: buffers, segments and windows into them.

use vstd::prelude::*;
use vstd::string::*;

use crate::call::{Call, Reply, Step};
use crate::error::{Error, ErrorView, Result};
use crate::ffi::{urma_reg_seg_flag_t, urma_seg_t, urma_sge_t, Addr};
use crate::laws;
use crate::operation;
use crate::operation::Turn;
use crate::session::Session;
use crate::text;
use crate::tree::{Page, Resource, PAGE_SIZE};
use crate::urma::context::Context;
use crate::urma::page;
use crate::urma::page::{alloc_err, bad_layout_err, check_page_len, PageAlloc, PageBuf};
use crate::urma::segment::{BufCreate, LocalSge, RegisteredBuf, RegisteredSeg, SegRegister};
use crate::urma::value::SegDesc;

verus! {

/* ============================== Buffers ============================== */

/// A buffer of `len` bytes can be asked for: it is not empty, and there are whole
/// pages that hold it and have no more bytes than an `isize` can say.
pub open spec fn can_be_had(len: usize) -> bool {
    len > 0 && exists|pages: int| len <= #[trigger] (pages * 4096) <= isize::MAX
}

proof fn lemma_can_be_had(len: usize)
    ensures
        can_be_had(len) <==> len > 0 && page::fits_in_pages(len),
{
    if page::fits_in_pages(len) {
        let pages = (len + 4095) / 4096;
        assert(len <= pages * 4096 <= isize::MAX);
    }
    if exists|pages: int| len <= #[trigger] (pages * 4096) <= isize::MAX {
        let pages = choose|pages: int| len <= #[trigger] (pages * 4096) <= isize::MAX;
        assert((len + 4095) / 4096 <= pages);
    }
}

/// The error says that the layout is bad, and why, in the words that the standard
/// library has for a layout error.
pub open spec fn blames_the_layout(e: ErrorView) -> bool {
    exists|fault: std::alloc::LayoutError, t: String| #[trigger]
        to_string_from_display_ensures::<std::alloc::LayoutError>(&fault, t) && e
            == ErrorView::Invalid("bad layout: "@ + t@)
}

/// A length is refused exactly if no buffer of that length can be asked for, and an
/// empty buffer is refused as such.
pub proof fn law_page_length_is_checked(len: usize, r: Option<Error>)
    requires
        call_ensures(check_page_len, (len,), r),
    ensures
        r is None <==> can_be_had(len),
        len == 0 ==> (r matches Some(e) && e@ == ErrorView::Invalid("zero-length page buffer"@)),
        len > 0 && r is Some ==> (r matches Some(e) && blames_the_layout(e@)),
{
    lemma_can_be_had(len);
}

/// A buffer has as many bytes as were asked for, where the allocator put them, on a
/// page boundary.
pub proof fn law_page_buffer_is_allocated(
    len: usize,
    first: Step<PageAlloc, PageBuf>,
    before: Session,
    run: Seq<Turn<PageAlloc>>,
    last: Step<PageAlloc, PageBuf>,
    after: Session,
)
    requires
        call_ensures(PageBuf::new, (len,), first),
        operation::leads_to(first, before, run, last, after),
    ensures
        first is Ask <==> can_be_had(len),
        first matches Step::Ask(_, c) ==> c == (Call::AllocZeroed { size: len, align: PAGE_SIZE }),
        first matches Step::Done(r) ==> {
            &&& r matches Err(e)
            &&& len == 0 ==> e@ == ErrorView::Invalid("zero-length page buffer"@)
            &&& len > 0 ==> blames_the_layout(e@)
        },
        after == before,
        run.len() <= 1,
        run.len() == 1 && run[0].reply->Pointer_addr != 0 ==> {
            &&& last matches Step::Done(Ok(buf))
            &&& buf.memory().addr == run[0].reply->Pointer_addr
            &&& buf.memory().size == len
            &&& buf.memory().addr % 4096 == 0
        },
        run.len() == 1 && run[0].reply->Pointer_addr == 0 ==> {
            &&& last matches Step::Done(Err(e))
            &&& e@ == ErrorView::Invalid("alloc page buffer failed"@)
        },
{
    lemma_can_be_had(len);
    operation::lemma_turns(first, before, run, last, after);
}

/// A buffer is given back as it was got: the same address, size and alignment.
pub proof fn law_page_buffer_is_given_back(buf: PageBuf, c: Call)
    requires
        call_ensures(PageBuf::release, (buf,), c),
    ensures
        c matches Call::Dealloc { addr, size, align } && {
            &&& addr == buf.memory().addr
            &&& size == buf.memory().size
            &&& align == PAGE_SIZE
        },
{
}

/// What a buffer shows of itself is its memory.
pub proof fn law_page_buffer_shows_its_memory(buf: &PageBuf, addr: Addr, size: usize)
    requires
        call_ensures(PageBuf::addr, (buf,), addr),
        call_ensures(PageBuf::size, (buf,), size),
    ensures
        addr == buf.memory().addr,
        size == buf.memory().size,
{
}

/// The calls that allocate and register a buffer: as many bytes are registered as
/// were allocated, from where they were allocated, and that is as many as the caller
/// asked for. The peer may read and write them, and nothing else is set. What
/// cannot be registered is given back whole.
pub proof fn law_buffer_is_registered_whole(
    ctx: &Context,
    len: usize,
    token_value: u32,
    first: Step<BufCreate, RegisteredBuf>,
    before: Session,
    run: Seq<Turn<BufCreate>>,
    last: Step<BufCreate, RegisteredBuf>,
    after: Session,
)
    requires
        call_ensures(RegisteredBuf::new, (ctx, len, token_value), first),
        operation::leads_to(first, before, run, last, after),
    ensures
        first is Ask <==> can_be_had(len),
        first matches Step::Done(r) ==> {
            &&& r matches Err(e)
            &&& len == 0 ==> e@ == ErrorView::Invalid("zero-length page buffer"@)
            &&& len > 0 ==> blames_the_layout(e@)
        },
        operation::asked(run, last, 0) matches Some(c) ==> c == (Call::AllocZeroed {
            size: len,
            align: PAGE_SIZE,
        }),
        operation::asked(run, last, 1) matches Some(c) ==> {
            &&& c matches Call::RegisterSeg { ctx: on, cfg }
            &&& on == ctx.raw_ctx()
            &&& cfg.va == run[0].reply->Pointer_addr
            &&& cfg.va != 0
            &&& cfg.va % 4096 == 0
            &&& run[0].call matches Call::AllocZeroed { size, .. }
            &&& cfg.len == size
            &&& cfg.token_value.token == token_value
            &&& grants_read_and_write(cfg.flag)
            &&& cfg.token_id.addr == 0
            &&& cfg.user_ctx == 0
            &&& cfg.iova == 0
        },
        operation::asked(run, last, 2) matches Some(c) ==> {
            &&& run[1].reply->Pointer_addr == 0
            &&& c == (Call::Dealloc {
                addr: run[0].reply->Pointer_addr,
                size: len,
                align: PAGE_SIZE,
            })
        },
        run.len() > 0 && run[0].reply->Pointer_addr != 0 ==> operation::asked(
            run,
            last,
            1,
        ) is Some,
{
    lemma_can_be_had(len);
    operation::lemma_turns(first, before, run, last, after);
    lemma_read_and_write();
}

/// What comes of a registered buffer: it is as long as it was registered, and starts
/// where it was allocated.
pub proof fn law_registered_buffer_is_what_was_registered(
    ctx: &Context,
    len: usize,
    token_value: u32,
    first: Step<BufCreate, RegisteredBuf>,
    before: Session,
    run: Seq<Turn<BufCreate>>,
    last: Step<BufCreate, RegisteredBuf>,
    after: Session,
)
    requires
        call_ensures(RegisteredBuf::new, (ctx, len, token_value), first),
        operation::leads_to(first, before, run, last, after),
        before.tree().contains_key(ctx.id()),
    ensures
        run.len() <= 3,
        last matches Step::Done(Ok(buf)) ==> {
            &&& run.len() == 2
            &&& run[1].call matches Call::RegisterSeg { cfg, .. }
            &&& buf.size() == cfg.len
            &&& buf.start() == cfg.va
            &&& buf.size() == len
            &&& buf.start() == run[0].reply->Pointer_addr
            &&& buf.start() % 4096 == 0
            &&& buf.raw_tseg() == run[1].reply->Pointer_addr
            &&& buf.raw_tseg() != 0
            &&& buf.memory().addr == run[0].reply->Pointer_addr
            &&& buf.memory().size == len
            &&& laws::created(
                before,
                after,
                buf.id(),
                ctx.id(),
                None,
                Resource::Seg {
                    tseg: run[1].reply->Pointer_addr,
                    page: Some(Page { addr: run[0].reply->Pointer_addr, size: len }),
                },
            )
        },
        run.len() > 0 ==> (last matches Step::Done(Err(e)) ==> {
            &&& after == before
            &&& if run[0].reply->Pointer_addr == 0 {
                &&& run.len() == 1
                &&& e@ == ErrorView::Invalid("alloc page buffer failed"@)
            } else {
                &&& run.len() == 3
                &&& e@ == ErrorView::Null("urma_register_seg"@, run[1].reply->Pointer_errno)
            }
        }),
        run.len() > 0 && run[0].reply->Pointer_addr == 0 ==> last is Done,
        run.len() > 1 && run[1].reply->Pointer_addr != 0 ==> last matches Step::Done(Ok(_)),
        run.len() == 3 ==> last is Done,
{
    operation::lemma_turns(first, before, run, last, after);
    if run.len() > 0 {
        if let Step::Done(Ok(buf)) = last {
            let resource = after.tree()[buf.id()].resource;
            laws::lemma_created(before, after, buf.id(), ctx.id(), None, resource);
        }
    }
}

/// The errors of buffers that cannot be had.
pub proof fn law_buffer_errors(why: &str, bad: Error, none: Error)
    requires
        call_ensures(bad_layout_err, (why,), bad),
        call_ensures(alloc_err, (), none),
    ensures
        bad@ == ErrorView::Invalid("bad layout: "@ + why@),
        none@ == ErrorView::Invalid("alloc page buffer failed"@),
{
}

/* ============================== Segments ============================== */

/// The flag grants the peer reading and writing, and holds nothing else.
pub open spec fn grants_read_and_write(flag: urma_reg_seg_flag_t) -> bool {
    flag.value == 0xc0
}

proof fn lemma_read_and_write()
    ensures
        (0x2u32 | 0x4u32) << 5 == 0xc0,
{
    assert((0x2u32 | 0x4u32) << 5 == 0xc0) by (bit_vector);
}

/// Memory that is owned elsewhere is registered from its first byte to its last, and
/// the segment that comes back has that range.
pub proof fn law_segment_is_registered_whole(
    ctx: &Context,
    ptr: Addr,
    len: usize,
    token_value: u32,
    first: Step<SegRegister, RegisteredSeg<()>>,
    before: Session,
    run: Seq<Turn<SegRegister>>,
    last: Step<SegRegister, RegisteredSeg<()>>,
    after: Session,
)
    requires
        call_ensures(RegisteredSeg::<()>::register, (ctx, ptr, len, token_value), first),
        operation::leads_to(first, before, run, last, after),
        before.tree().contains_key(ctx.id()),
    ensures
        first matches Step::Ask(_, c) && (c matches Call::RegisterSeg { ctx: on, cfg } && {
            &&& on == ctx.raw_ctx()
            &&& cfg.va == ptr
            &&& cfg.len == len
            &&& cfg.token_value.token == token_value
            &&& grants_read_and_write(cfg.flag)
            &&& cfg.token_id.addr == 0
            &&& cfg.user_ctx == 0
            &&& cfg.iova == 0
        }),
        run.len() <= 1,
        run.len() == 1 && run[0].reply->Pointer_addr != 0 ==> {
            &&& last matches Step::Done(Ok(seg))
            &&& seg.start() == ptr
            &&& seg.size() == len
            &&& seg.raw_tseg() == run[0].reply->Pointer_addr
            &&& laws::created(
                before,
                after,
                seg.id(),
                ctx.id(),
                None,
                Resource::Seg { tseg: run[0].reply->Pointer_addr, page: None },
            )
        },
        run.len() == 1 && run[0].reply->Pointer_addr == 0 ==> {
            &&& last matches Step::Done(Err(e))
            &&& e@ == ErrorView::Null("urma_register_seg"@, run[0].reply->Pointer_errno)
            &&& after == before
        },
{
    operation::lemma_turns(first, before, run, last, after);
    lemma_read_and_write();
    if run.len() > 0 {
        if let Step::Done(Ok(seg)) = last {
            let resource = after.tree()[seg.id()].resource;
            laws::lemma_created(before, after, seg.id(), ctx.id(), None, resource);
        }
    }
}

/// What a segment shows of itself, and a registered buffer of its memory.
pub proof fn law_segment_shows_itself<B>(
    seg: &RegisteredSeg<B>,
    node: usize,
    tseg: Addr,
    own: &RegisteredBuf,
    buf: &PageBuf,
)
    requires
        call_ensures(RegisteredSeg::<B>::node, (seg,), node),
        call_ensures(RegisteredSeg::<B>::tseg, (seg,), tseg),
        call_ensures(RegisteredBuf::buffer, (own,), buf),
    ensures
        node == seg.id(),
        tseg == seg.raw_tseg(),
        buf.memory() == own.memory(),
{
}

/// The descriptor of a segment says what the library says of it, field by field; of
/// the attributes all but the promise of extension data.
pub proof fn law_descriptor_says_what_the_segment_is<B>(
    own: &RegisteredSeg<B>,
    seg: urma_seg_t,
    desc: SegDesc,
)
    requires
        call_ensures(RegisteredSeg::<B>::descriptor, (own, seg), desc),
    ensures
        desc.eid.0 == seg.ubva.eid,
        desc.uasid == seg.ubva.uasid,
        desc.va == seg.ubva.va,
        desc.len == seg.len,
        desc.token_id == seg.token_id,
        desc.attr & 0x4000 == 0,
        desc.attr | 0x4000 == seg.attr.value | 0x4000,
{
    let a = seg.attr.value;
    assert((a & !0x4000u32) & 0x4000 == 0 && (a & !0x4000u32) | 0x4000 == a | 0x4000) by (bit_vector);
}

/* ============================== Windows ============================== */

/// A window is cut out of a segment exactly if it lies inside it: then it starts
/// `off` bytes behind the segment's start, has the length that was asked for, and
/// belongs to that segment.
pub open spec fn cut_out<B>(
    seg: &RegisteredSeg<B>,
    off: usize,
    len: u32,
    r: Result<LocalSge<'_>>,
) -> bool {
    match r {
        Ok(s) => {
            &&& off + len <= seg.size()
            &&& s.element().addr == seg.start() + off
            &&& s.element().len == len
            &&& s.element().tseg == seg.raw_tseg()
            &&& s.element().user_tseg.addr == 0
            &&& s.seg_id() == seg.id()
        },
        Err(e) => {
            &&& off + len > seg.size() || off + len > usize::MAX
            &&& e@ == ErrorView::Invalid(
                "local range ["@ + text::decimal(off as int) + ", +"@ + text::decimal(len as int)
                    + ") exceeds segment (len "@ + text::decimal(seg.size() as int) + ")"@,
            )
        },
    }
}

/// See [`cut_out`].
pub proof fn law_window_is_cut_out<B>(
    seg: &RegisteredSeg<B>,
    off: usize,
    len: u32,
    r: Result<LocalSge<'_>>,
)
    requires
        call_ensures(LocalSge::new::<B>, (seg, off, len), r),
        seg.start() + seg.size() <= u64::MAX,
    ensures
        cut_out(seg, off, len, r),
{
}

/// See [`cut_out`], for the shorthand.
pub proof fn law_segment_cuts_windows_out<B>(
    seg: &RegisteredSeg<B>,
    off: usize,
    len: u32,
    r: Result<LocalSge<'_>>,
)
    requires
        call_ensures(RegisteredSeg::<B>::sge, (seg, off, len), r),
        seg.start() + seg.size() <= u64::MAX,
    ensures
        cut_out(seg, off, len, r),
{
}

/// What a window shows of itself is the element that it stands for.
pub proof fn law_window_shows_its_element(
    s: LocalSge<'_>,
    len: u32,
    raw: urma_sge_t,
    node: usize,
    tseg: Addr,
)
    requires
        call_ensures(LocalSge::node, (&s,), node),
        call_ensures(LocalSge::tseg, (&s,), tseg),
        call_ensures(LocalSge::len, (&s,), len),
        call_ensures(LocalSge::to_ffi, (s,), raw),
    ensures
        node == s.seg_id(),
        tseg == s.element().tseg,
        len == s.element().len,
        raw.addr == s.element().addr,
        raw.len == s.element().len,
        raw.tseg == s.element().tseg,
        raw.user_tseg.addr == 0,
{
}

} // verus!
