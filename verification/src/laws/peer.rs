//! Peers: exporting descriptors, and importing them.

use vstd::prelude::*;

use crate::call::{Call, Reply, Step};
use crate::error::{Error, ErrorView, Result};
use crate::ffi::{
    urma_import_seg_flag_t, urma_target_jetty_t, Addr, URMA_JETTY_GRP_POLICY_RR, URMA_SUCCESS,
    URMA_TARGET_JETTY, URMA_TM_RM, URMA_TP_CTP,
};
use crate::laws;
use crate::operation;
use crate::operation::Turn;
use crate::session::Session;
use crate::text;
use crate::tree::Resource;
use crate::urma::blob;
use crate::urma::blob::{
    align_words, put_half, too_short_err, BlobExport, BlobSource, ByteOrder,
};
use crate::urma::context::Context;
use crate::urma::jetty::Jetty;
use crate::urma::peer;
use crate::urma::peer::{Peer, PeerImport};
use crate::urma::segment::RegisteredSeg;
use crate::urma::value::{JettyId, SegDesc};

verus! {

/* ============================== Words in memory ============================== */

/// The byte that stands `i` places behind the start of the words in memory.
pub open spec fn byte_of(words: Seq<u64>, i: int, order: ByteOrder) -> u8 {
    match order {
        ByteOrder::Little => (words[i / 8] >> (8 * (i % 8)) as u64) as u8,
        ByteOrder::Big => (words[i / 8] >> (56 - 8 * (i % 8)) as u64) as u8,
    }
}

proof fn lemma_byte_of(words: Seq<u64>, i: int, order: ByteOrder)
    requires
        0 <= i < 8 * words.len(),
    ensures
        byte_of(words, i, order) == blob::image(words, order)[i],
{
    assert(8 * (7 - i % 8) == 56 - 8 * (i % 8));
}

/// The words hold a blob: its bytes in their order, then zeros, in no more words than
/// that takes.
pub open spec fn holds(words: Seq<u64>, bytes: Seq<u8>, order: ByteOrder) -> bool {
    &&& bytes.len() <= 8 * words.len() < bytes.len() + 8
    &&& forall|i: int|
        0 <= i < bytes.len() ==> #[trigger] byte_of(words, i, order) == bytes[i]
    &&& forall|i: int|
        bytes.len() <= i < 8 * words.len() ==> #[trigger] byte_of(words, i, order) == 0
}

proof fn lemma_holds(words: Seq<u64>, bytes: Seq<u8>, order: ByteOrder)
    requires
        blob::image(words, order) == blob::padded(bytes),
    ensures
        holds(words, bytes, order),
{
    assert(blob::image(words, order).len() == blob::padded(bytes).len());
    assert forall|i: int| 0 <= i < 8 * words.len() implies #[trigger] byte_of(words, i, order)
        == blob::padded(bytes)[i] by {
        lemma_byte_of(words, i, order);
    }
    assert(blob::image(words, order).len() == 8 * words.len());
    assert(blob::padded(bytes).len() == 8 * blob::words_for(bytes.len() as int));
    assert forall|i: int| 0 <= i < bytes.len() implies #[trigger] byte_of(words, i, order)
        == bytes[i] by {
        assert(byte_of(words, i, order) == blob::padded(bytes)[i]);
    }
    assert forall|i: int| bytes.len() <= i < 8 * words.len() implies #[trigger] byte_of(
        words,
        i,
        order,
    ) == 0 by {
        assert(byte_of(words, i, order) == blob::padded(bytes)[i]);
    }
}

/// Bytes are aligned without losing or adding any.
pub proof fn law_words_hold_the_bytes(bytes: &[u8], order: ByteOrder, words: Vec<u64>)
    requires
        call_ensures(align_words, (bytes, order), words),
    ensures
        holds(words@, bytes@, order),
{
    lemma_holds(words@, bytes@, order);
}

/// A blob is aligned if it is long enough, and refused by its name and both lengths
/// if it is not.
pub proof fn law_blob_is_aligned(
    bytes: &[u8],
    min: usize,
    what: &str,
    order: ByteOrder,
    r: Result<Vec<u64>>,
)
    requires
        call_ensures(Peer::aligned_blob, (bytes, min, what, order), r),
    ensures
        r is Ok <==> bytes@.len() >= min,
        r matches Ok(words) ==> holds(words@, bytes@, order),
        r matches Err(e) ==> e@ == ErrorView::Invalid(
            what@ + " blob too short: "@ + text::decimal(bytes@.len() as int) + " < "@
                + text::decimal(min as int),
        ),
{
    if let Ok(words) = r {
        lemma_holds(words@, bytes@, order);
    }
}

/// Four bytes at an offset are overwritten by those of a number, in the order of the
/// machine, and no other byte changes.
pub proof fn law_half_word_is_put(
    words: &mut Vec<u64>,
    offset: usize,
    v: u32,
    order: ByteOrder,
    i: int,
)
    requires
        call_ensures(put_half, (words, offset, v, order), ()),
        0 <= i < 8 * old(words)@.len(),
    ensures
        final(words)@.len() == old(words)@.len(),
        byte_of(final(words)@, i, order) == if offset <= i < offset + 4 {
            number_byte(v, i - offset, order)
        } else {
            byte_of(old(words)@, i, order)
        },
{
    lemma_byte_of(final(words)@, i, order);
    lemma_byte_of(old(words)@, i, order);
    if offset <= i < offset + 4 {
        let j = i - offset;
        assert(8 * (3 - j) == 24 - 8 * j);
    }
}

/// The byte that stands `j` places behind the start of a number in memory.
pub open spec fn number_byte(v: u32, j: int, order: ByteOrder) -> u8 {
    match order {
        ByteOrder::Little => (v >> (8 * j) as u32) as u8,
        ByteOrder::Big => (v >> (24 - 8 * j) as u32) as u8,
    }
}

/* ============================== Export ============================== */

/// What comes of an export: the bytes that the library showed, all of them, after
/// the library has its memory back. It fails with the library's status, with NULL,
/// or if the bytes are fewer than the C struct that they start with.
pub open spec fn exported(
    getter: Seq<char>,
    title: Seq<char>,
    put: Call,
    before: Session,
    run: Seq<Turn<BlobExport>>,
    last: Step<BlobExport, Vec<u8>>,
    after: Session,
) -> bool {
    &&& after == before
    &&& run.len() <= 2
    &&& run.len() > 0 ==> {
        &&& run[0].reply matches Reply::Blob { status, addr, errno, bytes }
        &&& status != URMA_SUCCESS ==> {
            &&& run.len() == 1
            &&& last is Done && last->Done_0 is Err
            &&& last->Done_0->Err_0@ == ErrorView::Status(status, getter)
        }
        &&& status == URMA_SUCCESS && addr == 0 ==> {
            &&& run.len() == 1
            &&& last is Done && last->Done_0 is Err
            &&& last->Done_0->Err_0@ == ErrorView::Null(getter, errno)
        }
        &&& status == URMA_SUCCESS && addr != 0 ==> operation::asked(run, last, 1) == Some(put)
        &&& run.len() == 2 && bytes@.len() >= 48 ==> {
            &&& last is Done && last->Done_0 is Ok
            &&& last->Done_0->Ok_0@ == bytes@
        }
        &&& run.len() == 2 && bytes@.len() < 48 ==> {
            &&& last is Done && last->Done_0 is Err
            &&& last->Done_0->Err_0@ == ErrorView::Invalid(
                title + " blob too short: "@ + text::decimal(bytes@.len() as int) + " < "@
                    + text::decimal(48),
            )
        }
    }
}

/// See [`exported`], for the context of a segment.
pub proof fn law_segment_is_exported<B>(
    seg: &RegisteredSeg<B>,
    first: Step<BlobExport, Vec<u8>>,
    before: Session,
    run: Seq<Turn<BlobExport>>,
    last: Step<BlobExport, Vec<u8>>,
    after: Session,
)
    requires
        call_ensures(RegisteredSeg::<B>::export_seg_ctx, (seg,), first),
        operation::leads_to(first, before, run, last, after),
    ensures
        operation::asked(run, last, 0) == Some(Call::GetSegCtx { tseg: seg.raw_tseg() }),
        exported(
            "urma_get_seg_ctx"@,
            "seg ctx"@,
            Call::PutSegCtx { seg: run[0].reply->Blob_addr },
            before,
            run,
            last,
            after,
        ),
{
    operation::lemma_turns(first, before, run, last, after);
}

/// See [`exported`], for the descriptor of a jetty.
pub proof fn law_jetty_is_exported(
    j: &Jetty,
    first: Step<BlobExport, Vec<u8>>,
    before: Session,
    run: Seq<Turn<BlobExport>>,
    last: Step<BlobExport, Vec<u8>>,
    after: Session,
)
    requires
        call_ensures(Jetty::export_rjetty, (j,), first),
        operation::leads_to(first, before, run, last, after),
    ensures
        operation::asked(run, last, 0) == Some(Call::GetRjetty { jetty: j.raw_jetty() }),
        exported(
            "urma_get_rjetty"@,
            "rjetty"@,
            Call::PutRjetty { rjetty: run[0].reply->Blob_addr },
            before,
            run,
            last,
            after,
        ),
{
    operation::lemma_turns(first, before, run, last, after);
}

/// A copied blob is kept if it is at least as long as the C struct that it starts
/// with.
pub proof fn law_blob_is_checked(source: BlobSource, bytes: Vec<u8>, r: Result<Vec<u8>>)
    requires
        call_ensures(BlobSource::check_blob, (source, bytes), r),
    ensures
        r is Ok <==> bytes@.len() >= 48,
        r matches Ok(blob) ==> blob@ == bytes@,
        r matches Err(e) ==> e@ == ErrorView::Invalid(
            (match source {
                BlobSource::SegCtx => "seg ctx"@,
                BlobSource::Rjetty => "rjetty"@,
            }) + " blob too short: "@ + text::decimal(bytes@.len() as int) + " < "@
                + text::decimal(48),
        ),
{
}

/// The error of a blob that is too short.
pub proof fn law_short_blob_error(what: &str, len: usize, min: usize, r: Error)
    requires
        call_ensures(too_short_err, (what, len, min), r),
    ensures
        r@ == ErrorView::Invalid(
            what@ + " blob too short: "@ + text::decimal(len as int) + " < "@ + text::decimal(
                min as int,
            ),
        ),
{
}

/// What a peer shows of itself.
pub proof fn law_peer_shows_itself(
    p: &Peer,
    node: usize,
    tseg: Addr,
    tjetty: urma_target_jetty_t,
)
    requires
        call_ensures(Peer::node, (p,), node),
        call_ensures(Peer::tseg, (p,), tseg),
        call_ensures(Peer::tjetty, (p,), tjetty),
    ensures
        node == p.id(),
        tseg == p.raw_tseg(),
        tjetty == p.raw_tjetty(),
{
}

/* ============================== Import ============================== */

/// The flag asks for reading and writing, and holds nothing else.
pub open spec fn asks_for_read_and_write(flag: urma_import_seg_flag_t) -> bool {
    flag.value == 0xc
}

proof fn lemma_import_flag()
    ensures
        (0x2u32 | 0x4u32) << 1 == 0xc,
{
    assert((0x2u32 | 0x4u32) << 1 == 0xc) by (bit_vector);
}

/// What is imported from a descriptor and an identifier is what they say, field by
/// field, under the caller's token, and at no address of its own.
pub proof fn law_import_says_what_was_published(
    ctx: &Context,
    seg: SegDesc,
    jetty: JettyId,
    token_value: u32,
    first: Step<PeerImport, Peer>,
    before: Session,
    run: Seq<Turn<PeerImport>>,
    last: Step<PeerImport, Peer>,
    after: Session,
)
    requires
        call_ensures(Peer::import, (ctx, seg, jetty, token_value), first),
        operation::leads_to(first, before, run, last, after),
    ensures
        operation::asked(run, last, 0) matches Some(c) && (c matches Call::ImportSeg {
            ctx: on,
            seg: raw,
            token,
            addr,
            flag,
        } && {
            &&& on == ctx.raw_ctx()
            &&& raw.ubva.eid == seg.eid.0
            &&& raw.ubva.uasid == seg.uasid
            &&& raw.ubva.va == seg.va
            &&& raw.len == seg.len
            &&& raw.attr.value == seg.attr
            &&& raw.token_id == seg.token_id
            &&& token.token == token_value
            &&& addr == 0
            &&& asks_for_read_and_write(flag)
        }),
        operation::asked(run, last, 1) matches Some(c) ==> {
            &&& c matches Call::ImportJetty { ctx: on, rjetty, token }
            &&& on == ctx.raw_ctx()
            &&& rjetty.jetty_id.eid.raw == jetty.eid.0
            &&& rjetty.jetty_id.uasid == jetty.uasid
            &&& rjetty.jetty_id.id == jetty.id
            &&& rjetty.trans_mode == URMA_TM_RM
            &&& rjetty.policy == URMA_JETTY_GRP_POLICY_RR
            &&& rjetty.type_ == URMA_TARGET_JETTY
            &&& rjetty.tp_type == URMA_TP_CTP
            &&& rjetty.flag.value == 0
            &&& token.token == token_value
        },
{
    operation::lemma_turns(first, before, run, last, after);
    lemma_import_flag();
}

/// What is imported from exported blobs is the blobs, byte by byte; only the tp type
/// of the jetty is chosen here. Blobs that are too short are refused, the segment's
/// first.
pub proof fn law_import_passes_the_blobs_on(
    ctx: &Context,
    seg_ctx: &[u8],
    rjetty: &[u8],
    token_value: u32,
    order: ByteOrder,
    first: Step<PeerImport, Peer>,
    before: Session,
    run: Seq<Turn<PeerImport>>,
    last: Step<PeerImport, Peer>,
    after: Session,
)
    requires
        call_ensures(Peer::import_ctx, (ctx, seg_ctx, rjetty, token_value, order), first),
        operation::leads_to(first, before, run, last, after),
    ensures
        first is Ask <==> seg_ctx@.len() >= 48 && rjetty@.len() >= 48,
        first matches Step::Done(r) ==> {
            &&& r matches Err(e)
            &&& e@ == ErrorView::Invalid(
                if seg_ctx@.len() < 48 {
                    "seg ctx"@ + " blob too short: "@ + text::decimal(seg_ctx@.len() as int)
                        + " < "@ + text::decimal(48)
                } else {
                    "rjetty"@ + " blob too short: "@ + text::decimal(rjetty@.len() as int) + " < "@
                        + text::decimal(48)
                },
            )
        },
        operation::asked(run, last, 0) matches Some(c) ==> {
            &&& c matches Call::ImportSegBlob { ctx: on, seg, token, addr, flag }
            &&& on == ctx.raw_ctx()
            &&& holds(seg@, seg_ctx@, order)
            &&& token.token == token_value
            &&& addr == 0
            &&& asks_for_read_and_write(flag)
        },
        operation::asked(run, last, 1) matches Some(c) ==> {
            &&& c matches Call::ImportJettyBlob { ctx: on, rjetty: words, token }
            &&& on == ctx.raw_ctx()
            &&& token.token == token_value
            &&& rjetty@.len() <= 8 * words@.len() < rjetty@.len() + 8
            &&& forall|i: int|
                0 <= i < 8 * words@.len() ==> #[trigger] byte_of(words@, i, order) == if 40 <= i
                    < 44 {
                    number_byte(URMA_TP_CTP, i - 40, order)
                } else if i < rjetty@.len() {
                    rjetty@[i]
                } else {
                    0
                }
        },
{
    operation::lemma_turns(first, before, run, last, after);
    lemma_import_flag();
    if let Some(Call::ImportSegBlob { seg, .. }) = operation::asked(run, last, 0) {
        lemma_holds(seg@, seg_ctx@, order);
    }
    if let Some(Call::ImportJettyBlob { rjetty: words, .. }) = operation::asked(run, last, 1) {
        let patched = peer::patched_rjetty(rjetty@, order);
        assert(blob::image(words@, order).len() == patched.len());
        assert forall|i: int| 0 <= i < 8 * words@.len() implies #[trigger] byte_of(
            words@,
            i,
            order,
        ) == if 40 <= i < 44 {
            number_byte(URMA_TP_CTP, i - 40, order)
        } else if i < rjetty@.len() {
            rjetty@[i]
        } else {
            0
        } by {
            lemma_byte_of(words@, i, order);
            assert(blob::image(words@, order)[i] == patched[i]);
            if 40 <= i < 44 {
                let j = i - 40;
                assert(8 * (3 - j) == 24 - 8 * j);
            }
        }
    }
}

/// What comes of an import, however the peer was described: the segment and the
/// jetty that the library made, below the context. If the jetty cannot be imported,
/// the segment is unimported, and the error is that of the jetty.
pub open spec fn imported(
    ctx: &Context,
    before: Session,
    run: Seq<Turn<PeerImport>>,
    last: Step<PeerImport, Peer>,
    after: Session,
) -> bool {
    &&& run.len() <= 3
    &&& run.len() > 0 ==> {
        let seg = run[0].reply->Pointer_addr;
        let jetty = run[1].reply->Pointer_addr;
        &&& operation::asked(run, last, 1) is Some <==> seg != 0
        &&& seg == 0 ==> {
            &&& run.len() == 1
            &&& after == before
            &&& last is Done && last->Done_0 is Err
            &&& last->Done_0->Err_0@ == ErrorView::Null(
                "urma_import_seg"@,
                run[0].reply->Pointer_errno,
            )
        }
        &&& run.len() > 1 && jetty != 0 ==> {
            &&& run.len() == 2
            &&& last is Done && last->Done_0 is Ok
            &&& last->Done_0->Ok_0.raw_tseg() == seg
            &&& last->Done_0->Ok_0.raw_tjetty().addr == jetty
            &&& laws::created(
                before,
                after,
                last->Done_0->Ok_0.id(),
                ctx.id(),
                None,
                Resource::Peer { tseg: seg, tjetty: urma_target_jetty_t { addr: jetty } },
            )
        }
        &&& run.len() > 1 && jetty == 0 ==> {
            &&& operation::asked(run, last, 2) == Some(Call::UnimportSeg { tseg: seg })
            &&& after == before
            &&& run.len() == 3 ==> {
                &&& last is Done && last->Done_0 is Err
                &&& last->Done_0->Err_0@ == ErrorView::Null(
                    "urma_import_jetty"@,
                    run[1].reply->Pointer_errno,
                )
            }
        }
    }
}

/// See [`imported`], for a peer that is described by what it published.
pub proof fn law_peer_is_imported(
    ctx: &Context,
    seg: SegDesc,
    jetty: JettyId,
    token_value: u32,
    first: Step<PeerImport, Peer>,
    before: Session,
    run: Seq<Turn<PeerImport>>,
    last: Step<PeerImport, Peer>,
    after: Session,
)
    requires
        call_ensures(Peer::import, (ctx, seg, jetty, token_value), first),
        operation::leads_to(first, before, run, last, after),
        before.tree().contains_key(ctx.id()),
    ensures
        imported(ctx, before, run, last, after),
{
    operation::lemma_turns(first, before, run, last, after);
    if let Step::Done(Ok(p)) = last {
        let resource = after.tree()[p.id()].resource;
        laws::lemma_created(before, after, p.id(), ctx.id(), None, resource);
    }
}

/// See [`imported`], for a peer that is described by exported blobs.
pub proof fn law_peer_is_imported_from_blobs(
    ctx: &Context,
    seg_ctx: &[u8],
    rjetty: &[u8],
    token_value: u32,
    order: ByteOrder,
    first: Step<PeerImport, Peer>,
    before: Session,
    run: Seq<Turn<PeerImport>>,
    last: Step<PeerImport, Peer>,
    after: Session,
)
    requires
        call_ensures(Peer::import_ctx, (ctx, seg_ctx, rjetty, token_value, order), first),
        operation::leads_to(first, before, run, last, after),
        before.tree().contains_key(ctx.id()),
    ensures
        imported(ctx, before, run, last, after),
{
    operation::lemma_turns(first, before, run, last, after);
    if run.len() > 0 {
        if let Step::Done(Ok(p)) = last {
            let resource = after.tree()[p.id()].resource;
            laws::lemma_created(before, after, p.id(), ctx.id(), None, resource);
        }
    }
}

} // verus!
