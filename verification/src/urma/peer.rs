//! Imported peer resources.

use vstd::prelude::*;

use crate::call::{Call, Effect, Kind, Object, Reply, Step};
use crate::error::{null_err, ErrorView, Result};
use crate::ffi::{
    urma_context_t, urma_import_jetty_flag_t, urma_import_seg_flag_t, urma_rjetty_t,
    urma_seg_attr_t, urma_seg_t, urma_target_jetty_t, urma_token_t, urma_ubva_t,
    Addr, URMA_ACCESS_READ, URMA_ACCESS_WRITE, URMA_JETTY_GRP_POLICY_RR,
    URMA_TARGET_JETTY, URMA_TM_RM, URMA_TP_CTP,
};
use crate::operation;
use crate::operation::{Operation, Request};
use crate::session::Session;
use crate::tree;
use crate::tree::Resource;
use crate::urma::blob;
use crate::urma::blob::{
    align_words, put_half, too_short_err, ByteOrder, RJETTY_SIZE, RJETTY_TP_TYPE_OFFSET, SEG_SIZE,
};
use crate::urma::context::Context;
use crate::urma::segment;
use crate::urma::value::{JettyId, SegDesc};

verus! {

/// Imported peer resources (segment + jetty); handles required to issue a
/// one-sided READ
pub struct Peer {
    node: usize,
    tseg: Addr,
    tjetty: urma_target_jetty_t,
}

/// How the remote jetty is described to the library.
pub enum RemoteJetty {
    /// By a descriptor made here
    Desc(urma_rjetty_t),
    /// By an exported descriptor, as aligned words
    Blob(Vec<u64>),
}

/// Where an import stands.
pub enum ImportStage {
    /// The segment is imported
    Seg { remote: RemoteJetty },
    /// The jetty is imported
    Jetty { tseg: Addr },
    /// The jetty could not be imported; the segment is unimported again
    Undo { tseg: Addr, errno: i32 },
}

/// A peer is being imported.
pub struct PeerImport {
    pub parent: usize,
    pub ctx: urma_context_t,
    pub token: urma_token_t,
    pub stage: ImportStage,
}

/// cacheable/mapping are both 0 (NON_CACHEABLE + SEG_NOMAP); only the access
/// field is set.
pub open spec fn import_flag() -> urma_import_seg_flag_t {
    urma_import_seg_flag_t { value: (URMA_ACCESS_READ | URMA_ACCESS_WRITE) << 1 }
}

/// See [`import_flag`].
fn make_import_flag() -> (r: urma_import_seg_flag_t)
    ensures
        r == import_flag(),
{
    assert((0u32 & !0x7e) | ((0x2u32 | 0x4u32) << 1) == (0x2u32 | 0x4u32) << 1) by (bit_vector);
    urma_import_seg_flag_t { value: 0 }.with_access(URMA_ACCESS_READ | URMA_ACCESS_WRITE)
}

/// The segment that a descriptor describes.
pub open spec fn described_seg(seg: SegDesc) -> urma_seg_t {
    urma_seg_t {
        ubva: urma_ubva_t { eid: seg.eid.0, uasid: seg.uasid, va: seg.va },
        len: seg.len,
        attr: urma_seg_attr_t { value: seg.attr },
        token_id: seg.token_id,
    }
}

/// The remote jetty that an identifier names: CTP-RM, the tp_type being chosen
/// at import.
pub open spec fn described_jetty(jetty: JettyId) -> urma_rjetty_t {
    urma_rjetty_t {
        jetty_id: jetty.raw(),
        trans_mode: URMA_TM_RM,
        policy: URMA_JETTY_GRP_POLICY_RR,
        type_: URMA_TARGET_JETTY,
        flag: urma_import_jetty_flag_t { value: 0 },
        tp_type: URMA_TP_CTP,
    }
}

/// A segment that is published by its descriptor and imported from it is the
/// same segment, but for the promise of extension data.
pub proof fn law_descriptor_describes_the_segment(seg: urma_seg_t)
    ensures
        described_seg(segment::descriptor_of(seg)) == (urma_seg_t {
            attr: urma_seg_attr_t { value: segment::without_user_info(seg.attr.value) },
            ..seg
        }),
{
}

/// A descriptor describes what it says: nothing of it is lost on import, and
/// what never had extension data is published again as it was.
pub proof fn law_descriptor_round_trip(desc: SegDesc)
    requires
        segment::without_user_info(desc.attr) == desc.attr,
    ensures
        segment::descriptor_of(described_seg(desc)) == desc,
{
}

/// The exported jetty descriptor with the tp_type patched to CTP.
pub open spec fn patched_rjetty(bytes: Seq<u8>, order: ByteOrder) -> Seq<u8> {
    blob::overwritten(blob::padded(bytes), RJETTY_TP_TYPE_OFFSET as int, URMA_TP_CTP, order)
}

impl Peer {
    /// The resource that this is the handle to.
    pub closed spec fn id(&self) -> usize {
        self.node
    }

    /// The address of the imported `urma_target_seg_t`.
    pub closed spec fn raw_tseg(&self) -> Addr {
        self.tseg
    }

    /// The imported jetty.
    pub closed spec fn raw_tjetty(&self) -> urma_target_jetty_t {
        self.tjetty
    }

    /// The resource that a peer is.
    pub open spec fn resource(&self) -> Resource {
        Resource::Peer { tseg: self.raw_tseg(), tjetty: self.raw_tjetty() }
    }

    /// The handle is to a peer of the session.
    pub open spec fn lives_in(&self, session: &Session) -> bool {
        tree::stands_at(session.tree(), self.id(), self.resource())
    }

    /// See [`Peer::id`].
    pub fn node(&self) -> (r: usize)
        ensures
            r == self.id(),
    {
        self.node
    }

    /// See [`Peer::raw_tseg`].
    pub fn tseg(&self) -> (r: Addr)
        ensures
            r == self.raw_tseg(),
    {
        self.tseg
    }

    /// See [`Peer::raw_tjetty`].
    pub fn tjetty(&self) -> (r: urma_target_jetty_t)
        ensures
            r == self.raw_tjetty(),
    {
        self.tjetty
    }

    /// Copy a blob into a u64-aligned buffer: a C struct is read through the
    /// resulting pointer, while plain bytes guarantee no alignment
    pub fn aligned_blob(bytes: &[u8], min: usize, what: &str, order: ByteOrder) -> (r: Result<
        Vec<u64>,
    >)
        ensures
            match r {
                Ok(words) => {
                    &&& bytes@.len() >= min
                    &&& words@.len() == blob::words_for(bytes@.len() as int)
                    &&& blob::image(words@, order) == blob::padded(bytes@)
                },
                Err(e) => {
                    &&& bytes@.len() < min
                    &&& e@ == blob::too_short(what@, bytes@.len() as int, min as int)
                },
            },
    {
        if bytes.len() < min {
            return Err(too_short_err(what, bytes.len(), min));
        }
        Ok(align_words(bytes, order))
    }

    /// Import from the exported blobs (`RegisteredSeg::export_seg_ctx` /
    /// `Jetty::export_rjetty`). Preferred over [`Peer::import`] on bonding
    /// devices: the blobs carry the peer's per-physical-device info, so the
    /// provider resolves psegs/pjettys locally from its topology snapshot
    /// instead of doing the kernel-side info exchange — which rides the
    /// management comm channel and fails with errno ENOEXEC when that channel
    /// is down. `tp_type` is the importer's choice and is patched to CTP in
    /// the rjetty blob, exactly like [`Peer::import`] sets it.
    pub fn import_ctx(
        ctx: &Context,
        seg_ctx: &[u8],
        rjetty: &[u8],
        token_value: u32,
        order: ByteOrder,
    ) -> (r: Step<PeerImport, Peer>)
        ensures
            operation::starts(r),
            r matches Step::Ask(state, _) ==> forall|s: Session| #[trigger]
                ctx.lives_in(&s) ==> state.ready(&s),
            match r {
                Step::Ask(state, c) => {
                    &&& seg_ctx@.len() >= SEG_SIZE && rjetty@.len() >= RJETTY_SIZE
                    &&& state.parent == ctx.id()
                    &&& state.ctx == ctx.raw_ctx()
                    &&& state.token.token == token_value
                    &&& state.stage matches ImportStage::Seg { remote: RemoteJetty::Blob(words) }
                        && blob::image(words@, order) == patched_rjetty(rjetty@, order)
                    &&& c matches Call::ImportSegBlob { ctx: on, seg, token, addr, flag }
                    &&& on == ctx.raw_ctx()
                    &&& blob::image(seg@, order) == blob::padded(seg_ctx@)
                    &&& token.token == token_value
                    &&& addr == 0
                    &&& flag == import_flag()
                },
                Step::Done(Ok(_)) => false,
                Step::Done(Err(e)) => if seg_ctx@.len() < SEG_SIZE {
                    e@ == blob::too_short("seg ctx"@, seg_ctx@.len() as int, SEG_SIZE as int)
                } else {
                    &&& rjetty@.len() < RJETTY_SIZE
                    &&& e@ == blob::too_short("rjetty"@, rjetty@.len() as int, RJETTY_SIZE as int)
                },
            },
    {
        let seg = match Self::aligned_blob(seg_ctx, SEG_SIZE, "seg ctx", order) {
            Ok(words) => words,
            Err(e) => return Step::Done(Err(e)),
        };
        let mut rj = match Self::aligned_blob(rjetty, RJETTY_SIZE, "rjetty", order) {
            Ok(words) => words,
            Err(e) => return Step::Done(Err(e)),
        };
        put_half(&mut rj, RJETTY_TP_TYPE_OFFSET, URMA_TP_CTP, order);  /* CTP-RM, chosen at import */
        let token = urma_token_t { token: token_value };
        let state = PeerImport {
            parent: ctx.node(),
            ctx: ctx.raw(),
            token,
            stage: ImportStage::Seg { remote: RemoteJetty::Blob(rj) },
        };
        let flag = make_import_flag();
        Step::Ask(state, Call::ImportSegBlob { ctx: ctx.raw(), seg, token, addr: 0, flag })
    }

    /// Import from the peer's published segment descriptor and jetty identifier.
    pub fn import(ctx: &Context, seg: SegDesc, jetty: JettyId, token_value: u32) -> (r: Step<
        PeerImport,
        Peer,
    >)
        ensures
            operation::starts(r),
            r matches Step::Ask(state, _) ==> forall|s: Session| #[trigger]
                ctx.lives_in(&s) ==> state.ready(&s),
            r == Step::<PeerImport, Peer>::Ask(
                (PeerImport {
                    parent: ctx.id(),
                    ctx: ctx.raw_ctx(),
                    token: urma_token_t { token: token_value },
                    stage: ImportStage::Seg { remote: RemoteJetty::Desc(described_jetty(jetty)) },
                }),
                Call::ImportSeg {
                    ctx: ctx.raw_ctx(),
                    seg: described_seg(seg),
                    token: urma_token_t { token: token_value },
                    addr: 0,
                    flag: import_flag(),
                },
            ),
    {
        let mut ubva = urma_ubva_t { eid: seg.eid.0, uasid: seg.uasid, va: 0 };
        ubva.set_va(seg.va);
        let seg_in = urma_seg_t {
            ubva,
            len: seg.len,
            attr: urma_seg_attr_t { value: seg.attr },
            token_id: seg.token_id,
        };
        let rjetty = urma_rjetty_t {
            jetty_id: jetty.to_raw(),
            trans_mode: URMA_TM_RM,
            policy: URMA_JETTY_GRP_POLICY_RR,
            type_: URMA_TARGET_JETTY,
            flag: urma_import_jetty_flag_t { value: 0 },
            tp_type: URMA_TP_CTP,  /* CTP-RM; tp_type is chosen at import, not at create */
        };
        let token = urma_token_t { token: token_value };
        let state = PeerImport {
            parent: ctx.node(),
            ctx: ctx.raw(),
            token,
            stage: ImportStage::Seg { remote: RemoteJetty::Desc(rjetty) },
        };
        let flag = make_import_flag();
        Step::Ask(state, Call::ImportSeg { ctx: ctx.raw(), seg: seg_in, token, addr: 0, flag })
    }
}

impl Request for PeerImport {
    type Output = Peer;

    open spec fn held(&self) -> Set<Object> {
        match self.stage {
            ImportStage::Seg { .. } => Set::empty(),
            ImportStage::Jetty { tseg } => set![Object { kind: Kind::ImportedSeg, addr: tseg }],
            ImportStage::Undo { tseg, .. } => set![Object { kind: Kind::ImportedSeg, addr: tseg }],
        }
    }

    open spec fn effect(&self) -> Effect {
        match self.stage {
            ImportStage::Seg { .. } => Effect::Make(Kind::ImportedSeg),
            ImportStage::Jetty { .. } => Effect::Make(Kind::ImportedJetty),
            ImportStage::Undo { tseg, .. } => Effect::GiveBack(
                Object { kind: Kind::ImportedSeg, addr: tseg },
            ),
        }
    }

    open spec fn initializes(&self) -> bool {
        false
    }

    open spec fn awaits(&self, reply: &Reply) -> bool {
        match self.stage {
            ImportStage::Seg { .. } => reply is Pointer,
            ImportStage::Jetty { .. } => reply is Pointer,
            ImportStage::Undo { .. } => reply is Done,
        }
    }

    open spec fn ready(&self, session: &Session) -> bool {
        tree::stands_at(session.tree(), self.parent, Resource::Context { ctx: self.ctx })
    }

    open spec fn rank(&self) -> nat {
        match self.stage {
            ImportStage::Seg { .. } => 2,
            ImportStage::Jetty { .. } => 1,
            ImportStage::Undo { .. } => 0,
        }
    }

    open spec fn kept(output: &Peer, session: &Session) -> Set<Object> {
        session.tree()[output.id()].resource.objects()
    }

    open spec fn follows(
        &self,
        reply: Reply,
        r: Step<PeerImport, Peer>,
        before: &Session,
        after: &Session,
    ) -> bool {
        match (self.stage, reply) {
            (ImportStage::Seg { remote }, Reply::Pointer { addr, errno }) => if addr == 0 {
                operation::fails(r, ErrorView::Null("urma_import_seg"@, errno), before, after)
            } else {
                operation::asks(
                    r,
                    PeerImport { stage: ImportStage::Jetty { tseg: addr }, ..*self },
                    match remote {
                        RemoteJetty::Desc(rjetty) => Call::ImportJetty {
                            ctx: self.ctx,
                            rjetty,
                            token: self.token,
                        },
                        RemoteJetty::Blob(rjetty) => Call::ImportJettyBlob {
                            ctx: self.ctx,
                            rjetty,
                            token: self.token,
                        },
                    },
                    before,
                    after,
                )
            },
            (ImportStage::Jetty { tseg }, Reply::Pointer { addr, errno }) => if addr == 0 {
                operation::asks(
                    r,
                    PeerImport { stage: ImportStage::Undo { tseg, errno }, ..*self },
                    Call::UnimportSeg { tseg },
                    before,
                    after,
                )
            } else {
                let tjetty = urma_target_jetty_t { addr };
                &&& r matches Step::Done(Ok(peer))
                &&& peer.raw_tseg() == tseg
                &&& peer.raw_tjetty() == tjetty
                &&& peer.lives_in(after)
                &&& operation::adopts(
                    peer.id(),
                    self.parent,
                    None,
                    Resource::Peer { tseg, tjetty },
                    before,
                    after,
                )
            },
            (ImportStage::Undo { errno, .. }, Reply::Done) => operation::fails(
                r,
                ErrorView::Null("urma_import_jetty"@, errno),
                before,
                after,
            ),
            _ => false,
        }
    }
}

impl Operation for PeerImport {
    proof fn accounts(
        &self,
        reply: Reply,
        r: Step<PeerImport, Peer>,
        before: &Session,
        after: &Session,
    ) {
        if let Step::Done(Ok(made)) = r {
            let resource = after.tree()[made.id()].resource;
            tree::lemma_adopted_inits(before.tree(), made.id(), self.parent, None, resource);
        }
    }

    fn step(self, session: &mut Session, reply: Reply) -> (r: Step<PeerImport, Peer>) {
        let (parent, ctx, token) = (self.parent, self.ctx, self.token);
        match self.stage {
            ImportStage::Seg { remote } => match reply {
                Reply::Pointer { addr, errno } => {
                    if addr == 0 {
                        return Step::Done(Err(null_err("urma_import_seg", errno)));
                    }
                    let call = match remote {
                        RemoteJetty::Desc(rjetty) => Call::ImportJetty { ctx, rjetty, token },
                        RemoteJetty::Blob(rjetty) => Call::ImportJettyBlob { ctx, rjetty, token },
                    };
                    let stage = ImportStage::Jetty { tseg: addr };
                    Step::Ask(PeerImport { parent, ctx, token, stage }, call)
                },
                _ => vstd::pervasive::unreached(),
            },
            ImportStage::Jetty { tseg } => match reply {
                Reply::Pointer { addr, errno } => {
                    if addr == 0 {
                        let stage = ImportStage::Undo { tseg, errno };
                        return Step::Ask(
                            PeerImport { parent, ctx, token, stage },
                            Call::UnimportSeg { tseg },
                        );
                    }
                    let tjetty = urma_target_jetty_t { addr };
                    let node: usize = session.adopt(parent, None, Resource::Peer { tseg, tjetty });
                    Step::Done(Ok(Peer { node, tseg, tjetty }))
                },
                _ => vstd::pervasive::unreached(),
            },
            ImportStage::Undo { errno, .. } => Step::Done(
                Err(null_err("urma_import_jetty", errno)),
            ),
        }
    }
}

} // verus!
