//! The exchange with the C library: what is asked of it, and what it answered.
//!
//! The operations of this crate never call the C library themselves. An
//! operation hands out a [`Call`], its caller performs it and hands the
//! [`Reply`] back, until the operation is done. Everything that is decided
//! between two calls is decided here, in verified code.
//!
//! Many calls make an [`Object`] that has to be given back by another call
//! later. [`Call::effect`] says which. (The initialization of the library has
//! no address; the tree of resources keeps it.)

#![allow(non_camel_case_types)]

use vstd::prelude::*;

use crate::error::Result;
use crate::ffi::{
    urma_context_t, urma_cr_t, urma_device_attr_t, urma_eid_info_t, urma_import_seg_flag_t,
    urma_init_attr_t, urma_jetty_cfg_t, urma_jetty_id_t, urma_jfc_cfg_t, urma_jfc_t, urma_jfce_t,
    urma_jfr_cfg_t, urma_jfr_t, urma_jfr_wr_t, urma_jfs_wr_t, urma_rjetty_t, urma_seg_cfg_t,
    urma_seg_t, urma_sg_t, urma_target_jetty_t, urma_token_t, Addr, URMA_OPC_READ, URMA_SUCCESS,
};

verus! {

/// One call, with its arguments. Each variant names the C function it is for;
/// the last three are for the allocator and for waiting.
#[allow(inconsistent_fields)]
pub enum Call {
    /// `urma_init`
    Init { attr: urma_init_attr_t },
    /// `urma_uninit`
    Uninit,
    /// `urma_get_device_list`
    GetDeviceList,
    /// `urma_free_device_list`
    FreeDeviceList { list: Addr },
    /// `urma_get_device_by_name`; the name is NUL-terminated
    GetDeviceByName { name: Vec<u8> },
    /// `urma_get_eid_list`
    GetEidList { dev: Addr },
    /// `urma_free_eid_list`
    FreeEidList { list: Addr },
    /// `urma_query_device`
    QueryDevice { dev: Addr },
    /// `urma_create_context`
    CreateContext { dev: Addr, eid_index: u32 },
    /// `urma_delete_context`
    DeleteContext { ctx: urma_context_t },
    /// `urma_create_jfce`
    CreateJfce { ctx: urma_context_t },
    /// `urma_delete_jfce`
    DeleteJfce { jfce: urma_jfce_t },
    /// `urma_create_jfc`
    CreateJfc { ctx: urma_context_t, cfg: urma_jfc_cfg_t },
    /// `urma_delete_jfc`
    DeleteJfc { jfc: urma_jfc_t },
    /// `urma_poll_jfc` for at most `max` records
    PollJfc { jfc: urma_jfc_t, max: i32 },
    /// `urma_create_jfr`
    CreateJfr { ctx: urma_context_t, cfg: urma_jfr_cfg_t },
    /// `urma_delete_jfr`
    DeleteJfr { jfr: urma_jfr_t },
    /// `urma_post_jfr_wr`
    PostJfrWr { jfr: urma_jfr_t, wr: urma_jfr_wr_t },
    /// `urma_create_jetty`
    CreateJetty { ctx: urma_context_t, cfg: urma_jetty_cfg_t },
    /// `urma_delete_jetty`
    DeleteJetty { jetty: Addr },
    /// `urma_post_jetty_send_wr`
    PostJettySendWr { jetty: Addr, wr: urma_jfs_wr_t },
    /// `urma_get_rjetty`
    GetRjetty { jetty: Addr },
    /// `urma_put_rjetty`
    PutRjetty { rjetty: Addr },
    /// `urma_import_jetty` with a descriptor made here
    ImportJetty { ctx: urma_context_t, rjetty: urma_rjetty_t, token: urma_token_t },
    /// `urma_import_jetty` with an exported descriptor, as aligned words
    ImportJettyBlob { ctx: urma_context_t, rjetty: Vec<u64>, token: urma_token_t },
    /// `urma_unimport_jetty`
    UnimportJetty { tjetty: urma_target_jetty_t },
    /// `urma_register_seg`
    RegisterSeg { ctx: urma_context_t, cfg: urma_seg_cfg_t },
    /// `urma_unregister_seg`
    UnregisterSeg { tseg: Addr },
    /// `urma_import_seg` with a descriptor made here
    ImportSeg {
        ctx: urma_context_t,
        seg: urma_seg_t,
        token: urma_token_t,
        addr: u64,
        flag: urma_import_seg_flag_t,
    },
    /// `urma_import_seg` with an exported descriptor, as aligned words
    ImportSegBlob {
        ctx: urma_context_t,
        seg: Vec<u64>,
        token: urma_token_t,
        addr: u64,
        flag: urma_import_seg_flag_t,
    },
    /// `urma_unimport_seg`
    UnimportSeg { tseg: Addr },
    /// `urma_get_seg_ctx`
    GetSegCtx { tseg: Addr },
    /// `urma_put_seg_ctx`
    PutSegCtx { seg: Addr },
    /// Allocate zeroed memory
    AllocZeroed { size: usize, align: usize },
    /// Give memory back to the allocator
    Dealloc { addr: Addr, size: usize, align: usize },
    /// Let this thread sleep
    Sleep { millis: u64 },
}

/// The answer to a [`Call`].
#[allow(inconsistent_fields)]
pub enum Reply {
    /// A status
    Status(i32),
    /// A pointer; `errno` was read right after the call
    Pointer { addr: Addr, errno: i32 },
    /// The device list: the pointer, the count, and for each entry of the list
    /// the bytes of the device's name up to its NUL, or `None` where the entry
    /// is NULL
    Devices { list: Addr, count: i32, names: Vec<Option<Vec<u8>>> },
    /// The EID list: the pointer, the count and the first entry, which means
    /// something only where there is one
    Eids { list: Addr, count: u32, first: urma_eid_info_t },
    /// The status of `urma_query_device` and what it filled in
    Attr { status: i32, attr: urma_device_attr_t },
    /// A jetty and the identifier found in it
    Jetty { addr: Addr, errno: i32, jetty_id: urma_jetty_id_t },
    /// How many records a poll gave, and the first one
    Polled { n: i32, cr: urma_cr_t },
    /// An exported blob: the status, where the library put it, and its bytes
    Blob { status: i32, addr: Addr, errno: i32, bytes: Vec<u8> },
    /// The call was made; nothing that it returned is looked at
    Done,
}

impl Call {
    /// Whether `reply` has the form of an answer to this call. Memory is as
    /// aligned as it was asked to be.
    pub open spec fn answered_by(&self, reply: &Reply) -> bool {
        match *self {
            Call::Init { .. } => reply is Status,
            Call::PostJfrWr { .. } => reply is Status,
            Call::PostJettySendWr { .. } => reply is Status,
            Call::GetDeviceList => reply matches Reply::Devices { list, count, names } && (list != 0
                && count > 0 ==> names@.len() == count),
            Call::GetDeviceByName { .. } => reply is Pointer,
            Call::GetEidList { .. } => reply is Eids,
            Call::QueryDevice { .. } => reply is Attr,
            Call::CreateContext { .. } => reply is Pointer,
            Call::CreateJfce { .. } => reply is Pointer,
            Call::CreateJfc { .. } => reply is Pointer,
            Call::CreateJfr { .. } => reply is Pointer,
            Call::CreateJetty { .. } => reply is Jetty,
            Call::ImportJetty { .. } => reply is Pointer,
            Call::ImportJettyBlob { .. } => reply is Pointer,
            Call::RegisterSeg { .. } => reply is Pointer,
            Call::ImportSeg { .. } => reply is Pointer,
            Call::ImportSegBlob { .. } => reply is Pointer,
            Call::AllocZeroed { align, .. } => reply matches Reply::Pointer { addr, .. }
                && is_aligned(*addr, align),
            Call::PollJfc { .. } => reply is Polled,
            Call::GetRjetty { .. } => reply is Blob,
            Call::GetSegCtx { .. } => reply is Blob,
            _ => reply is Done,
        }
    }

    /// See [`Call::answered_by`].
    pub fn is_answered_by(&self, reply: &Reply) -> (r: bool)
        ensures
            r == self.answered_by(reply),
    {
        match self {
            Call::Init { .. } | Call::PostJfrWr { .. } | Call::PostJettySendWr { .. } => match reply {
                Reply::Status(_) => true,
                _ => false,
            },
            Call::GetDeviceList => match reply {
                Reply::Devices { list, count, names } => *list == 0 || *count <= 0 || names.len()
                    == *count as usize,
                _ => false,
            },
            Call::GetDeviceByName { .. }
            | Call::CreateContext { .. }
            | Call::CreateJfce { .. }
            | Call::CreateJfc { .. }
            | Call::CreateJfr { .. }
            | Call::ImportJetty { .. }
            | Call::ImportJettyBlob { .. }
            | Call::RegisterSeg { .. }
            | Call::ImportSeg { .. }
            | Call::ImportSegBlob { .. } => match reply {
                Reply::Pointer { .. } => true,
                _ => false,
            },
            Call::AllocZeroed { align, .. } => match reply {
                Reply::Pointer { addr, .. } => *align != 0 && *addr % (*align as u64) == 0,
                _ => false,
            },
            Call::GetEidList { .. } => match reply {
                Reply::Eids { .. } => true,
                _ => false,
            },
            Call::QueryDevice { .. } => match reply {
                Reply::Attr { .. } => true,
                _ => false,
            },
            Call::CreateJetty { .. } => match reply {
                Reply::Jetty { .. } => true,
                _ => false,
            },
            Call::PollJfc { .. } => match reply {
                Reply::Polled { .. } => true,
                _ => false,
            },
            Call::GetRjetty { .. } | Call::GetSegCtx { .. } => match reply {
                Reply::Blob { .. } => true,
                _ => false,
            },
            _ => match reply {
                Reply::Done => true,
                _ => false,
            },
        }
    }

    /// What the call makes or gives back.
    pub open spec fn effect(&self) -> Effect {
        match *self {
            Call::GetDeviceList => Effect::Make(Kind::DeviceList),
            Call::FreeDeviceList { list } => Effect::GiveBack(
                Object { kind: Kind::DeviceList, addr: list },
            ),
            Call::GetEidList { .. } => Effect::Make(Kind::EidList),
            Call::FreeEidList { list } => Effect::GiveBack(
                Object { kind: Kind::EidList, addr: list },
            ),
            Call::CreateContext { .. } => Effect::Make(Kind::Context),
            Call::DeleteContext { ctx } => Effect::GiveBack(
                Object { kind: Kind::Context, addr: ctx.addr },
            ),
            Call::CreateJfce { .. } => Effect::Make(Kind::Jfce),
            Call::DeleteJfce { jfce } => Effect::GiveBack(
                Object { kind: Kind::Jfce, addr: jfce.addr },
            ),
            Call::CreateJfc { .. } => Effect::Make(Kind::Jfc),
            Call::DeleteJfc { jfc } => Effect::GiveBack(
                Object { kind: Kind::Jfc, addr: jfc.addr },
            ),
            Call::CreateJfr { .. } => Effect::Make(Kind::Jfr),
            Call::DeleteJfr { jfr } => Effect::GiveBack(
                Object { kind: Kind::Jfr, addr: jfr.addr },
            ),
            Call::CreateJetty { .. } => Effect::Make(Kind::Jetty),
            Call::DeleteJetty { jetty } => Effect::GiveBack(
                Object { kind: Kind::Jetty, addr: jetty },
            ),
            Call::GetRjetty { .. } => Effect::Make(Kind::RjettyBlob),
            Call::PutRjetty { rjetty } => Effect::GiveBack(
                Object { kind: Kind::RjettyBlob, addr: rjetty },
            ),
            Call::ImportJetty { .. } => Effect::Make(Kind::ImportedJetty),
            Call::ImportJettyBlob { .. } => Effect::Make(Kind::ImportedJetty),
            Call::UnimportJetty { tjetty } => Effect::GiveBack(
                Object { kind: Kind::ImportedJetty, addr: tjetty.addr },
            ),
            Call::RegisterSeg { .. } => Effect::Make(Kind::Seg),
            Call::UnregisterSeg { tseg } => Effect::GiveBack(
                Object { kind: Kind::Seg, addr: tseg },
            ),
            Call::ImportSeg { .. } => Effect::Make(Kind::ImportedSeg),
            Call::ImportSegBlob { .. } => Effect::Make(Kind::ImportedSeg),
            Call::UnimportSeg { tseg } => Effect::GiveBack(
                Object { kind: Kind::ImportedSeg, addr: tseg },
            ),
            Call::GetSegCtx { .. } => Effect::Make(Kind::SegBlob),
            Call::PutSegCtx { seg } => Effect::GiveBack(Object { kind: Kind::SegBlob, addr: seg }),
            Call::AllocZeroed { .. } => Effect::Make(Kind::Memory),
            Call::Dealloc { addr, .. } => Effect::GiveBack(Object { kind: Kind::Memory, addr }),
            _ => Effect::Neither,
        }
    }

    /// The objects that have to exist when the call is made: those that its
    /// arguments point to. (A device is the library's own.)
    pub open spec fn uses(&self) -> Set<Object> {
        match *self {
            Call::CreateJfce { ctx } => set![context_object(ctx)],
            Call::CreateJfc { ctx, cfg } => set![
                context_object(ctx),
                Object { kind: Kind::Jfce, addr: cfg.jfce.addr },
            ],
            Call::PollJfc { jfc, .. } => set![Object { kind: Kind::Jfc, addr: jfc.addr }],
            Call::CreateJfr { ctx, cfg } => set![
                context_object(ctx),
                Object { kind: Kind::Jfc, addr: cfg.jfc.addr },
            ],
            Call::PostJfrWr { jfr, wr } => set![Object { kind: Kind::Jfr, addr: jfr.addr }].union(
                segs_of(wr.src, Kind::Seg),
            ),
            Call::CreateJetty { ctx, cfg } => set![
                context_object(ctx),
                Object { kind: Kind::Jfc, addr: cfg.jfs_cfg.jfc.addr },
                Object { kind: Kind::Jfr, addr: cfg.recv.jfr.addr },
            ],
            Call::PostJettySendWr { jetty, wr } => set![
                Object { kind: Kind::Jetty, addr: jetty },
                Object { kind: Kind::ImportedJetty, addr: wr.tjetty.addr },
            ].union(
                segs_of(
                    wr.rw.src,
                    if wr.opcode == URMA_OPC_READ {
                        Kind::ImportedSeg
                    } else {
                        Kind::Seg
                    },
                ),
            ).union(segs_of(wr.rw.dst, Kind::Seg)),
            Call::GetRjetty { jetty } => set![Object { kind: Kind::Jetty, addr: jetty }],
            Call::ImportJetty { ctx, .. } => set![context_object(ctx)],
            Call::ImportJettyBlob { ctx, .. } => set![context_object(ctx)],
            Call::RegisterSeg { ctx, .. } => set![context_object(ctx)],
            Call::ImportSeg { ctx, .. } => set![context_object(ctx)],
            Call::ImportSegBlob { ctx, .. } => set![context_object(ctx)],
            Call::GetSegCtx { tseg } => set![Object { kind: Kind::Seg, addr: tseg }],
            _ => match self.effect() {
                Effect::GiveBack(o) => set![o],
                _ => Set::empty(),
            },
        }
    }
}

/// The object that a context is.
pub open spec fn context_object(ctx: urma_context_t) -> Object {
    Object { kind: Kind::Context, addr: ctx.addr }
}

/// The address is a multiple of the alignment.
pub open spec fn is_aligned(addr: Addr, align: usize) -> bool {
    align != 0 && addr % (align as u64) == 0
}

/// The segments that the elements of a list lie in: own ones, or imported ones.
pub open spec fn segs_of(list: urma_sg_t, kind: Kind) -> Set<Object> {
    Set::new(
        |o: Object|
            o.kind == kind && exists|i: int|
                0 <= i < list.sge@.len() && (#[trigger] list.sge@[i]).tseg == o.addr,
    )
}

/// What kinds of object the calls make.
#[derive(Clone, Copy, PartialEq, Eq, Structural)]
pub enum Kind {
    DeviceList,
    EidList,
    Context,
    Jfce,
    Jfc,
    Jfr,
    Jetty,
    RjettyBlob,
    ImportedJetty,
    Seg,
    ImportedSeg,
    SegBlob,
    Memory,
}

/// Something made by a call that another call has to give back.
#[derive(Clone, Copy, PartialEq, Eq, Structural)]
pub struct Object {
    pub kind: Kind,
    pub addr: Addr,
}

/// What a call does to the objects that exist.
pub enum Effect {
    /// It makes one of this kind, if it succeeds
    Make(Kind),
    /// It gives this one back
    GiveBack(Object),
    Neither,
}

impl Reply {
    /// Where the object is that the answered call made, if it made one. A call
    /// that returns a pointer made one exactly when the pointer is not NULL.
    pub open spec fn made(&self) -> Option<Addr> {
        match *self {
            Reply::Pointer { addr, .. } => if addr != 0 {
                Some(addr)
            } else {
                None
            },
            Reply::Devices { list, .. } => if list != 0 {
                Some(list)
            } else {
                None
            },
            Reply::Eids { list, .. } => if list != 0 {
                Some(list)
            } else {
                None
            },
            Reply::Jetty { addr, .. } => if addr != 0 {
                Some(addr)
            } else {
                None
            },
            Reply::Blob { status, addr, .. } => if status == URMA_SUCCESS && addr != 0 {
                Some(addr)
            } else {
                None
            },
            _ => None,
        }
    }
}

/// The objects held after a call with this effect was answered by `reply`.
pub open spec fn held_after(held: Set<Object>, effect: Effect, reply: Reply) -> Set<Object> {
    match effect {
        Effect::Make(kind) => match reply.made() {
            Some(addr) => held.insert(Object { kind, addr }),
            None => held,
        },
        Effect::GiveBack(o) => held.remove(o),
        Effect::Neither => held,
    }
}

/// Where an operation stands: it waits for the answer to a call, or it is done.
pub enum Step<S, T> {
    /// Perform the call and hand its answer to the state
    Ask(S, Call),
    Done(Result<T>),
}

} // verus!
