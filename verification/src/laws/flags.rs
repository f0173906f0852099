//! The flags of the C API, and the forms of its answers.

use vstd::prelude::*;

use crate::call::{Call, Reply};
use crate::ffi::{
    urma_device_feature_t, urma_eid_t, urma_import_seg_flag_t, urma_jfs_flag_t, urma_order_type_cap_t,
    urma_reg_seg_flag_t, urma_tp_feature_t, urma_tp_type_cap_t, urma_ubva_t, URMA_ACCESS_READ,
    URMA_ACCESS_WRITE, URMA_CR_SUCCESS, URMA_JETTY_FLAG_SHARE_JFR, URMA_JETTY_GRP_POLICY_RR,
    URMA_JFS_WR_FLAG_COMPLETE_ENABLE, URMA_MAX_PRIORITY, URMA_OPC_READ, URMA_OPC_SEND,
    URMA_SUCCESS, URMA_TARGET_JETTY, URMA_TM_RC, URMA_TM_RM, URMA_TM_UM, URMA_TP_CTP,
    URMA_TYPICAL_ERR_TIMEOUT, URMA_TYPICAL_MIN_RNR_TIMER, URMA_TYPICAL_RNR_RETRY,
};
use crate::tree::PAGE_SIZE;
use crate::urma::value::{DEFAULT_DEPTH, POLL_INTERVAL, POLL_RETRIES, TOKEN_VALUE};

verus! {

/// The numbers that the C API and its users have agreed on.
pub proof fn law_constants()
    ensures
        URMA_SUCCESS == 0,
        URMA_CR_SUCCESS == 0,
        URMA_TM_RM == 0x1,
        URMA_TM_RC == 0x2,
        URMA_TM_UM == 0x4,
        URMA_TP_CTP == 1,
        URMA_TARGET_JETTY == 1,
        URMA_JETTY_GRP_POLICY_RR == 0,
        URMA_OPC_READ == 0x10,
        URMA_OPC_SEND == 0x40,
        URMA_ACCESS_READ == 0x2,
        URMA_ACCESS_WRITE == 0x4,
        URMA_JETTY_FLAG_SHARE_JFR == 0x1,
        URMA_JFS_WR_FLAG_COMPLETE_ENABLE == 0x20,
        URMA_TYPICAL_RNR_RETRY == 7,
        URMA_TYPICAL_ERR_TIMEOUT == 17,
        URMA_TYPICAL_MIN_RNR_TIMER == 12,
        URMA_MAX_PRIORITY == 15,
        PAGE_SIZE == 4096,
        TOKEN_VALUE == 0xACFE,
        DEFAULT_DEPTH == 64,
        POLL_RETRIES == 100,
        POLL_INTERVAL == 100,
{
}

/// The bits of a value, one by one.
proof fn lemma_bits(v: u32)
    ensures
        ((v >> 0u32) & 1 == 1) == (v & 0x1 != 0),
        ((v >> 1u32) & 1 == 1) == (v & 0x2 != 0),
        ((v >> 2u32) & 1 == 1) == (v & 0x4 != 0),
        ((v >> 3u32) & 1 == 1) == (v & 0x8 != 0),
        ((v >> 11u32) & 1 == 1) == (v & 0x800 != 0),
        ((v >> 18u32) & 1 == 1) == (v & 0x4_0000 != 0),
{
    assert(((v >> 0u32) & 1 == 1) == (v & 0x1 != 0) && ((v >> 1u32) & 1 == 1) == (v & 0x2 != 0)
        && ((v >> 2u32) & 1 == 1) == (v & 0x4 != 0) && ((v >> 3u32) & 1 == 1) == (v & 0x8 != 0)
        && ((v >> 11u32) & 1 == 1) == (v & 0x800 != 0) && ((v >> 18u32) & 1 == 1) == (v & 0x4_0000
        != 0)) by (bit_vector);
}

/// The device-level gate of CTP is one bit: it is read, set and cleared there, and no
/// other bit changes.
pub proof fn law_ctp_gate_is_one_bit(
    f: urma_device_feature_t,
    on: bool,
    open: bool,
    g: urma_device_feature_t,
)
    requires
        call_ensures(urma_device_feature_t::ctp_en, (&f,), open),
        call_ensures(urma_device_feature_t::with_ctp_en, (f, on), g),
    ensures
        open == (f.value & 0x4_0000 != 0),
        on == (g.value & 0x4_0000 != 0),
        g.value & !0x4_0000u32 == f.value & !0x4_0000u32,
{
    let v = f.value;
    lemma_bits(v);
    lemma_bits(g.value);
    assert((v | 0x4_0000) & !0x4_0000u32 == v & !0x4_0000u32 && (v & !0x4_0000u32) & !0x4_0000u32
        == v & !0x4_0000u32) by (bit_vector);
}

/// Each TP type is one bit.
pub proof fn law_tp_types_are_bits(c: &urma_tp_type_cap_t, rtp: bool, ctp: bool, utp: bool)
    requires
        call_ensures(urma_tp_type_cap_t::rtp, (c,), rtp),
        call_ensures(urma_tp_type_cap_t::ctp, (c,), ctp),
        call_ensures(urma_tp_type_cap_t::utp, (c,), utp),
    ensures
        rtp == (c.value & 0x1 != 0),
        ctp == (c.value & 0x2 != 0),
        utp == (c.value & 0x4 != 0),
{
    lemma_bits(c.value);
}

/// Each order type is one bit.
pub proof fn law_order_types_are_bits(
    c: &urma_order_type_cap_t,
    ot: bool,
    oi: bool,
    ol: bool,
    no: bool,
)
    requires
        call_ensures(urma_order_type_cap_t::ot, (c,), ot),
        call_ensures(urma_order_type_cap_t::oi, (c,), oi),
        call_ensures(urma_order_type_cap_t::ol, (c,), ol),
        call_ensures(urma_order_type_cap_t::no, (c,), no),
    ensures
        ot == (c.value & 0x1 != 0),
        oi == (c.value & 0x2 != 0),
        ol == (c.value & 0x4 != 0),
        no == (c.value & 0x8 != 0),
{
    lemma_bits(c.value);
}

/// The support of several paths is one bit for each mode that can have it.
pub proof fn law_multi_path_support_is_bits(c: &urma_tp_feature_t, rm: bool, rc: bool)
    requires
        call_ensures(urma_tp_feature_t::rm_multi_path, (c,), rm),
        call_ensures(urma_tp_feature_t::rc_multi_path, (c,), rc),
    ensures
        rm == (c.value & 0x1 != 0),
        rc == (c.value & 0x2 != 0),
{
    lemma_bits(c.value);
}

/// The order type of a jfs is eight bits and its use of several paths is one; setting
/// one leaves everything else as it was.
pub proof fn law_jfs_flag_fields(
    f: urma_jfs_flag_t,
    order: u32,
    paths: bool,
    v: u32,
    g: urma_jfs_flag_t,
    on: bool,
    h: urma_jfs_flag_t,
)
    requires
        call_ensures(urma_jfs_flag_t::order_type, (&f,), order),
        call_ensures(urma_jfs_flag_t::multi_path, (&f,), paths),
        call_ensures(urma_jfs_flag_t::with_order_type, (f, v), g),
        call_ensures(urma_jfs_flag_t::with_multi_path, (f, on), h),
    ensures
        order == (f.value / 8) % 256,
        paths == (f.value & 0x800 != 0),
        v < 256 ==> (g.value / 8) % 256 == v && g.value & !0x7f8u32 == f.value & !0x7f8u32,
        on == (h.value & 0x800 != 0),
        h.value & !0x800u32 == f.value & !0x800u32,
{
    let w = f.value;
    let x = g.value;
    lemma_bits(w);
    lemma_bits(h.value);
    assert((w >> 3) & 0xff == (w / 8) % 256 && (x >> 3) & 0xff == (x / 8) % 256) by (bit_vector);
    assert((w | 0x800) & !0x800u32 == w & !0x800u32 && (w & !0x800u32) & !0x800u32 == w & !0x800u32)
        by (bit_vector);
}

/// The access rights of a registration are six bits; setting them leaves everything
/// else as it was.
pub proof fn law_registration_access_field(
    f: urma_reg_seg_flag_t,
    access: u32,
    v: u32,
    g: urma_reg_seg_flag_t,
)
    requires
        call_ensures(urma_reg_seg_flag_t::access, (&f,), access),
        call_ensures(urma_reg_seg_flag_t::with_access, (f, v), g),
    ensures
        access == (f.value / 32) % 64,
        v < 64 ==> (g.value / 32) % 64 == v && g.value & !0x7e0u32 == f.value & !0x7e0u32,
{
    let w = f.value;
    let x = g.value;
    assert((w >> 5) & 0x3f == (w / 32) % 64 && (x >> 5) & 0x3f == (x / 32) % 64) by (bit_vector);
}

/// The access rights of an import are six bits; setting them leaves everything else
/// as it was.
pub proof fn law_import_access_field(
    f: urma_import_seg_flag_t,
    access: u32,
    v: u32,
    g: urma_import_seg_flag_t,
)
    requires
        call_ensures(urma_import_seg_flag_t::access, (&f,), access),
        call_ensures(urma_import_seg_flag_t::with_access, (f, v), g),
    ensures
        access == (f.value / 2) % 64,
        v < 64 ==> (g.value / 2) % 64 == v && g.value & !0x7eu32 == f.value & !0x7eu32,
{
    let w = f.value;
    let x = g.value;
    assert((w >> 1) & 0x3f == (w / 2) % 64 && (x >> 1) & 0x3f == (x / 2) % 64) by (bit_vector);
}

/// An address that is set is the address that is read; the rest stays.
pub proof fn law_ubva_keeps_its_address(u: &mut urma_ubva_t, va: u64, before: u64)
    requires
        call_ensures(urma_ubva_t::va, (&*old(u),), before),
        call_ensures(urma_ubva_t::set_va, (u, va), ()),
    ensures
        before == old(u).va,
        final(u).va == va,
        final(u).eid == old(u).eid,
        final(u).uasid == old(u).uasid,
{
}

/// A flag that nothing was set in is zero, and so are the other defaults.
pub proof fn law_defaults_are_zero(
    a: urma_device_feature_t,
    b: urma_tp_type_cap_t,
    c: urma_order_type_cap_t,
    d: urma_tp_feature_t,
    e: urma_jfs_flag_t,
    f: urma_reg_seg_flag_t,
    g: urma_import_seg_flag_t,
    h: urma_ubva_t,
    i: urma_eid_t,
)
    requires
        call_ensures(urma_device_feature_t::default, (), a),
        call_ensures(urma_tp_type_cap_t::default, (), b),
        call_ensures(urma_order_type_cap_t::default, (), c),
        call_ensures(urma_tp_feature_t::default, (), d),
        call_ensures(urma_jfs_flag_t::default, (), e),
        call_ensures(urma_reg_seg_flag_t::default, (), f),
        call_ensures(urma_import_seg_flag_t::default, (), g),
        call_ensures(urma_ubva_t::default, (), h),
        call_ensures(urma_eid_t::default, (), i),
    ensures
        a.value == 0,
        b.value == 0,
        c.value == 0,
        d.value == 0,
        e.value == 0,
        f.value == 0,
        g.value == 0,
        h.uasid == 0,
        h.va == 0,
        forall|k: int| 0 <= k < 16 ==> #[trigger] h.eid@[k] == 0,
        forall|k: int| 0 <= k < 16 ==> #[trigger] i.raw@[k] == 0,
{
}

/// Which answers a call can have: what the C function returns, whatever it holds. Of
/// a device list as many entries are shown as it has, and memory is as aligned as it
/// was asked to be.
pub proof fn law_answers_fit_their_calls(c: &Call, reply: &Reply, r: bool)
    requires
        call_ensures(Call::is_answered_by, (c, reply), r),
    ensures
        match *c {
            Call::Init { .. } => r == (reply is Status),
            Call::PostJfrWr { .. } => r == (reply is Status),
            Call::PostJettySendWr { .. } => r == (reply is Status),
            Call::GetDeviceList => {
                &&& r ==> reply is Devices
                &&& reply matches Reply::Devices { list, count, names } ==> r == (list == 0 || count
                    <= 0 || names@.len() == count)
            },
            Call::GetEidList { .. } => r == (reply is Eids),
            Call::QueryDevice { .. } => r == (reply is Attr),
            Call::CreateJetty { .. } => r == (reply is Jetty),
            Call::PollJfc { .. } => r == (reply is Polled),
            Call::GetRjetty { .. } => r == (reply is Blob),
            Call::GetSegCtx { .. } => r == (reply is Blob),
            Call::AllocZeroed { align, .. } => {
                &&& r ==> reply is Pointer
                &&& reply matches Reply::Pointer { addr, .. } ==> align != 0 ==> r == (addr as int
                    % align as int == 0)
            },
            Call::GetDeviceByName { .. } => r == (reply is Pointer),
            Call::CreateContext { .. } => r == (reply is Pointer),
            Call::CreateJfce { .. } => r == (reply is Pointer),
            Call::CreateJfc { .. } => r == (reply is Pointer),
            Call::CreateJfr { .. } => r == (reply is Pointer),
            Call::ImportJetty { .. } => r == (reply is Pointer),
            Call::ImportJettyBlob { .. } => r == (reply is Pointer),
            Call::RegisterSeg { .. } => r == (reply is Pointer),
            Call::ImportSeg { .. } => r == (reply is Pointer),
            Call::ImportSegBlob { .. } => r == (reply is Pointer),
            _ => r == (reply is Done),
        },
{
}

} // verus!
