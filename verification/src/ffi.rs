//! The URMA C API as values.
//!
//! Only the subset used by the safe layer is here. Modeling notes:
//! - A C pointer is the address it holds, an [`Addr`]; NULL is 0. Objects that
//!   cross the API only as pointers (context / jfc / jfr / jfce / ...) are
//!   types that hold nothing but that address.
//! - `urma_jetty_t` models only the documented prefix fields.
//! - C bitfield unions (`urma_*_flag_t`) are modeled as `value: u32` plus
//!   named constants and shift-wrapping helper methods.
//! - Anonymous unions are modeled by their largest member (`urma_jetty_cfg_t`'s
//!   recv union; the payload union of `urma_jfs_wr_t` by `urma_rw_wr_t`).
//! - A pointer to an array together with its length (`urma_sg_t`) is the array.

#![allow(non_camel_case_types)]

use vstd::prelude::*;

verus! {

/// The address of a C object; 0 is NULL.
pub type Addr = u64;

/* ============================== Constants (urma_opcode.h) ============================== */

pub const URMA_EID_SIZE: usize = 16;
pub const URMA_MAX_NAME: usize = 64;
pub const URMA_MAX_PATH: usize = 4096;
pub const URMA_GUID_SIZE: usize = 16;
pub const URMA_MAX_PRIORITY_CNT: usize = 16;
pub const MAX_PORT_CNT: usize = 8;

/// urma_transport_type_t (values of urma_device_t.type_)
pub const URMA_TRANSPORT_INVALID: i32 = -1;
pub const URMA_TRANSPORT_UB: i32 = 0;
pub const URMA_TRANSPORT_IB: i32 = 1;
pub const URMA_TRANSPORT_IP: i32 = 2;
pub const URMA_TRANSPORT_SOFTUB: i32 = 3;
pub const URMA_TRANSPORT_HNS_UB: i32 = 5;

/// urma_vlog_level_t (urma_types.h)
pub const URMA_VLOG_LEVEL_EMERG: i32 = 0;
pub const URMA_VLOG_LEVEL_ALERT: i32 = 1;
pub const URMA_VLOG_LEVEL_CRIT: i32 = 2;
pub const URMA_VLOG_LEVEL_ERR: i32 = 3;
pub const URMA_VLOG_LEVEL_WARNING: i32 = 4;
pub const URMA_VLOG_LEVEL_NOTICE: i32 = 5;
pub const URMA_VLOG_LEVEL_INFO: i32 = 6;
pub const URMA_VLOG_LEVEL_DEBUG: i32 = 7;

/// token validation policy (values of the token_policy field of
/// urma_reg_seg_flag_t / urma_jfr_flag_t)
pub const URMA_TOKEN_NONE: u32 = 0;
pub const URMA_TOKEN_PLAIN_TEXT: u32 = 1;
pub const URMA_TOKEN_SIGNED: u32 = 2;
pub const URMA_TOKEN_ALL_ENCRYPTED: u32 = 3;

pub const URMA_NON_CACHEABLE: u32 = 0;
pub const URMA_CACHEABLE: u32 = 1;

/// Memory segment access rights, composable (go into the access field of the
/// flag unions, see each type's helper methods)
pub const URMA_ACCESS_LOCAL_ONLY: u32 = 0x1;
pub const URMA_ACCESS_READ: u32 = 0x2;
pub const URMA_ACCESS_WRITE: u32 = 0x4;
pub const URMA_ACCESS_ATOMIC: u32 = 0x8;

pub const URMA_SEG_NOMAP: u32 = 0;
pub const URMA_SEG_MAPPED: u32 = 1;

/// urma_transport_mode_t
pub const URMA_TM_RM: u32 = 0x1; /* reliable message */
pub const URMA_TM_RC: u32 = 0x2; /* reliable connection */
pub const URMA_TM_UM: u32 = 0x4; /* unreliable message */

/// urma_tp_type_t
pub const URMA_TP_RTP: u32 = 0;
pub const URMA_TP_CTP: u32 = 1;
pub const URMA_TP_UTP: u32 = 2;

/// urma_target_type_t
pub const URMA_TARGET_JFR: u32 = 0;
pub const URMA_TARGET_JETTY: u32 = 1;
pub const URMA_TARGET_JETTY_GROUP: u32 = 2;

/// Bits of urma_device_feature_t (urma_types.h): oor 0, jfc_per_wr 1,
/// stride_op 2, load_store_op 3, non_pin 4, pmem 5, jfc_inline 6, spray_en 7,
/// selective_retrans 8, live_migrate 9, dca 10, jetty_grp 11, error_suspend 12,
/// outorder_comp 13, mn 14, clan 15, muti_seg_per_token_id 16, ipourma_en 17,
/// ctp_en 18, uboe 19
pub const URMA_FEATURE_CTP_EN: u32 = 0x4_0000;

/// Bits of urma_tp_type_cap_t / urma_tp_type_en_t (same layout)
pub const URMA_TP_TYPE_CAP_RTP: u32 = 0x1;
pub const URMA_TP_TYPE_CAP_CTP: u32 = 0x2;
pub const URMA_TP_TYPE_CAP_UTP: u32 = 0x4;

/// Bits of urma_order_type_cap_t (bit index, NOT the urma_order_type_t value)
pub const URMA_ORDER_CAP_OT: u32 = 0x1;
pub const URMA_ORDER_CAP_OI: u32 = 0x2;
pub const URMA_ORDER_CAP_OL: u32 = 0x4;
pub const URMA_ORDER_CAP_NO: u32 = 0x8;

/// Bits of urma_tp_feature_t
pub const URMA_TP_FEAT_RM_MULTI_PATH: u32 = 0x1;
pub const URMA_TP_FEAT_RC_MULTI_PATH: u32 = 0x2;

/// urma_jetty_grp_policy_t
pub const URMA_JETTY_GRP_POLICY_RR: u32 = 0;
pub const URMA_JETTY_GRP_POLICY_HASH_HINT: u32 = 1;

/// urma_opcode_t (only the common ones are listed)
pub const URMA_OPC_WRITE: u32 = 0x00;
pub const URMA_OPC_WRITE_IMM: u32 = 0x01;
pub const URMA_OPC_READ: u32 = 0x10;
pub const URMA_OPC_SEND: u32 = 0x40;
pub const URMA_OPC_SEND_IMM: u32 = 0x41;

/// Bits of urma_jetty_flag_t
pub const URMA_JETTY_FLAG_SHARE_JFR: u32 = 0x1;

/// Bits of urma_jfs_flag_t: order_type spans bit3..11, multi_path is bit11
pub const URMA_JFS_FLAG_ORDER_TYPE_SHIFT: u32 = 3;
pub const URMA_JFS_FLAG_MULTI_PATH: u32 = 0x800;

/// Bits of urma_jfs_wr_flag_t: complete_enable is bit5
pub const URMA_JFS_WR_FLAG_COMPLETE_ENABLE: u32 = 0x20;

/// urma_status_t (function return value)
pub type urma_status_t = i32;
pub const URMA_SUCCESS: urma_status_t = 0;
pub const URMA_EAGAIN: urma_status_t = 11;
pub const URMA_ENOMEM: urma_status_t = 12;
pub const URMA_ETIMEOUT: urma_status_t = 110;
pub const URMA_EINVAL: urma_status_t = 22;
pub const URMA_EEXIST: urma_status_t = 17;
pub const URMA_EINPROGRESS: urma_status_t = 115;
pub const URMA_FAIL: urma_status_t = 0x1000;

/// urma_cr_status_t (values of urma_cr_t.status)
pub const URMA_CR_SUCCESS: i32 = 0;
pub const URMA_CR_WR_FLUSH_ERR: i32 = 12;

pub const URMA_TYPICAL_RNR_RETRY: u8 = 7;
pub const URMA_TYPICAL_ERR_TIMEOUT: u8 = 17;
pub const URMA_TYPICAL_MIN_RNR_TIMER: u8 = 12;
pub const URMA_MAX_PRIORITY: u8 = 15;

/// The order_type field of urma_jfs_flag_t, in place
pub const URMA_JFS_FLAG_ORDER_TYPE_MASK: u32 = 0x7f8;
/// The access field of urma_reg_seg_flag_t starts at bit5 and has 6 bits
pub const URMA_REG_SEG_ACCESS_SHIFT: u32 = 5;
pub const URMA_REG_SEG_ACCESS_MASK: u32 = 0x7e0;
/// The access field of urma_import_seg_flag_t starts at bit1 and has 6 bits
pub const URMA_IMPORT_SEG_ACCESS_SHIFT: u32 = 1;
pub const URMA_IMPORT_SEG_ACCESS_MASK: u32 = 0x7e;
/// has_user_info in urma_seg_attr_t: extension data follows the urma_seg_t
pub const URMA_SEG_ATTR_HAS_USER_INFO: u32 = 0x4000;

/* ============================== Bits ============================== */

/// Whether bit `i` of `value` is set.
pub open spec fn bit(value: u32, i: u32) -> bool {
    (value >> i) & 1 == 1
}

/// The bit masks of this file are the powers of two that their bit indices name.
proof fn lemma_masks()
    ensures
        1u32 << 0 == 0x1,
        1u32 << 1 == 0x2,
        1u32 << 2 == 0x4,
        1u32 << 3 == 0x8,
        1u32 << 11 == 0x800,
        1u32 << 14 == 0x4000,
        1u32 << 18 == 0x4_0000,
{
    assert(1u32 << 0 == 0x1 && 1u32 << 1 == 0x2 && 1u32 << 2 == 0x4 && 1u32 << 3 == 0x8 && 1u32
        << 11 == 0x800 && 1u32 << 14 == 0x4000 && 1u32 << 18 == 0x4_0000) by (bit_vector);
}

/// A one-bit mask tests, sets and clears its bit, and no other.
pub proof fn lemma_bit(value: u32, i: u32)
    requires
        i < 32,
    ensures
        (value & (1u32 << i) != 0) == bit(value, i),
        forall|j: u32| j < 32 ==> #[trigger] bit(value | (1u32 << i), j) == (j == i || bit(
            value,
            j,
        )),
        forall|j: u32| j < 32 ==> #[trigger] bit(value & !(1u32 << i), j) == (j != i && bit(
            value,
            j,
        )),
{
    assert((value & (1u32 << i) != 0) == ((value >> i) & 1 == 1)) by (bit_vector)
        requires
            i < 32,
    ;
    assert forall|j: u32| j < 32 implies #[trigger] bit(value | (1u32 << i), j) == (j == i || bit(
        value,
        j,
    )) by {
        assert((((value | (1u32 << i)) >> j) & 1 == 1) == (j == i || (value >> j) & 1 == 1))
            by (bit_vector)
            requires
                i < 32,
                j < 32,
        ;
    }
    assert forall|j: u32| j < 32 implies #[trigger] bit(value & !(1u32 << i), j) == (j != i && bit(
        value,
        j,
    )) by {
        assert((((value & !(1u32 << i)) >> j) & 1 == 1) == (j != i && (value >> j) & 1 == 1))
            by (bit_vector)
            requires
                i < 32,
                j < 32,
        ;
    }
}

/* ============================== Types (urma_types.h) ============================== */

/// C: `union urma_eid`, as raw bytes.
#[derive(Clone, Copy, PartialEq, Eq)]
pub struct urma_eid_t {
    pub raw: [u8; URMA_EID_SIZE],
}

impl Default for urma_eid_t {
    fn default() -> (r: Self)
        ensures
            r.raw@ == Seq::new(16, |i: int| 0u8),
    {
        let r = urma_eid_t { raw: [0u8; 16] };
        assert(r.raw@ =~= Seq::new(16, |i: int| 0u8));
        r
    }
}

#[derive(Clone, Copy, Debug, Default)]
pub struct urma_init_attr_t {
    pub token: u64,
    pub uasid: u32, /* 0 means system-assigned */
}

/// C: `urma_device_t`. name/path are public fields (for device enumeration /
/// display); ops/sysfs_dev are provider-internal pointers, placeholder only.
pub struct urma_device_t {
    pub name: [u8; URMA_MAX_NAME],
    pub path: [u8; URMA_MAX_PATH],
    pub type_: i32, /* urma_transport_type_t */
    pub ops: Addr,
    pub sysfs_dev: Addr,
}

#[derive(Clone, Copy, Default)]
pub struct urma_eid_info_t {
    pub eid: urma_eid_t,
    pub eid_index: u32,
}

/* ---------- device capabilities (urma_query_device output) ---------- */

/// C: `union urma_device_feature_t`, modeled as `value` + helpers for the
/// bits the safe layer reads (see the URMA_FEATURE_* constants for the layout)
#[derive(Clone, Copy, Debug)]
pub struct urma_device_feature_t {
    pub value: u32,
}

impl Default for urma_device_feature_t {
    fn default() -> (r: Self)
        ensures
            r.value == 0,
    {
        urma_device_feature_t { value: 0 }
    }
}

impl urma_device_feature_t {
    /// CTP requires this device-level gate in addition to the per-mode tp cap bits
    pub fn ctp_en(&self) -> (r: bool)
        ensures
            r == bit(self.value, 18),
    {
        proof {
            lemma_masks();
            lemma_bit(self.value, 18);
        }
        self.value & URMA_FEATURE_CTP_EN != 0
    }

    pub fn with_ctp_en(self, on: bool) -> (r: Self)
        ensures
            r.value == if on {
                self.value | URMA_FEATURE_CTP_EN
            } else {
                self.value & !URMA_FEATURE_CTP_EN
            },
            bit(r.value, 18) == on,
            forall|j: u32| j < 32 && j != 18 ==> bit(r.value, j) == bit(self.value, j),
    {
        proof {
            lemma_masks();
            lemma_bit(self.value, 18);
        }
        if on {
            Self { value: self.value | URMA_FEATURE_CTP_EN }
        } else {
            Self { value: self.value & !URMA_FEATURE_CTP_EN }
        }
    }
}

/// C: `union urma_atomic_feature_t` (cas bit0, swap bit1, fetch_and_* bits2..7)
#[derive(Clone, Copy, Debug, Default)]
pub struct urma_atomic_feature_t {
    pub value: u32,
}

/// C: `union urma_tp_type_cap_t` — which tp types one trans mode supports
/// (same bit layout as `urma_tp_type_en_t`)
#[derive(Clone, Copy, Debug)]
pub struct urma_tp_type_cap_t {
    pub value: u32,
}

impl Default for urma_tp_type_cap_t {
    fn default() -> (r: Self)
        ensures
            r.value == 0,
    {
        urma_tp_type_cap_t { value: 0 }
    }
}

impl urma_tp_type_cap_t {
    pub fn rtp(&self) -> (r: bool)
        ensures
            r == bit(self.value, 0),
    {
        proof {
            lemma_masks();
            lemma_bit(self.value, 0);
        }
        self.value & URMA_TP_TYPE_CAP_RTP != 0
    }

    pub fn ctp(&self) -> (r: bool)
        ensures
            r == bit(self.value, 1),
    {
        proof {
            lemma_masks();
            lemma_bit(self.value, 1);
        }
        self.value & URMA_TP_TYPE_CAP_CTP != 0
    }

    pub fn utp(&self) -> (r: bool)
        ensures
            r == bit(self.value, 2),
    {
        proof {
            lemma_masks();
            lemma_bit(self.value, 2);
        }
        self.value & URMA_TP_TYPE_CAP_UTP != 0
    }
}

/// C: `union urma_order_type_cap_t` — which order types one trans mode
/// supports (bit index, not the urma_order_type_t value)
#[derive(Clone, Copy, Debug)]
pub struct urma_order_type_cap_t {
    pub value: u32,
}

impl Default for urma_order_type_cap_t {
    fn default() -> (r: Self)
        ensures
            r.value == 0,
    {
        urma_order_type_cap_t { value: 0 }
    }
}

impl urma_order_type_cap_t {
    pub fn ot(&self) -> (r: bool)
        ensures
            r == bit(self.value, 0),
    {
        proof {
            lemma_masks();
            lemma_bit(self.value, 0);
        }
        self.value & URMA_ORDER_CAP_OT != 0
    }

    pub fn oi(&self) -> (r: bool)
        ensures
            r == bit(self.value, 1),
    {
        proof {
            lemma_masks();
            lemma_bit(self.value, 1);
        }
        self.value & URMA_ORDER_CAP_OI != 0
    }

    pub fn ol(&self) -> (r: bool)
        ensures
            r == bit(self.value, 2),
    {
        proof {
            lemma_masks();
            lemma_bit(self.value, 2);
        }
        self.value & URMA_ORDER_CAP_OL != 0
    }

    pub fn no(&self) -> (r: bool)
        ensures
            r == bit(self.value, 3),
    {
        proof {
            lemma_masks();
            lemma_bit(self.value, 3);
        }
        self.value & URMA_ORDER_CAP_NO != 0
    }
}

/// C: `union urma_tp_feature_t` — per-mode multi-path support
#[derive(Clone, Copy, Debug)]
pub struct urma_tp_feature_t {
    pub value: u32,
}

impl Default for urma_tp_feature_t {
    fn default() -> (r: Self)
        ensures
            r.value == 0,
    {
        urma_tp_feature_t { value: 0 }
    }
}

impl urma_tp_feature_t {
    pub fn rm_multi_path(&self) -> (r: bool)
        ensures
            r == bit(self.value, 0),
    {
        proof {
            lemma_masks();
            lemma_bit(self.value, 0);
        }
        self.value & URMA_TP_FEAT_RM_MULTI_PATH != 0
    }

    pub fn rc_multi_path(&self) -> (r: bool)
        ensures
            r == bit(self.value, 1),
    {
        proof {
            lemma_masks();
            lemma_bit(self.value, 1);
        }
        self.value & URMA_TP_FEAT_RC_MULTI_PATH != 0
    }
}

/// C: `union urma_tp_type_en` (per-SL tp type enable, inside urma_sl_info_t)
#[derive(Clone, Copy, Debug, Default)]
pub struct urma_tp_type_en_t {
    pub value: u32,
}

/// C: `struct urma_sl_info`
#[derive(Clone, Copy, Default)]
pub struct urma_sl_info_t {
    pub sl: u32, /* header field name: SL */
    pub tp_type: urma_tp_type_en_t,
}

/// C: `urma_port_attr_t` (C enums are 4 bytes here)
#[derive(Clone, Copy, Default)]
pub struct urma_port_attr_t {
    pub max_mtu: i32, /* urma_mtu_t */
    pub state: i32, /* urma_port_state_t */
    pub active_width: i32, /* urma_link_width_t */
    pub active_speed: i32, /* urma_speed_t */
    pub active_mtu: i32, /* urma_mtu_t */
}

/// C: `urma_guid_t`
#[derive(Clone, Copy, Default)]
pub struct urma_guid_t {
    pub raw: [u8; URMA_GUID_SIZE],
}

/// C: `urma_device_cap_t` — capabilities of one device. trans_mode is a bit
/// OR of urma_transport_mode_t; each mode has its own tp-type / order-type
/// cap; tp_feature carries per-mode multi-path support.
#[derive(Clone, Copy, Default)]
pub struct urma_device_cap_t {
    pub feature: urma_device_feature_t,
    pub max_jfc: u32,
    pub max_jfs: u32,
    pub max_jfr: u32,
    pub max_jetty: u32,
    pub max_jetty_grp: u32,
    pub max_jetty_in_jetty_grp: u32,
    pub max_jfc_depth: u32,
    pub max_jfs_depth: u32,
    pub max_jfr_depth: u32,
    pub max_jfs_inline_len: u32,
    pub max_jfs_sge: u32,
    pub max_jfs_rsge: u32,
    pub max_jfr_sge: u32,
    pub max_msg_size: u64,
    pub max_read_size: u32,
    pub max_write_size: u32,
    pub max_cas_size: u32,
    pub max_swap_size: u32,
    pub max_fetch_and_add_size: u32,
    pub max_fetch_and_sub_size: u32,
    pub max_fetch_and_and_size: u32,
    pub max_fetch_and_or_size: u32,
    pub max_fetch_and_xor_size: u32,
    pub atomic_feat: urma_atomic_feature_t,
    pub trans_mode: u16, /* bit OR of urma_transport_mode_t */
    pub reserved: u16,
    pub congestion_ctrl_alg: u16,
    pub ceq_cnt: u32,
    pub max_tp_in_tpg: u32,
    pub max_eid_cnt: u32,
    pub page_size_cap: u64,
    pub max_oor_cnt: u32,
    pub mn: u32,
    pub max_netaddr_cnt: u32,
    pub rm_order_cap: urma_order_type_cap_t,
    pub rc_order_cap: urma_order_type_cap_t,
    pub rm_tp_cap: urma_tp_type_cap_t,
    pub rc_tp_cap: urma_tp_type_cap_t,
    pub um_tp_cap: urma_tp_type_cap_t,
    pub tp_feature: urma_tp_feature_t,
    pub priority_info: [urma_sl_info_t; URMA_MAX_PRIORITY_CNT],
}

/// C: `urma_device_attr_t` — output of `urma_query_device` (caller allocates)
#[derive(Clone, Copy, Default)]
pub struct urma_device_attr_t {
    pub guid: urma_guid_t,
    pub dev_cap: urma_device_cap_t,
    pub port_cnt: u8,
    pub port_attr: [urma_port_attr_t; MAX_PORT_CNT],
    pub reserved_jetty_id_min: u32,
    pub reserved_jetty_id_max: u32,
}

/// Opaque: urma_context_t (contains pthread_mutex_t / fd, etc.), known only by its address
#[derive(Clone, Copy, Debug, Default, PartialEq, Eq, Structural)]
pub struct urma_context_t {
    pub addr: Addr,
}

/// Opaque: urma_jfce_t (completion event fd), known only by its address
#[derive(Clone, Copy, Debug, Default, PartialEq, Eq, Structural)]
pub struct urma_jfce_t {
    pub addr: Addr,
}

/// C: `union urma_jfc_flag_t`
#[derive(Clone, Copy, Debug, Default)]
pub struct urma_jfc_flag_t {
    pub value: u32,
}

#[derive(Clone, Copy, Debug, Default)]
pub struct urma_jfc_cfg_t {
    pub depth: u32,
    pub flag: urma_jfc_flag_t,
    pub ceqn: u32,
    pub jfce: urma_jfce_t,
    pub user_ctx: u64,
}

/// Opaque: urma_jfc_t (contains pthread_mutex_t), known only by its address
#[derive(Clone, Copy, Debug, Default, PartialEq, Eq, Structural)]
pub struct urma_jfc_t {
    pub addr: Addr,
}

/// Identifier shared by jetty / jfs / jfr / jfc
#[derive(Clone, Copy, Default)]
pub struct urma_jetty_id_t {
    pub eid: urma_eid_t,
    pub uasid: u32,
    pub id: u32,
}

/// C: `union urma_jfs_flag_t`.
/// Bit layout (urma_types.h): lock_free/error_suspend/outorder_comp 1 bit
/// each, order_type 8 bits (starting at bit3), multi_path at bit11.
#[derive(Clone, Copy, Debug)]
pub struct urma_jfs_flag_t {
    pub value: u32,
}

impl Default for urma_jfs_flag_t {
    fn default() -> (r: Self)
        ensures
            r.value == 0,
    {
        urma_jfs_flag_t { value: 0 }
    }
}

impl urma_jfs_flag_t {
    /// The eight bits from bit3 on.
    pub open spec fn order_type_field(&self) -> u32 {
        (self.value >> 3) & 0xff
    }

    pub fn order_type(&self) -> (r: u32)
        ensures
            r == self.order_type_field(),
    {
        (self.value >> URMA_JFS_FLAG_ORDER_TYPE_SHIFT) & 0xff
    }

    /// Replace the order type. A value that has more than the field's eight
    /// bits also sets the bits above the field.
    pub fn with_order_type(self, v: u32) -> (r: Self)
        ensures
            r.value == (self.value & !URMA_JFS_FLAG_ORDER_TYPE_MASK) | (v << 3),
            v <= 0xff ==> r.order_type_field() == v,
            v <= 0xff ==> r.value & !URMA_JFS_FLAG_ORDER_TYPE_MASK == self.value
                & !URMA_JFS_FLAG_ORDER_TYPE_MASK,
            v <= 0xff ==> bit(r.value, 11) == bit(self.value, 11),
    {
        proof {
            let w = self.value;
            assert(v <= 0xff ==> (((w & !0x7f8) | (v << 3)) >> 11) & 1 == (w >> 11) & 1)
                by (bit_vector);
            assert(v <= 0xff ==> (((w & !0x7f8) | (v << 3)) >> 3) & 0xff == v) by (bit_vector);
            assert(v <= 0xff ==> ((w & !0x7f8) | (v << 3)) & !0x7f8 == w & !0x7f8) by (bit_vector);
        }
        Self { value: (self.value & !URMA_JFS_FLAG_ORDER_TYPE_MASK) | (v
            << URMA_JFS_FLAG_ORDER_TYPE_SHIFT) }
    }

    pub fn multi_path(&self) -> (r: bool)
        ensures
            r == bit(self.value, 11),
    {
        proof {
            lemma_masks();
            lemma_bit(self.value, 11);
        }
        self.value & URMA_JFS_FLAG_MULTI_PATH != 0
    }

    pub fn with_multi_path(self, on: bool) -> (r: Self)
        ensures
            r.value == if on {
                self.value | URMA_JFS_FLAG_MULTI_PATH
            } else {
                self.value & !URMA_JFS_FLAG_MULTI_PATH
            },
            bit(r.value, 11) == on,
            forall|j: u32| j < 32 && j != 11 ==> bit(r.value, j) == bit(self.value, j),
            r.order_type_field() == self.order_type_field(),
    {
        proof {
            let w = self.value;
            assert(((w | 0x800) >> 3) & 0xff == (w >> 3) & 0xff) by (bit_vector);
            assert(((w & !0x800) >> 3) & 0xff == (w >> 3) & 0xff) by (bit_vector);
            lemma_masks();
            lemma_bit(self.value, 11);
        }
        if on {
            Self { value: self.value | URMA_JFS_FLAG_MULTI_PATH }
        } else {
            Self { value: self.value & !URMA_JFS_FLAG_MULTI_PATH }
        }
    }
}

#[derive(Clone, Copy, Debug, Default)]
pub struct urma_jfs_cfg_t {
    pub depth: u32,
    pub flag: urma_jfs_flag_t,
    pub trans_mode: u32, /* urma_transport_mode_t */
    pub priority: u8,
    pub max_sge: u8,
    pub max_rsge: u8,
    pub max_inline_data: u32,
    pub rnr_retry: u8,
    pub err_timeout: u8,
    pub jfc: urma_jfc_t,
    pub user_ctx: u64,
}

/// C: `union urma_jfr_flag_t`. Default 0 = NO_TAG_MATCHING + order 0.
#[derive(Clone, Copy, Debug, Default)]
pub struct urma_jfr_flag_t {
    pub value: u32,
}

#[derive(Clone, Copy, Debug, Default)]
pub struct urma_jfr_cfg_t {
    pub id: u32, /* 0 means system-assigned */
    pub depth: u32,
    pub flag: urma_jfr_flag_t,
    pub trans_mode: u32, /* urma_transport_mode_t */
    pub max_sge: u8,
    pub min_rnr_timer: u8,
    pub jfc: urma_jfc_t,
    pub token_value: urma_token_t,
    pub user_ctx: u64,
}

/// Opaque: urma_jfr_t (contains pthread_mutex_t), known only by its address
#[derive(Clone, Copy, Debug, Default, PartialEq, Eq, Structural)]
pub struct urma_jfr_t {
    pub addr: Addr,
}

/// C: `union urma_jetty_flag_t`
#[derive(Clone, Copy, Debug, Default)]
pub struct urma_jetty_flag_t {
    pub value: u32,
}

/// The `shared` member (largest member, 16 bytes) of the anonymous union in
/// `urma_jetty_cfg_t`; the deprecated `jfr_cfg` pointer variant is not modeled.
#[derive(Clone, Copy, Debug, Default)]
pub struct urma_jetty_recv_cfg_t {
    pub jfr: urma_jfr_t,
    pub jfc: urma_jfc_t,
}

/// Opaque: urma_jetty_grp_t, known only by its address
#[derive(Clone, Copy, Debug, Default, PartialEq, Eq, Structural)]
pub struct urma_jetty_grp_t {
    pub addr: Addr,
}

#[derive(Clone, Copy, Debug, Default)]
pub struct urma_jetty_cfg_t {
    pub id: u32,
    pub flag: urma_jetty_flag_t,
    pub jfs_cfg: urma_jfs_cfg_t,
    pub recv: urma_jetty_recv_cfg_t,
    pub jetty_grp: urma_jetty_grp_t,
    pub user_ctx: u64,
}

/// C: `urma_jetty_t`. Models only the documented prefix (urma_ctx / jetty_id /
/// remote_jetty).
#[derive(Clone, Copy)]
pub struct urma_jetty_t {
    pub urma_ctx: urma_context_t,
    pub jetty_id: urma_jetty_id_t,
    pub remote_jetty: urma_target_jetty_t,
}

/// Opaque: urma_target_jetty_t (imported remote jetty), known only by its address
#[derive(Clone, Copy, Debug, Default, PartialEq, Eq, Structural)]
pub struct urma_target_jetty_t {
    pub addr: Addr,
}

/// C: `union urma_import_jetty_flag_t`
#[derive(Clone, Copy, Debug, Default)]
pub struct urma_import_jetty_flag_t {
    pub value: u32,
}

/// Request descriptor for importing a remote jetty
#[derive(Clone, Copy, Default)]
pub struct urma_rjetty_t {
    pub jetty_id: urma_jetty_id_t,
    pub trans_mode: u32, /* urma_transport_mode_t */
    pub policy: u32, /* urma_jetty_grp_policy_t */
    pub type_: u32, /* urma_target_type_t */
    pub flag: urma_import_jetty_flag_t,
    pub tp_type: u32, /* urma_tp_type_t */
}

/// Security credential
#[derive(Clone, Copy, Debug, Default)]
pub struct urma_token_t {
    pub token: u32,
}

/// Opaque: urma_token_id_t, known only by its address
#[derive(Clone, Copy, Debug, Default, PartialEq, Eq, Structural)]
pub struct urma_token_id_t {
    pub addr: Addr,
}

/// C: `union urma_reg_seg_flag_t`.
/// Bit layout: token_policy 3 bits (from bit0), cacheable bit3, dsva bit4,
/// access 6 bits (from bit5), non_pin bit11, user_iova bit12, token_id_valid
/// bit13.
#[derive(Clone, Copy, Debug)]
pub struct urma_reg_seg_flag_t {
    pub value: u32,
}

impl Default for urma_reg_seg_flag_t {
    fn default() -> (r: Self)
        ensures
            r.value == 0,
    {
        urma_reg_seg_flag_t { value: 0 }
    }
}

impl urma_reg_seg_flag_t {
    /// The six bits from bit5 on.
    pub open spec fn access_field(&self) -> u32 {
        (self.value >> 5) & 0x3f
    }

    /// The access field takes a combination of URMA_ACCESS_*
    pub fn access(&self) -> (r: u32)
        ensures
            r == self.access_field(),
    {
        proof {
            let w = self.value;
            assert((w & 0x7e0) >> 5 == (w >> 5) & 0x3f) by (bit_vector);
        }
        (self.value & URMA_REG_SEG_ACCESS_MASK) >> URMA_REG_SEG_ACCESS_SHIFT
    }

    /// Replace the access rights. A value that has more than the field's six
    /// bits also sets the bits above the field.
    pub fn with_access(self, access: u32) -> (r: Self)
        ensures
            r.value == (self.value & !URMA_REG_SEG_ACCESS_MASK) | (access << 5),
            access <= 0x3f ==> r.access_field() == access,
            access <= 0x3f ==> r.value & !URMA_REG_SEG_ACCESS_MASK == self.value & !URMA_REG_SEG_ACCESS_MASK,
    {
        proof {
            let w = self.value;
            assert(access <= 0x3f ==> (((w & !0x7e0) | (access << 5)) >> 5) & 0x3f == access)
                by (bit_vector);
            assert(access <= 0x3f ==> ((w & !0x7e0) | (access << 5)) & !0x7e0 == w & !0x7e0)
                by (bit_vector);
        }
        Self { value: (self.value & !URMA_REG_SEG_ACCESS_MASK) | (access << URMA_REG_SEG_ACCESS_SHIFT) }
    }
}

/// C: `union urma_seg_attr_t` (segment attributes inside urma_seg_t, same
/// layout as reg_seg_flag)
#[derive(Clone, Copy, Debug, Default)]
pub struct urma_seg_attr_t {
    pub value: u32,
}

/// C: `union urma_import_seg_flag_t`.
/// Bit layout: cacheable bit0, access 6 bits (from bit1), mapping bit7.
#[derive(Clone, Copy, Debug)]
pub struct urma_import_seg_flag_t {
    pub value: u32,
}

impl Default for urma_import_seg_flag_t {
    fn default() -> (r: Self)
        ensures
            r.value == 0,
    {
        urma_import_seg_flag_t { value: 0 }
    }
}

impl urma_import_seg_flag_t {
    /// The six bits from bit1 on.
    pub open spec fn access_field(&self) -> u32 {
        (self.value >> 1) & 0x3f
    }

    /// The access field takes a combination of URMA_ACCESS_*
    pub fn access(&self) -> (r: u32)
        ensures
            r == self.access_field(),
    {
        proof {
            let w = self.value;
            assert((w & 0x7e) >> 1 == (w >> 1) & 0x3f) by (bit_vector);
        }
        (self.value & URMA_IMPORT_SEG_ACCESS_MASK) >> URMA_IMPORT_SEG_ACCESS_SHIFT
    }

    /// Replace the access rights. A value that has more than the field's six
    /// bits also sets the bits above the field.
    pub fn with_access(self, access: u32) -> (r: Self)
        ensures
            r.value == (self.value & !URMA_IMPORT_SEG_ACCESS_MASK) | (access << 1),
            access <= 0x3f ==> r.access_field() == access,
            access <= 0x3f ==> r.value & !URMA_IMPORT_SEG_ACCESS_MASK == self.value & !URMA_IMPORT_SEG_ACCESS_MASK,
    {
        proof {
            let w = self.value;
            assert(access <= 0x3f ==> (((w & !0x7e) | (access << 1)) >> 1) & 0x3f == access)
                by (bit_vector);
            assert(access <= 0x3f ==> ((w & !0x7e) | (access << 1)) & !0x7e == w & !0x7e)
                by (bit_vector);
        }
        Self { value: (self.value & !URMA_IMPORT_SEG_ACCESS_MASK) | (access << URMA_IMPORT_SEG_ACCESS_SHIFT) }
    }
}

/// C: `urma_ubva_t`: eid 16B + uasid 4B + va 8B.
#[derive(Clone, Copy)]
pub struct urma_ubva_t {
    pub eid: [u8; URMA_EID_SIZE],
    pub uasid: u32,
    pub va: u64,
}

impl Default for urma_ubva_t {
    fn default() -> (r: Self)
        ensures
            r.eid@ == Seq::new(16, |i: int| 0u8),
            r.uasid == 0,
            r.va == 0,
    {
        let r = urma_ubva_t { eid: [0u8; 16], uasid: 0, va: 0 };
        assert(r.eid@ =~= Seq::new(16, |i: int| 0u8));
        r
    }
}

impl urma_ubva_t {
    pub fn va(&self) -> (r: u64)
        ensures
            r == self.va,
    {
        self.va
    }

    pub fn set_va(&mut self, va: u64)
        ensures
            *final(self) == (urma_ubva_t { va, ..*old(self) }),
    {
        self.va = va;
    }
}

/// Public descriptor of registered memory (wire form), placed in the directory
/// for the peer's `urma_import_seg`
#[derive(Clone, Copy, Default)]
pub struct urma_seg_t {
    pub ubva: urma_ubva_t,
    pub len: u64,
    pub attr: urma_seg_attr_t,
    pub token_id: u32,
}

/// Request parameters for registering memory
#[derive(Clone, Copy, Debug, Default)]
pub struct urma_seg_cfg_t {
    pub va: u64,
    pub len: u64,
    pub token_id: urma_token_id_t,
    pub token_value: urma_token_t,
    pub flag: urma_reg_seg_flag_t,
    pub user_ctx: u64,
    pub iova: u64,
}

/// Local memory segment handle obtained from register / import (all fields public)
#[derive(Clone, Copy, Default)]
pub struct urma_target_seg_t {
    pub seg: urma_seg_t,
    pub user_ctx: u64,
    pub mva: u64, /* mapped address when importing a remote segment */
    pub urma_ctx: urma_context_t,
    pub token_id: urma_token_id_t,
    pub handle: u64,
}

/// Opaque: urma_user_tseg_t (import-exemption path, unused)
#[derive(Clone, Copy, Debug, Default, PartialEq, Eq, Structural)]
pub struct urma_user_tseg_t {
    pub addr: Addr,
}

#[derive(Clone, Copy, Debug, Default)]
pub struct urma_sge_t {
    pub addr: u64,
    pub len: u32,
    pub tseg: Addr, /* urma_target_seg_t */
    pub user_tseg: urma_user_tseg_t,
}

/// A scatter/gather list: the elements and how many the C side is told of.
#[derive(Debug, Default)]
pub struct urma_sg_t {
    pub sge: Vec<urma_sge_t>,
    pub num_sge: u32,
}

/// Payload of a READ/WRITE work request. READ semantics: src is the remote
/// address, dst is the local address.
#[derive(Debug, Default)]
pub struct urma_rw_wr_t {
    pub src: urma_sg_t,
    pub dst: urma_sg_t,
    pub target_hint: u8,
    pub notify_data: u64,
}

/// C: `union urma_jfs_wr_flag_t`
#[derive(Clone, Copy, Debug, Default)]
pub struct urma_jfs_wr_flag_t {
    pub value: u32,
}

/// C: `urma_jfs_wr_t`. The payload union is modeled by its largest member
/// `urma_rw_wr_t`. READ/WRITE use `rw`; plain SEND can also be expressed —
/// `urma_send_wr_t.src` and `rw.src` both sit at union offset 0, and without
/// imm/invalidate the remaining members are all 0, so `rw.src` can be reused
/// (SEND with imm/invalidate and cas/faa are not modeled).
#[derive(Debug, Default)]
pub struct urma_jfs_wr_t {
    pub opcode: u32, /* urma_opcode_t */
    pub flag: urma_jfs_wr_flag_t,
    pub tjetty: urma_target_jetty_t,
    pub user_ctx: u64,
    pub rw: urma_rw_wr_t,
    pub next: Addr, /* urma_jfs_wr_t */
}

/// C: `urma_jfr_wr_t` (JFR receive WR: hangs a locally registered buffer on
/// the JFR, where the peer's SEND data will land)
#[derive(Debug, Default)]
pub struct urma_jfr_wr_t {
    pub src: urma_sg_t,
    pub user_ctx: u64,
    pub next: Addr, /* urma_jfr_wr_t */
}

/// C: `union urma_cr_flag_t` (u8 bitfield)
#[derive(Clone, Copy, Debug, Default)]
pub struct urma_cr_flag_t {
    pub value: u8,
}

/// A completion record
#[derive(Clone, Copy, Default)]
pub struct urma_cr_t {
    pub status: i32, /* urma_cr_status_t */
    pub user_ctx: u64,
    pub opcode: i32, /* urma_cr_opcode_t, valid on the receive side only */
    pub flag: urma_cr_flag_t,
    pub completion_len: u32,
    pub local_id: u32,
    pub remote_id: urma_jetty_id_t,
    pub imm_data: u64,
    pub tpn: u32,
    pub user_data: usize,
}

} // verus!
