//! Flag unions and accessors of the C API.

use urma_rs::ffi::{
    urma_device_feature_t, urma_eid_t, urma_import_seg_flag_t, urma_jfs_flag_t,
    urma_order_type_cap_t, urma_reg_seg_flag_t, urma_tp_feature_t, urma_tp_type_cap_t,
    urma_ubva_t, URMA_ACCESS_READ, URMA_ACCESS_WRITE, URMA_EID_SIZE, URMA_FEATURE_CTP_EN,
    URMA_IMPORT_SEG_ACCESS_MASK, URMA_JFS_FLAG_MULTI_PATH, URMA_JFS_FLAG_ORDER_TYPE_MASK,
    URMA_ORDER_CAP_NO, URMA_ORDER_CAP_OT, URMA_REG_SEG_ACCESS_MASK, URMA_TP_FEAT_RM_MULTI_PATH,
    URMA_TP_TYPE_CAP_CTP, URMA_TP_TYPE_CAP_RTP,
};

#[test]
fn cap_union_helpers() {
    let f = urma_device_feature_t::default().with_ctp_en(true);
    assert!(f.ctp_en());
    assert_eq!(f.value, URMA_FEATURE_CTP_EN);
    assert!(!urma_device_feature_t::default().ctp_en());

    let c = urma_tp_type_cap_t { value: URMA_TP_TYPE_CAP_RTP | URMA_TP_TYPE_CAP_CTP };
    assert!(c.rtp());
    assert!(c.ctp());
    assert!(!c.utp());

    let o = urma_order_type_cap_t { value: URMA_ORDER_CAP_OT | URMA_ORDER_CAP_NO };
    assert!(o.ot());
    assert!(o.no());
    assert!(!o.oi());
    assert!(!o.ol());

    let t = urma_tp_feature_t { value: URMA_TP_FEAT_RM_MULTI_PATH };
    assert!(t.rm_multi_path());
    assert!(!t.rc_multi_path());
}

#[test]
fn flag_helpers_round_trip() {
    let f = urma_reg_seg_flag_t::default().with_access(URMA_ACCESS_READ | URMA_ACCESS_WRITE);
    assert_eq!(f.access(), URMA_ACCESS_READ | URMA_ACCESS_WRITE);
    assert_eq!(f.value, (URMA_ACCESS_READ | URMA_ACCESS_WRITE) << 5);

    let f = urma_import_seg_flag_t::default().with_access(URMA_ACCESS_READ | URMA_ACCESS_WRITE);
    assert_eq!(f.access(), URMA_ACCESS_READ | URMA_ACCESS_WRITE);
    assert_eq!(f.value, (URMA_ACCESS_READ | URMA_ACCESS_WRITE) << 1);

    let f = urma_jfs_flag_t::default().with_order_type(2).with_multi_path(true);
    assert_eq!(f.order_type(), 2);
    assert!(f.multi_path());
    assert_eq!(f.value, (2 << 3) | URMA_JFS_FLAG_MULTI_PATH);

    assert!(!urma_jfs_flag_t::default().with_multi_path(false).multi_path());
}

#[test]
fn packed_ubva_accessors() {
    let mut ubva = urma_ubva_t { eid: [0xa5; URMA_EID_SIZE], uasid: 0x1234, ..Default::default() };
    ubva.set_va(0xdead_beef_cafe_f00d);
    assert_eq!(ubva.eid, [0xa5; URMA_EID_SIZE]);
    let uasid = ubva.uasid;
    assert_eq!(uasid, 0x1234);
    assert_eq!(ubva.va(), 0xdead_beef_cafe_f00d);
}

#[test]
fn clearing_a_flag_leaves_the_others() {
    let f = urma_device_feature_t { value: 0xffff_ffff }.with_ctp_en(false);
    assert_eq!(f.value, 0xfffb_ffff);
    assert!(!f.ctp_en());

    let f = urma_jfs_flag_t { value: 0xffff_ffff }.with_multi_path(false);
    assert_eq!(f.value, 0xffff_f7ff);
    assert_eq!(f.order_type(), 0xff);
}

#[test]
fn replacing_a_field_leaves_the_rest() {
    assert_eq!(URMA_REG_SEG_ACCESS_MASK, 0x3f << 5);
    assert_eq!(URMA_IMPORT_SEG_ACCESS_MASK, 0x3f << 1);
    assert_eq!(URMA_JFS_FLAG_ORDER_TYPE_MASK, 0xff << 3);

    let f = urma_reg_seg_flag_t { value: 0xffff_ffff }.with_access(0x2a);
    assert_eq!(f.access(), 0x2a);
    assert_eq!(f.value, (0xffff_ffff & !(0x3f << 5)) | (0x2a << 5));

    let f = urma_import_seg_flag_t { value: 0xffff_ffff }.with_access(0);
    assert_eq!(f.access(), 0);
    assert_eq!(f.value, 0xffff_ff81);

    let f = urma_jfs_flag_t { value: 0x807 }.with_order_type(0xff);
    assert_eq!(f.order_type(), 0xff);
    assert!(f.multi_path());
    assert_eq!(f.value, 0xfff);
}

#[test]
fn a_value_wider_than_its_field_spills_over() {
    /* bit 6 of the access value is bit 11 of the flag */
    let f = urma_reg_seg_flag_t::default().with_access(0x40);
    assert_eq!(f.value, 0x800);
    assert_eq!(f.access(), 0);
    let f = urma_jfs_flag_t::default().with_order_type(0x100);
    assert_eq!(f.order_type(), 0);
    assert!(f.multi_path());
}

#[test]
fn an_eid_is_shown_in_pairs() {
    let mut raw = [0u8; 16];
    raw[0] = 0xfe;
    raw[1] = 0x80;
    raw[15] = 0x0a;
    let eid = urma_eid_t { raw };
    assert_eq!(
        eid.to_debug_string(),
        "urma_eid_t(fe80:0000:0000:0000:0000:0000:0000:000a)"
    );
    assert!(urma_eid_t::default() == urma_eid_t { raw: [0; 16] });
}
