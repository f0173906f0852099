//! Value types, blobs and capabilities.

use urma_rs::ffi::{
    urma_device_cap_t, urma_device_feature_t, urma_eid_t, urma_jetty_id_t, urma_order_type_cap_t,
    urma_tp_feature_t, urma_tp_type_cap_t,
};
use urma_rs::text::{push_decimal, push_hex, push_hex_byte, push_signed};
use urma_rs::urma::blob::{align_words, put_half, BlobSource, ByteOrder};
use urma_rs::{DeviceCap, Eid, Error, JettyId, JettyOpts, Peer, TpType, TransMode};

#[test]
fn numbers_are_written_as_usual() {
    for n in [0u64, 1, 9, 10, 99, 100, 4096, u64::MAX] {
        let mut s = String::from("<");
        push_decimal(&mut s, n);
        assert_eq!(s, format!("<{n}"));
        let mut s = String::new();
        push_hex(&mut s, n);
        assert_eq!(s, format!("{n:x}"));
    }
    for n in [0i32, -1, 7, -2048, i32::MIN, i32::MAX] {
        let mut s = String::new();
        push_signed(&mut s, n);
        assert_eq!(s, format!("{n}"));
    }
    for b in [0u8, 0x0f, 0xa0, 0xff] {
        let mut s = String::new();
        push_hex_byte(&mut s, b);
        assert_eq!(s, format!("{b:02x}"));
    }
}

#[test]
fn eid_text() {
    let mut raw = [0u8; 16];
    for i in 0..16u8 {
        raw[i as usize] = i * 0x11;
    }
    assert_eq!(Eid(raw).to_string(), "0011:2233:4455:6677:8899:aabb:ccdd:eeff");
    assert_eq!(Eid::from_raw(urma_eid_t { raw }), Eid(raw));
    assert_eq!(Eid(raw).to_raw().raw, raw);
}

#[test]
fn a_jetty_id_round_trips() {
    let raw = urma_jetty_id_t { eid: urma_eid_t { raw: [7; 16] }, uasid: 3, id: 99 };
    let id = JettyId::from_raw(&raw);
    assert_eq!((id.eid, id.uasid, id.id), (Eid([7; 16]), 3, 99));
    let back = id.to_raw();
    assert_eq!((back.eid.raw, back.uasid, back.id), ([7; 16], 3, 99));
}

#[test]
fn default_jetty_opts() {
    let o = JettyOpts::default();
    assert_eq!((o.depth, o.multi_path, o.token_value, o.max_sge), (64, false, 0xACFE, 1));
}

#[test]
fn words_are_the_bytes_in_memory() {
    let host =
        if 1u16.to_ne_bytes()[0] == 1 { ByteOrder::Little } else { ByteOrder::Big };
    for len in [0usize, 1, 7, 8, 9, 16, 48, 50] {
        let bytes: Vec<u8> = (0..len).map(|i| (i * 7 + 1) as u8).collect();
        let words = align_words(&bytes, host);
        assert_eq!(words.len(), len.div_ceil(8));
        let mut back: Vec<u8> = Vec::new();
        for w in &words {
            back.extend_from_slice(&w.to_ne_bytes());
        }
        let mut want = bytes.clone();
        want.resize(words.len() * 8, 0);
        assert_eq!(back, want);
    }
}

#[test]
fn words_in_either_order() {
    let bytes = [1u8, 2, 3, 4, 5, 6, 7, 8, 9];
    assert_eq!(align_words(&bytes, ByteOrder::Little), vec![0x0807_0605_0403_0201, 0x09]);
    assert_eq!(
        align_words(&bytes, ByteOrder::Big),
        vec![0x0102_0304_0506_0708, 0x0900_0000_0000_0000]
    );
}

#[test]
fn four_bytes_are_overwritten() {
    let mut words = vec![u64::MAX, u64::MAX, u64::MAX];
    put_half(&mut words, 8, 1, ByteOrder::Little);
    assert_eq!(words, vec![u64::MAX, 0xffff_ffff_0000_0001, u64::MAX]);
    let mut words = vec![0u64, 0x1111_1111_1111_1111];
    put_half(&mut words, 8, 0xa1b2_c3d4, ByteOrder::Big);
    assert_eq!(words, vec![0, 0xa1b2_c3d4_1111_1111]);
}

#[test]
fn a_short_blob_is_refused() {
    match Peer::aligned_blob(&[0; 47], 48, "seg ctx", ByteOrder::Little) {
        Err(Error::Invalid(m)) => assert_eq!(m, "seg ctx blob too short: 47 < 48"),
        _ => panic!("a blob below the minimum is invalid"),
    }
    let words = Peer::aligned_blob(&[9; 48], 48, "seg ctx", ByteOrder::Little).unwrap();
    assert_eq!(words, vec![0x0909_0909_0909_0909; 6]);

    match BlobSource::Rjetty.check_blob(vec![0; 3]) {
        Err(Error::Invalid(m)) => assert_eq!(m, "rjetty blob too short: 3 < 48"),
        _ => panic!("a blob below the minimum is invalid"),
    }
    assert_eq!(BlobSource::SegCtx.check_blob(vec![5; 60]).unwrap(), vec![5; 60]);
}

fn cap(modes: u16, rm: u32, rc: u32, um: u32, ctp_en: bool, multi: u32) -> DeviceCap {
    DeviceCap::from_raw(&urma_device_cap_t {
        trans_mode: modes,
        rm_tp_cap: urma_tp_type_cap_t { value: rm },
        rc_tp_cap: urma_tp_type_cap_t { value: rc },
        um_tp_cap: urma_tp_type_cap_t { value: um },
        feature: urma_device_feature_t::default().with_ctp_en(ctp_en),
        tp_feature: urma_tp_feature_t { value: multi },
        max_jfs_sge: 13,
        max_jfr_sge: 4,
        max_msg_size: 65536,
        page_size_cap: 0,
        ..Default::default()
    })
}

#[test]
fn the_device_gate_decides_about_ctp() {
    let open = cap(0b001, 0b010, 0, 0, true, 1);
    assert!(open.supports_mode(TransMode::Rm));
    assert!(!open.supports_mode(TransMode::Rc));
    assert!(open.supports(TransMode::Rm, TpType::Ctp));
    assert!(open.supports_multi_path(TransMode::Rm));
    assert!(!open.supports_multi_path(TransMode::Rc));
    assert!(!open.supports_multi_path(TransMode::Um));

    let shut = cap(0b001, 0b010, 0, 0, false, 0);
    assert!(!shut.supports(TransMode::Rm, TpType::Ctp));
    assert!(shut.tp_cap(TransMode::Rm).ctp());
    assert_eq!(shut.supported_combos(), vec![]);
    assert_eq!((shut.max_jfs_sge, shut.max_jfr_sge), (13, 4));
    assert_eq!((shut.max_msg_size, shut.page_size_cap), (65536, 0));
}

#[test]
fn the_order_types_are_kept_per_mode() {
    let c = DeviceCap::from_raw(&urma_device_cap_t {
        rm_order_cap: urma_order_type_cap_t { value: 0b0110 },
        rc_order_cap: urma_order_type_cap_t { value: 0b0001 },
        ..Default::default()
    });
    assert!(c.rm_order_cap.oi() && c.rm_order_cap.ol());
    assert!(!c.rm_order_cap.ot() && !c.rm_order_cap.no());
    assert!(c.rc_order_cap.ot() && !c.rc_order_cap.oi());
}

#[test]
fn combos_are_the_pairs_that_are_supported() {
    /* every mode advertised, RC without any tp type */
    let c = cap(0b111, 0b011, 0, 0b100, true, 0);
    assert_eq!(
        c.supported_combos(),
        vec![
            (TransMode::Rm, TpType::Rtp),
            (TransMode::Rm, TpType::Ctp),
            (TransMode::Um, TpType::Utp),
        ]
    );
    /* a mode that is not advertised has no pairs, whatever its cap bits say */
    let c = cap(0b100, 0b111, 0b111, 0b001, true, 0);
    assert_eq!(c.supported_combos(), vec![(TransMode::Um, TpType::Rtp)]);
}
