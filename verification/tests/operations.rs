//! The operations, against a library that keeps books of what it handed out.

use urma_rs::call::{Call, Reply, Step};
use urma_rs::ffi::{
    urma_cr_t, urma_device_attr_t, urma_eid_info_t, urma_eid_t, urma_jetty_cfg_t, urma_jetty_id_t,
    urma_jfr_wr_t, urma_jfs_wr_t, urma_rjetty_t, urma_seg_attr_t, urma_seg_cfg_t, urma_seg_t,
    urma_sg_t, urma_tp_type_cap_t, urma_ubva_t, URMA_EEXIST, URMA_OPC_READ,
};
use urma_rs::urma::blob::ByteOrder;
use urma_rs::urma::device::{decode_names, drop_absent};
use urma_rs::urma::page::bad_layout_err;
use urma_rs::{
    list_devices, query_device, CompletionQueue, Context, Eid, Error, Jetty, JettyId, JettyOpts,
    LocalSge, Operation, PageBuf, Peer, RegisteredBuf, RegisteredSeg, Result, Session, TpType,
    TransMode, Urma, PAGE_SIZE,
};

/// A library that answers every call, and panics when it is used wrongly.
struct Lib {
    next: u64,
    initialized: bool,
    /// kind and address of what exists
    live: Vec<(&'static str, u64)>,
    /// which object was created from which
    uses: Vec<(u64, u64)>,
    /// the calls, in their order
    log: Vec<&'static str>,
    /// calls that fail
    broken: Vec<&'static str>,
    errno: i32,
    devices: Vec<Option<Vec<u8>>>,
    eids: Vec<urma_eid_info_t>,
    attr: urma_device_attr_t,
    /// answers of the coming polls; an empty one after that
    polls: Vec<(i32, urma_cr_t)>,
    blob: Vec<u8>,
    slept: u64,
    jetty_cfg: Option<urma_jetty_cfg_t>,
    seg_cfg: Option<urma_seg_cfg_t>,
    sent: Option<urma_jfs_wr_t>,
    received: Option<urma_jfr_wr_t>,
    seg_in: Option<urma_seg_t>,
    rjetty_in: Option<urma_rjetty_t>,
    seg_blob: Vec<u64>,
    rjetty_blob: Vec<u64>,
    name: Vec<u8>,
    eid_index: u32,
}

impl Lib {
    fn new() -> Lib {
        Lib {
            next: 0x1000,
            initialized: false,
            live: vec![],
            uses: vec![],
            log: vec![],
            broken: vec![],
            errno: 0,
            devices: vec![Some(b"udma2".to_vec())],
            eids: vec![urma_eid_info_t { eid: urma_eid_t { raw: [3; 16] }, eid_index: 5 }],
            attr: urma_device_attr_t::default(),
            polls: vec![],
            blob: vec![],
            slept: 0,
            jetty_cfg: None,
            seg_cfg: None,
            sent: None,
            received: None,
            seg_in: None,
            rjetty_in: None,
            seg_blob: vec![],
            rjetty_blob: vec![],
            name: vec![],
            eid_index: 0,
        }
    }

    fn is_broken(&self, what: &str) -> bool {
        self.broken.iter().any(|b| *b == what)
    }

    fn make(&mut self, kind: &'static str) -> u64 {
        self.log.push(kind);
        if self.is_broken(kind) {
            return 0;
        }
        self.next += 0x1000;
        self.live.push((kind, self.next));
        self.next
    }

    /// Make an object from others, which have to exist.
    fn make_from(&mut self, kind: &'static str, used: &[u64]) -> u64 {
        for u in used {
            assert!(self.live.iter().any(|o| o.1 == *u), "an object is made from what exists");
        }
        let addr = self.make(kind);
        for u in used {
            self.uses.push((addr, *u));
        }
        addr
    }

    fn pointer(&mut self, kind: &'static str, used: &[u64]) -> Reply {
        assert!(self.initialized || kind == "alloc", "the library is not initialized");
        let addr = self.make_from(kind, used);
        Reply::Pointer { addr, errno: self.errno }
    }

    fn unmake(&mut self, what: &'static str, kind: &'static str, addr: u64) -> Reply {
        self.log.push(what);
        let at = self.live.iter().position(|o| *o == (kind, addr));
        self.live.remove(at.expect("only what exists is given back"));
        for (user, used) in &self.uses {
            let exists = self.live.iter().any(|o| o.1 == *user);
            assert!(*used != addr || !exists, "an object outlives what was created from it");
        }
        /* errno does not survive a call that cleans up */
        self.errno = 0;
        Reply::Done
    }

    /// The elements of a list lie in objects that exist.
    fn check_list(&self, kind: &'static str, list: &urma_sg_t) {
        for sge in &list.sge {
            assert!(self.live.contains(&(kind, sge.tseg)), "an element lies in what exists");
        }
    }

    fn has(&self, kind: &str) -> bool {
        self.live.iter().any(|o| o.0 == kind)
    }

    fn blob_reply(&mut self, kind: &'static str) -> Reply {
        if self.is_broken("status") {
            self.log.push(kind);
            return Reply::Blob { status: 22, addr: 0, errno: self.errno, bytes: vec![] };
        }
        let addr = self.make(kind);
        let bytes = if addr == 0 { vec![] } else { self.blob.clone() };
        Reply::Blob { status: 0, addr, errno: self.errno, bytes }
    }

    fn perform(&mut self, call: Call) -> Reply {
        match call {
            Call::Init { attr } => {
                self.log.push("init");
                assert_eq!((attr.token, attr.uasid), (0, 0));
                if self.is_broken("init") {
                    return Reply::Status(12);
                }
                if self.initialized {
                    return Reply::Status(URMA_EEXIST);
                }
                self.initialized = true;
                Reply::Status(0)
            }
            Call::Uninit => {
                self.log.push("uninit");
                assert!(self.initialized && !self.has("context"));
                self.initialized = false;
                Reply::Done
            }
            Call::GetDeviceList => {
                assert!(self.initialized);
                let list = self.make("device list");
                let names = self.devices.clone();
                Reply::Devices { list, count: names.len() as i32, names }
            }
            Call::FreeDeviceList { list } => self.unmake("free device list", "device list", list),
            Call::GetDeviceByName { name } => {
                self.log.push("device");
                self.name = name;
                let addr = if self.is_broken("device") { 0 } else { 7 };
                Reply::Pointer { addr, errno: 2 }
            }
            Call::GetEidList { dev } => {
                assert_eq!(dev, 7);
                let list = self.make("eid list");
                let count = if list == 0 { 0 } else { self.eids.len() as u32 };
                let first = if count == 0 { urma_eid_info_t::default() } else { self.eids[0] };
                Reply::Eids { list, count, first }
            }
            Call::FreeEidList { list } => self.unmake("free eid list", "eid list", list),
            Call::QueryDevice { dev } => {
                assert_eq!(dev, 7);
                self.log.push("query");
                let status = if self.is_broken("query") { 95 } else { 0 };
                Reply::Attr { status, attr: self.attr }
            }
            Call::CreateContext { dev, eid_index } => {
                assert_eq!(dev, 7);
                self.eid_index = eid_index;
                self.pointer("context", &[])
            }
            Call::DeleteContext { ctx } => self.unmake("delete context", "context", ctx.addr),
            Call::CreateJfce { ctx } => self.pointer("jfce", &[ctx.addr]),
            Call::DeleteJfce { jfce } => self.unmake("delete jfce", "jfce", jfce.addr),
            Call::CreateJfc { ctx, cfg } => {
                assert_eq!((cfg.depth, cfg.flag.value, cfg.ceqn, cfg.user_ctx), (64, 0, 0, 0));
                self.pointer("jfc", &[ctx.addr, cfg.jfce.addr])
            }
            Call::DeleteJfc { jfc } => self.unmake("delete jfc", "jfc", jfc.addr),
            Call::PollJfc { jfc, max } => {
                self.log.push("poll");
                assert!(self.live.contains(&("jfc", jfc.addr)));
                assert_eq!(max, 1);
                if self.polls.is_empty() {
                    return Reply::Polled { n: 0, cr: urma_cr_t::default() };
                }
                let (n, cr) = self.polls.remove(0);
                Reply::Polled { n, cr }
            }
            Call::CreateJfr { ctx, cfg } => {
                assert_eq!((cfg.id, cfg.flag.value, cfg.trans_mode), (0, 0, 1));
                assert_eq!((cfg.min_rnr_timer, cfg.user_ctx), (12, 0));
                self.pointer("jfr", &[ctx.addr, cfg.jfc.addr])
            }
            Call::DeleteJfr { jfr } => self.unmake("delete jfr", "jfr", jfr.addr),
            Call::PostJfrWr { jfr, wr } => {
                self.log.push("post recv");
                assert!(self.live.contains(&("jfr", jfr.addr)));
                self.check_list("seg", &wr.src);
                self.received = Some(wr);
                Reply::Status(if self.is_broken("post") { 11 } else { 0 })
            }
            Call::CreateJetty { ctx, cfg } => {
                self.jetty_cfg = Some(cfg);
                let used = [ctx.addr, cfg.recv.jfr.addr, cfg.jfs_cfg.jfc.addr];
                let addr = self.make_from("jetty", &used);
                let jetty_id = urma_jetty_id_t { eid: urma_eid_t { raw: [9; 16] }, uasid: 4, id: 77 };
                Reply::Jetty { addr, errno: self.errno, jetty_id }
            }
            Call::DeleteJetty { jetty } => self.unmake("delete jetty", "jetty", jetty),
            Call::PostJettySendWr { jetty, wr } => {
                self.log.push("post send");
                assert!(self.live.contains(&("jetty", jetty)));
                assert!(self.live.contains(&("tjetty", wr.tjetty.addr)));
                self.check_list(if wr.opcode == URMA_OPC_READ { "tseg" } else { "seg" }, &wr.rw.src);
                self.check_list("seg", &wr.rw.dst);
                self.sent = Some(wr);
                Reply::Status(if self.is_broken("post") { 11 } else { 0 })
            }
            Call::GetRjetty { jetty } => {
                assert!(self.live.contains(&("jetty", jetty)));
                self.blob_reply("rjetty blob")
            }
            Call::PutRjetty { rjetty } => self.unmake("put rjetty", "rjetty blob", rjetty),
            Call::ImportJetty { ctx, rjetty, token } => {
                assert_eq!(token.token, 0xACFE);
                self.rjetty_in = Some(rjetty);
                self.pointer("tjetty", &[ctx.addr])
            }
            Call::ImportJettyBlob { ctx, rjetty, token } => {
                assert_eq!(token.token, 0xACFE);
                self.rjetty_blob = rjetty;
                self.pointer("tjetty", &[ctx.addr])
            }
            Call::UnimportJetty { tjetty } => self.unmake("unimport jetty", "tjetty", tjetty.addr),
            Call::RegisterSeg { ctx, cfg } => {
                self.seg_cfg = Some(cfg);
                self.pointer("seg", &[ctx.addr])
            }
            Call::UnregisterSeg { tseg } => self.unmake("unregister seg", "seg", tseg),
            Call::ImportSeg { ctx, seg, token, addr, flag } => {
                assert_eq!((token.token, addr, flag.value), (0xACFE, 0, 0b1100));
                self.seg_in = Some(seg);
                self.pointer("tseg", &[ctx.addr])
            }
            Call::ImportSegBlob { ctx, seg, token, addr, flag } => {
                assert_eq!((token.token, addr, flag.value), (0xACFE, 0, 0b1100));
                self.seg_blob = seg;
                self.pointer("tseg", &[ctx.addr])
            }
            Call::UnimportSeg { tseg } => self.unmake("unimport seg", "tseg", tseg),
            Call::GetSegCtx { tseg } => {
                assert!(self.live.contains(&("seg", tseg)));
                self.blob_reply("seg blob")
            }
            Call::PutSegCtx { seg } => self.unmake("put seg ctx", "seg blob", seg),
            Call::AllocZeroed { size, align } => {
                assert!(size > 0);
                assert_eq!(align, PAGE_SIZE);
                self.pointer("alloc", &[])
            }
            Call::Dealloc { addr, size, align } => {
                assert!(size > 0);
                assert_eq!(align, PAGE_SIZE);
                self.unmake("dealloc", "alloc", addr)
            }
            Call::Sleep { millis } => {
                self.log.push("sleep");
                self.slept += millis;
                Reply::Done
            }
        }
    }

    fn run<O: Operation>(&mut self, s: &mut Session, first: Step<O, O::Output>) -> Result<O::Output> {
        let mut step = first;
        loop {
            match step {
                Step::Done(r) => return r,
                Step::Ask(state, call) => {
                    let fits = answer_form(&call);
                    let reply = self.perform(call);
                    assert!(fits(&reply), "the answer has the form that the call asks for");
                    step = state.step(s, reply);
                }
            }
        }
    }

    /// Drop a handle and perform what that asks for.
    fn drop_handle(&mut self, s: &mut Session, node: usize) {
        for call in s.release(node) {
            self.perform(call);
        }
    }

    fn take_log(&mut self) -> Vec<&'static str> {
        std::mem::take(&mut self.log)
    }
}

/// The form that the answer to a call has to have, asked before the call is
/// given away.
fn answer_form(call: &Call) -> fn(&Reply) -> bool {
    if call.is_answered_by(&Reply::Status(0)) {
        |r| matches!(r, Reply::Status(_))
    } else if call.is_answered_by(&Reply::Pointer { addr: 0, errno: 0 }) {
        |r| matches!(r, Reply::Pointer { .. })
    } else if call.is_answered_by(&Reply::Done) {
        |r| matches!(r, Reply::Done)
    } else {
        |r| {
            !matches!(r, Reply::Status(_) | Reply::Pointer { .. } | Reply::Done)
        }
    }
}

fn err<T>(r: Result<T>) -> String {
    match r {
        Ok(_) => panic!("an error was expected"),
        Err(e) => e.to_string(),
    }
}

struct World {
    lib: Lib,
    s: Session,
    urma: Urma,
    ctx: Context,
    cq: CompletionQueue,
}

fn world() -> World {
    let mut lib = Lib::new();
    let mut s = Session::new();
    let first = Urma::init(&mut s);
    let urma = lib.run(&mut s, first).unwrap();
    let ctx = lib.run(&mut s, Context::create(&urma, "udma2")).unwrap();
    let cq = lib.run(&mut s, CompletionQueue::new(&ctx, 64)).unwrap();
    lib.take_log();
    World { lib, s, urma, ctx, cq }
}

fn record(status: i32, user_ctx: u64, completion_len: u32) -> urma_cr_t {
    urma_cr_t { status, user_ctx, completion_len, ..Default::default() }
}

/* ============================== init ============================== */

/// urma_init returns URMA_EEXIST on a second call, so Urma::init must cache
/// and share instead. No device is needed: init only loads providers
/// (device errors would come later, from Context::create).
#[test]
fn init_is_idempotent_per_thread() {
    let mut lib = Lib::new();
    let mut s = Session::new();
    let step = Urma::init(&mut s);
    let _first = lib.run(&mut s, step).expect("first init");
    let step = Urma::init(&mut s);
    let _second = lib
        .run(&mut s, step)
        .expect("second init must clone the guard, not hit URMA_EEXIST");
    assert_eq!(lib.take_log(), vec!["init"]);
}

#[test]
fn a_failed_init_is_not_cached() {
    let mut lib = Lib::new();
    lib.broken = vec!["init"];
    let mut s = Session::new();
    let step = Urma::init(&mut s);
    assert_eq!(err(lib.run(&mut s, step)), "urma_init failed, status 12");
    assert!(s.initialized().is_none());
    lib.broken = vec![];
    let step = Urma::init(&mut s);
    assert!(lib.run(&mut s, step).is_ok());
    assert_eq!(lib.take_log(), vec!["init", "init"]);
    assert!(s.initialized().is_some());
}

#[test]
fn the_library_stays_initialized_until_the_thread_ends() {
    let mut lib = Lib::new();
    let mut s = Session::new();
    let step = Urma::init(&mut s);
    let urma = lib.run(&mut s, step).unwrap();
    let ctx = lib.run(&mut s, Context::create(&urma, "udma2")).unwrap();
    lib.take_log();
    lib.drop_handle(&mut s, urma.node());
    lib.drop_handle(&mut s, ctx.node());
    /* a handle that is not there cannot be dropped */
    lib.drop_handle(&mut s, urma.node());
    assert_eq!(lib.take_log(), vec!["delete context"]);
    for call in s.finish() {
        lib.perform(call);
    }
    assert_eq!(lib.take_log(), vec!["uninit"]);
    assert!(s.initialized().is_none());
}

#[test]
fn uninit_waits_for_the_last_context() {
    let mut w = world();
    for call in w.s.finish() {
        w.lib.perform(call);
    }
    w.lib.drop_handle(&mut w.s, w.urma.node());
    w.lib.drop_handle(&mut w.s, w.ctx.node());
    assert_eq!(w.lib.take_log(), Vec::<&str>::new());
    w.lib.drop_handle(&mut w.s, w.cq.node());
    assert_eq!(w.lib.take_log(), vec!["delete jfc", "delete jfce", "delete context", "uninit"]);
    assert!(w.lib.live.is_empty());
}

fn count(log: &[&'static str], what: &str) -> usize {
    log.iter().filter(|c| **c == what).count()
}

/// Over the life of a thread there is one init, which everything shares, and one
/// uninit.
#[test]
fn every_init_is_ended_once() {
    let mut lib = Lib::new();
    let mut s = Session::new();
    assert!(s.can_init());
    let step = list_devices(&mut s);
    lib.run(&mut s, step).unwrap();
    let step = Urma::init(&mut s);
    assert!(matches!(step, Step::Done(Ok(_))));
    let urma = lib.run(&mut s, step).unwrap();
    let step = query_device(&mut s, "udma2");
    lib.run(&mut s, step).unwrap();
    let ctx = lib.run(&mut s, Context::create(&urma, "udma2")).unwrap();
    lib.drop_handle(&mut s, urma.node());
    let step = Urma::init(&mut s);
    let again = lib.run(&mut s, step).unwrap();
    lib.drop_handle(&mut s, again.node());
    assert_eq!((count(&lib.log, "init"), count(&lib.log, "uninit")), (1, 0));
    assert!(s.can_init());

    /* the thread lets go of it, but a context is left */
    for call in s.finish() {
        lib.perform(call);
    }
    assert_eq!((count(&lib.log, "init"), count(&lib.log, "uninit")), (1, 0));
    assert!(!s.can_init());
    lib.drop_handle(&mut s, ctx.node());
    assert_eq!((count(&lib.log, "init"), count(&lib.log, "uninit")), (1, 1));
    assert!(s.finish().is_empty());

    /* another one is ended as well */
    assert!(s.can_init());
    let step = Urma::init(&mut s);
    let urma = lib.run(&mut s, step).unwrap();
    for call in s.finish() {
        lib.perform(call);
    }
    assert_eq!((count(&lib.log, "init"), count(&lib.log, "uninit")), (2, 1));
    lib.drop_handle(&mut s, urma.node());
    assert_eq!((count(&lib.log, "init"), count(&lib.log, "uninit")), (2, 2));
}

/* ============================== devices ============================== */

#[test]
fn devices_are_listed_by_name() {
    let mut lib = Lib::new();
    lib.devices = vec![
        Some(b"udma2".to_vec()),
        None,
        Some("g\u{e4}rät".as_bytes().to_vec()),
        Some(vec![0x62, 0xff, 0x63]),
    ];
    let mut s = Session::new();
    let step = list_devices(&mut s);
    let names = lib.run(&mut s, step).unwrap();
    assert_eq!(names, vec!["udma2", "gärät", "b\u{fffd}c"]);
    assert_eq!(lib.take_log(), vec!["init", "device list", "free device list"]);
    /* the initialization is kept for later, and only that */
    let step = list_devices(&mut s);
    assert_eq!(lib.run(&mut s, step).unwrap().len(), 3);
    assert_eq!(lib.take_log(), vec!["device list", "free device list"]);
    for call in s.finish() {
        lib.perform(call);
    }
    assert_eq!(lib.take_log(), vec!["uninit"]);
}

#[test]
fn no_device_is_no_error() {
    let mut lib = Lib::new();
    let mut s = Session::new();
    lib.devices = vec![];
    let step = list_devices(&mut s);
    assert_eq!(lib.run(&mut s, step).unwrap(), Vec::<String>::new());
    assert_eq!(lib.take_log(), vec!["init", "device list", "free device list"]);
    lib.broken = vec!["device list"];
    let step = list_devices(&mut s);
    assert_eq!(lib.run(&mut s, step).unwrap(), Vec::<String>::new());
    assert_eq!(lib.take_log(), vec!["device list"]);
}

#[test]
fn listing_fails_when_init_does() {
    let mut lib = Lib::new();
    lib.broken = vec!["init"];
    let mut s = Session::new();
    let step = list_devices(&mut s);
    assert_eq!(err(lib.run(&mut s, step)), "urma_init failed, status 12");
    assert_eq!(lib.take_log(), vec!["init"]);
}

#[test]
fn names_are_decoded_in_their_order() {
    let names = decode_names(&vec![Some(b"b".to_vec()), None, Some(b"a".to_vec())]);
    assert_eq!(names, vec!["b", "a"]);
    assert_eq!(
        drop_absent(vec![None, Some("x".to_string()), None, Some("y".to_string())]),
        vec!["x", "y"]
    );
}

#[test]
fn a_device_is_queried() {
    let mut lib = Lib::new();
    let mut s = Session::new();
    lib.attr.dev_cap.trans_mode = 1;
    lib.attr.dev_cap.rm_tp_cap = urma_tp_type_cap_t { value: 0b001 };
    lib.attr.dev_cap.max_jfs_sge = 13;
    let step = query_device(&mut s, "udma2");
    let cap = lib.run(&mut s, step).unwrap();
    assert_eq!(cap.supported_combos(), vec![(TransMode::Rm, TpType::Rtp)]);
    assert_eq!(cap.max_jfs_sge, 13);
    assert_eq!(lib.name, b"udma2\0".to_vec());
    assert_eq!(lib.take_log(), vec!["init", "device", "query"]);

    lib.broken = vec!["query"];
    let step = query_device(&mut s, "udma2");
    assert_eq!(err(lib.run(&mut s, step)), "urma_query_device failed, status 95");
    lib.broken = vec!["device"];
    let step = query_device(&mut s, "udma9");
    assert_eq!(
        err(lib.run(&mut s, step)),
        "not found: device 'udma9' not found, see list_devices()"
    );
    let step = query_device(&mut s, "a\0b");
    assert_eq!(err(lib.run(&mut s, step)), "invalid: device name contains NUL");
    for call in s.finish() {
        lib.perform(call);
    }
    assert!(!lib.initialized);

    lib.broken = vec!["init"];
    let step = query_device(&mut s, "udma2");
    assert_eq!(err(lib.run(&mut s, step)), "urma_init failed, status 12");
}

/* ============================== context ============================== */

#[test]
fn a_context_takes_the_first_eid() {
    let mut lib = Lib::new();
    let mut s = Session::new();
    lib.eids.push(urma_eid_info_t { eid: urma_eid_t { raw: [8; 16] }, eid_index: 6 });
    let step = Urma::init(&mut s);
    let urma = lib.run(&mut s, step).unwrap();
    let ctx = lib.run(&mut s, Context::create(&urma, "udma2")).unwrap();
    assert_eq!(ctx.eid(), Eid([3; 16]));
    assert_eq!(lib.eid_index, 5);
    assert_eq!(lib.name, b"udma2\0".to_vec());
    assert_eq!(
        lib.take_log(),
        vec!["init", "device", "eid list", "free eid list", "context"]
    );
    assert_eq!(lib.live, vec![("context", ctx.raw().addr)]);
    assert!(s.is_live(ctx.node()));
    assert!(!s.is_live(ctx.node() + 1));
}

#[test]
fn a_context_that_cannot_be_created_leaves_nothing() {
    let mut lib = Lib::new();
    let mut s = Session::new();
    let step = Urma::init(&mut s);
    let urma = lib.run(&mut s, step).unwrap();

    assert_eq!(
        err(lib.run(&mut s, Context::create(&urma, "ud\0ma"))),
        "invalid: device name contains NUL"
    );
    lib.broken = vec!["device"];
    assert_eq!(
        err(lib.run(&mut s, Context::create(&urma, "udma9"))),
        "not found: device 'udma9' not found, see list_devices()"
    );
    lib.broken = vec!["eid list"];
    assert_eq!(
        err(lib.run(&mut s, Context::create(&urma, "udma2"))),
        "not found: no eid on device 'udma2'"
    );
    lib.broken = vec![];
    lib.eids = vec![];
    lib.take_log();
    assert_eq!(
        err(lib.run(&mut s, Context::create(&urma, "udma2"))),
        "not found: no eid on device 'udma2'"
    );
    assert_eq!(lib.take_log(), vec!["device", "eid list", "free eid list"]);
    lib.eids = vec![urma_eid_info_t::default()];
    lib.broken = vec!["context"];
    match lib.run(&mut s, Context::create(&urma, "udma2")) {
        Err(Error::Null(what, errno)) => assert_eq!((what, errno), ("urma_create_context", 0)),
        _ => panic!("a NULL context is an error"),
    }
    assert!(lib.live.is_empty());
}

#[test]
fn a_duplicated_context_is_the_same_context() {
    let mut w = world();
    let again = w.ctx.dup(&mut w.s);
    assert_eq!(again.raw(), w.ctx.raw());
    assert_eq!(again.eid(), w.ctx.eid());
    let cq = w.cq.dup(&mut w.s);
    assert_eq!(cq.jfc(), w.cq.jfc());
    assert!(w.s.can_retain(w.cq.node()));
    w.lib.drop_handle(&mut w.s, w.ctx.node());
    w.lib.drop_handle(&mut w.s, w.cq.node());
    w.lib.drop_handle(&mut w.s, cq.node());
    assert_eq!(w.lib.take_log(), vec!["delete jfc", "delete jfce"]);
    w.lib.drop_handle(&mut w.s, again.node());
    assert_eq!(w.lib.take_log(), vec!["delete context"]);
    assert!(!w.s.can_retain(w.cq.node()));
}

/* ============================== completion queue ============================== */

#[test]
fn a_queue_that_cannot_be_created_leaves_nothing() {
    let mut w = world();
    w.lib.drop_handle(&mut w.s, w.cq.node());
    w.lib.take_log();
    w.lib.broken = vec!["jfce"];
    w.lib.errno = 24;
    match w.lib.run(&mut w.s, CompletionQueue::new(&w.ctx, 64)) {
        Err(Error::Null(what, errno)) => assert_eq!((what, errno), ("urma_create_jfce", 24)),
        _ => panic!("a NULL jfce is an error"),
    }
    w.lib.broken = vec!["jfc"];
    w.lib.errno = 12;
    /* the errno is that of the failure, not that of the cleanup */
    match w.lib.run(&mut w.s, CompletionQueue::new(&w.ctx, 64)) {
        Err(Error::Null(what, errno)) => assert_eq!((what, errno), ("urma_create_jfc", 12)),
        _ => panic!("a NULL jfc is an error"),
    }
    assert_eq!(w.lib.take_log(), vec!["jfce", "jfce", "jfc", "delete jfce"]);
    assert_eq!(w.lib.live.len(), 1);
}

#[test]
fn a_poll_finds_one_record_or_none() {
    let mut w = world();
    w.lib.polls = vec![(0, record(0, 0, 0)), (1, record(12, 42, 64)), (-5, record(0, 0, 0))];
    assert!(w.lib.run(&mut w.s, w.cq.poll()).unwrap().is_none());
    let c = w.lib.run(&mut w.s, w.cq.poll()).unwrap().unwrap();
    assert_eq!((c.status, c.user_ctx, c.completion_len), (12, 42, 64));
    assert!(!c.is_success());
    assert_eq!(err(w.lib.run(&mut w.s, w.cq.poll())), "urma_poll_jfc failed, status -5");
}

#[test]
fn a_wait_ends_with_the_expected_record() {
    let mut w = world();
    w.lib.polls = vec![(0, record(0, 0, 0)), (0, record(0, 0, 0)), (1, record(0, 42, 64))];
    let c = w.lib.run(&mut w.s, w.cq.wait_read(42)).unwrap();
    assert_eq!((c.status, c.user_ctx, c.completion_len), (0, 42, 64));
    assert!(c.is_success());
    assert_eq!(w.lib.take_log(), vec!["poll", "sleep", "poll", "sleep", "poll"]);
    assert_eq!(w.lib.slept, 200);
}

#[test]
fn a_wait_ends_with_any_other_record() {
    let mut w = world();
    w.lib.polls = vec![(1, record(12, 42, 0))];
    assert_eq!(
        err(w.lib.run(&mut w.s, w.cq.wait_read(42))),
        "bad completion (status 12, user_ctx 0x2a)"
    );
    w.lib.polls = vec![(1, record(0, 43, 0))];
    assert_eq!(
        err(w.lib.run(&mut w.s, w.cq.wait_read(42))),
        "bad completion (status 0, user_ctx 0x2b)"
    );
    w.lib.polls = vec![(-1, record(0, 42, 0))];
    assert_eq!(err(w.lib.run(&mut w.s, w.cq.wait_read(42))), "urma_poll_jfc failed, status -1");
}

#[test]
fn a_wait_times_out_after_a_hundred_polls() {
    let mut w = world();
    assert_eq!(
        err(w.lib.run(&mut w.s, w.cq.wait_read(42))),
        "poll completion timeout (user_ctx 0x2a)"
    );
    let log = w.lib.take_log();
    assert_eq!(log.len(), 200);
    assert_eq!(log.iter().filter(|c| **c == "poll").count(), 100);
    assert_eq!(log[199], "sleep");
    assert_eq!(w.lib.slept, 10_000);
    /* the hundredth poll still counts */
    w.lib.polls = vec![(0, record(0, 0, 0)); 99];
    w.lib.polls.push((1, record(0, 42, 1)));
    assert_eq!(w.lib.run(&mut w.s, w.cq.wait_read(42)).unwrap().completion_len, 1);
}

/* ============================== jetty ============================== */

fn jetty(w: &mut World, max_sge: u8) -> Jetty {
    let opts = JettyOpts { max_sge, ..Default::default() };
    let first = Jetty::new(&w.ctx, &w.cq, opts);
    w.lib.run(&mut w.s, first).unwrap()
}

#[test]
fn a_jetty_shares_its_jfr() {
    let mut w = world();
    let opts = JettyOpts { depth: 128, multi_path: true, token_value: 1, max_sge: 3 };
    let j = w.lib.run(&mut w.s, Jetty::new(&w.ctx, &w.cq, opts)).unwrap();
    let id = j.id();
    assert_eq!((id.eid, id.uasid, id.id), (Eid([9; 16]), 4, 77));
    assert_eq!(w.lib.take_log(), vec!["jfr", "jetty"]);
    let cfg = w.lib.jetty_cfg.unwrap();
    assert_eq!((cfg.id, cfg.flag.value, cfg.user_ctx, cfg.jetty_grp.addr), (0, 1, 0, 0));
    assert_eq!(cfg.recv.jfc.addr, 0);
    let jfs = cfg.jfs_cfg;
    assert_eq!((jfs.depth, jfs.flag.value, jfs.trans_mode), (128, 1 << 11, 1));
    assert!(jfs.flag.multi_path());
    assert_eq!(jfs.flag.order_type(), 0);
    assert_eq!((jfs.priority, jfs.max_sge, jfs.max_rsge, jfs.max_inline_data), (15, 3, 0, 0));
    assert_eq!((jfs.rnr_retry, jfs.err_timeout, jfs.user_ctx), (7, 17, 0));
    assert_eq!(jfs.jfc, w.cq.jfc());
    w.lib.drop_handle(&mut w.s, j.node());
    assert_eq!(w.lib.take_log(), vec!["delete jetty", "delete jfr"]);
}

#[test]
fn a_jetty_that_cannot_be_created_leaves_nothing() {
    let mut w = world();
    let live = w.lib.live.len();
    w.lib.broken = vec!["jfr"];
    w.lib.errno = 5;
    match w.lib.run(&mut w.s, Jetty::new(&w.ctx, &w.cq, JettyOpts::default())) {
        Err(Error::Null(what, errno)) => assert_eq!((what, errno), ("urma_create_jfr", 5)),
        _ => panic!("a NULL jfr is an error"),
    }
    w.lib.broken = vec!["jetty"];
    w.lib.errno = 6;
    match w.lib.run(&mut w.s, Jetty::new(&w.ctx, &w.cq, JettyOpts::default())) {
        Err(Error::Null(what, errno)) => assert_eq!((what, errno), ("urma_create_jetty", 6)),
        _ => panic!("a NULL jetty is an error"),
    }
    assert_eq!(w.lib.take_log(), vec!["jfr", "jfr", "jetty", "delete jfr"]);
    assert_eq!(w.lib.live.len(), live);
    assert_eq!(w.lib.jetty_cfg.unwrap().jfs_cfg.flag.value, 0);
}

/* ============================== memory ============================== */

#[test]
fn memory_owned_elsewhere_is_registered() {
    let mut w = world();
    let first = RegisteredSeg::register(&w.ctx, 0x10_0000, 8192, 0x77);
    let seg = w.lib.run(&mut w.s, first).unwrap();
    assert_eq!((seg.va, seg.len), (0x10_0000, 8192));
    let cfg = w.lib.seg_cfg.unwrap();
    assert_eq!((cfg.va, cfg.len, cfg.token_value.token), (0x10_0000, 8192, 0x77));
    assert_eq!((cfg.flag.value, cfg.flag.access()), (0b110 << 5, 0b110));
    assert_eq!((cfg.token_id.addr, cfg.user_ctx, cfg.iova), (0, 0, 0));
    w.lib.drop_handle(&mut w.s, seg.node());
    assert_eq!(w.lib.take_log(), vec!["seg", "unregister seg"]);

    w.lib.broken = vec!["seg"];
    w.lib.errno = 1;
    match w.lib.run(&mut w.s, RegisteredSeg::register(&w.ctx, 0x10_0000, 8192, 0x77)) {
        Err(Error::Null(what, errno)) => assert_eq!((what, errno), ("urma_register_seg", 1)),
        _ => panic!("a NULL segment is an error"),
    }
}

#[test]
fn a_registered_buffer_is_freed_last() {
    let mut w = world();
    let buf = w.lib.run(&mut w.s, RegisteredBuf::new(&w.ctx, 5000, 0xACFE)).unwrap();
    assert_eq!((buf.len, buf.buffer().size()), (5000, 5000));
    assert_eq!(buf.va, buf.buffer().addr());
    assert_eq!(buf.va % PAGE_SIZE as u64, 0);
    for call in w.s.finish() {
        w.lib.perform(call);
    }
    w.lib.drop_handle(&mut w.s, w.urma.node());
    w.lib.drop_handle(&mut w.s, w.cq.node());
    w.lib.drop_handle(&mut w.s, w.ctx.node());
    w.lib.take_log();
    w.lib.drop_handle(&mut w.s, buf.node());
    assert_eq!(
        w.lib.take_log(),
        vec!["unregister seg", "delete context", "uninit", "dealloc"]
    );
    assert!(w.lib.live.is_empty());
}

#[test]
fn a_buffer_that_cannot_be_registered_is_freed() {
    let mut w = world();
    w.lib.broken = vec!["seg"];
    w.lib.errno = 14;
    match w.lib.run(&mut w.s, RegisteredBuf::new(&w.ctx, 64, 0xACFE)) {
        Err(Error::Null(what, errno)) => assert_eq!((what, errno), ("urma_register_seg", 14)),
        _ => panic!("a NULL segment is an error"),
    }
    assert_eq!(w.lib.take_log(), vec!["alloc", "seg", "dealloc"]);
    w.lib.broken = vec!["alloc"];
    assert_eq!(
        err(w.lib.run(&mut w.s, RegisteredBuf::new(&w.ctx, 64, 0xACFE))),
        "invalid: alloc page buffer failed"
    );
    assert_eq!(
        err(w.lib.run(&mut w.s, RegisteredBuf::new(&w.ctx, 0, 0xACFE))),
        "invalid: zero-length page buffer"
    );
}

#[test]
fn page_buffers() {
    let mut lib = Lib::new();
    let mut s = Session::new();
    let buf = lib.run(&mut s, PageBuf::new(1)).unwrap();
    assert_eq!(buf.size(), 1);
    assert_eq!(lib.live, vec![("alloc", buf.addr())]);
    assert_eq!(buf.addr() % PAGE_SIZE as u64, 0);
    lib.perform(buf.release());
    assert!(lib.live.is_empty());

    assert_eq!(err(lib.run(&mut s, PageBuf::new(0))), "invalid: zero-length page buffer");
    lib.broken = vec!["alloc"];
    assert_eq!(err(lib.run(&mut s, PageBuf::new(64))), "invalid: alloc page buffer failed");

    assert_eq!(bad_layout_err("why").to_string(), "invalid: bad layout: why");

    /* the largest size that can be rounded up to pages, and one more */
    let most = isize::MAX as usize - (PAGE_SIZE - 1);
    assert!(std::alloc::Layout::from_size_align(most, PAGE_SIZE).is_ok());
    assert!(matches!(PageBuf::new(most), Step::Ask(_, _)));
    let words = std::alloc::Layout::from_size_align(most + 1, PAGE_SIZE).unwrap_err().to_string();
    for len in [most + 1, usize::MAX] {
        assert_eq!(
            err(lib.run(&mut s, PageBuf::new(len))),
            format!("invalid: bad layout: {words}")
        );
    }
}

#[test]
fn memory_is_as_aligned_as_it_was_asked_to_be() {
    let call = Call::AllocZeroed { size: 64, align: PAGE_SIZE };
    assert!(call.is_answered_by(&Reply::Pointer { addr: 0x7000, errno: 0 }));
    assert!(!call.is_answered_by(&Reply::Pointer { addr: 0x7001, errno: 0 }));
    assert!(!call.is_answered_by(&Reply::Pointer { addr: 0x7800, errno: 0 }));
    /* no memory */
    assert!(call.is_answered_by(&Reply::Pointer { addr: 0, errno: 12 }));
    assert!(!call.is_answered_by(&Reply::Done));
    let call = Call::AllocZeroed { size: 64, align: 0 };
    assert!(!call.is_answered_by(&Reply::Pointer { addr: 0x7000, errno: 0 }));
}

#[test]
fn windows_stay_inside_their_segment() {
    let mut w = world();
    let first = RegisteredSeg::register(&w.ctx, 0x10_0000, 4096, 1);
    let seg = w.lib.run(&mut w.s, first).unwrap();
    let sge = seg.sge(64, 128).unwrap().to_ffi();
    assert_eq!((sge.addr, sge.len, sge.tseg), (0x10_0040, 128, seg.tseg()));
    assert_eq!(sge.user_tseg.addr, 0);
    let window = seg.sge(64, 128).unwrap();
    assert_eq!((window.node(), window.tseg()), (seg.node(), seg.tseg()));
    assert_eq!(LocalSge::new(&seg, 0, 4096).unwrap().len(), 4096);
    assert_eq!(seg.sge(4096, 0).unwrap().to_ffi().addr, 0x10_1000);
    assert_eq!(
        err(seg.sge(1, 4096)),
        "invalid: local range [1, +4096) exceeds segment (len 4096)"
    );
    assert_eq!(
        err(LocalSge::new(&seg, usize::MAX, 1)),
        format!("invalid: local range [{}, +1) exceeds segment (len 4096)", usize::MAX)
    );
}

#[test]
fn a_descriptor_leaves_out_the_user_info() {
    let mut w = world();
    let first = RegisteredSeg::register(&w.ctx, 0x10_0000, 4096, 1);
    let seg = w.lib.run(&mut w.s, first).unwrap();
    let raw = urma_seg_t {
        ubva: urma_ubva_t { eid: [1; 16], uasid: 2, va: 0x10_0000 },
        len: 4096,
        attr: urma_seg_attr_t { value: 0xffff_ffff },
        token_id: 31,
    };
    let d = seg.descriptor(raw);
    assert_eq!((d.eid, d.uasid, d.va, d.len), (Eid([1; 16]), 2, 0x10_0000, 4096));
    assert_eq!((d.attr, d.token_id), (0xffff_bfff, 31));

    /* what is imported from it is the segment, but for that bit */
    let id = JettyId { eid: Eid([6; 16]), uasid: 8, id: 9 };
    let peer = w.lib.run(&mut w.s, Peer::import(&w.ctx, d, id, 0xACFE)).unwrap();
    let back = w.lib.seg_in.unwrap();
    assert_eq!((back.ubva.eid, back.ubva.uasid, back.ubva.va()), ([1; 16], 2, 0x10_0000));
    assert_eq!((back.len, back.attr.value, back.token_id), (4096, 0xffff_bfff, 31));
    let r = w.lib.rjetty_in.unwrap();
    assert_eq!((r.jetty_id.eid.raw, r.jetty_id.uasid, r.jetty_id.id), ([6; 16], 8, 9));
    assert_eq!((r.trans_mode, r.policy, r.type_, r.flag.value, r.tp_type), (1, 0, 1, 0, 1));
    w.lib.take_log();
    w.lib.drop_handle(&mut w.s, peer.node());
    assert_eq!(w.lib.take_log(), vec!["unimport jetty", "unimport seg"]);
}

/* ============================== work requests ============================== */

fn peer(w: &mut World) -> Peer {
    let seg = urma_rs::SegDesc {
        eid: Eid([1; 16]),
        uasid: 0,
        va: 0x5000,
        len: 4096,
        attr: 0,
        token_id: 0,
    };
    let id = JettyId { eid: Eid([1; 16]), uasid: 0, id: 1 };
    let first = Peer::import(&w.ctx, seg, id, 0xACFE);
    w.lib.run(&mut w.s, first).unwrap()
}

#[test]
fn a_read_scatters_one_remote_range() {
    let mut w = world();
    let j = jetty(&mut w, 2);
    let p = peer(&mut w);
    let first = RegisteredSeg::register(&w.ctx, 0x10_0000, 4096, 1);
    let seg = w.lib.run(&mut w.s, first).unwrap();
    let local = [seg.sge(0, 100).unwrap(), seg.sge(200, 28).unwrap()];
    w.lib.run(&mut w.s, j.post_read(&p, 0x5010, &local, 42)).unwrap();
    let wr = w.lib.sent.take().unwrap();
    assert_eq!((wr.opcode, wr.flag.value, wr.user_ctx, wr.next), (0x10, 0x20, 42, 0));
    assert_eq!(wr.tjetty, p.tjetty());
    assert_eq!((wr.rw.src.num_sge, wr.rw.src.sge.len()), (1, 1));
    let src = wr.rw.src.sge[0];
    assert_eq!((src.addr, src.len, src.tseg, src.user_tseg.addr), (0x5010, 128, p.tseg(), 0));
    assert_eq!((wr.rw.dst.num_sge, wr.rw.dst.sge.len()), (2, 2));
    assert_eq!((wr.rw.dst.sge[1].addr, wr.rw.dst.sge[1].len), (0x10_00c8, 28));
    assert_eq!((wr.rw.target_hint, wr.rw.notify_data), (0, 0));

    w.lib.broken = vec!["post"];
    assert_eq!(
        err(w.lib.run(&mut w.s, j.post_read(&p, 0x5010, &local, 42))),
        "urma_post_jetty_send_wr(READ) failed, status 11"
    );
}

#[test]
fn a_read_is_refused_when_its_length_overflows() {
    let mut w = world();
    let j = jetty(&mut w, 3);
    let p = peer(&mut w);
    let first = RegisteredSeg::register(&w.ctx, 0, u32::MAX as usize, 1);
    let seg = w.lib.run(&mut w.s, first).unwrap();
    let all = seg.sge(0, u32::MAX).unwrap();
    let one = seg.sge(0, 1).unwrap();
    let none = seg.sge(0, 0).unwrap();
    w.lib.run(&mut w.s, j.post_read(&p, 0, &[none, all, none], 1)).unwrap();
    assert_eq!(w.lib.sent.take().unwrap().rw.src.sge[0].len, u32::MAX);
    assert_eq!(
        err(w.lib.run(&mut w.s, j.post_read(&p, 0, &[all, one], 1))),
        "invalid: total local sge length overflows u32"
    );
    assert!(w.lib.sent.is_none());
}

#[test]
fn sends_and_receives_take_the_local_list() {
    let mut w = world();
    let j = jetty(&mut w, 2);
    let p = peer(&mut w);
    let first = RegisteredSeg::register(&w.ctx, 0x10_0000, 4096, 1);
    let seg = w.lib.run(&mut w.s, first).unwrap();
    let local = [seg.sge(0, 64).unwrap(), seg.sge(64, 64).unwrap()];
    w.lib.run(&mut w.s, j.post_send(&p, &local, 7)).unwrap();
    let wr = w.lib.sent.take().unwrap();
    assert_eq!((wr.opcode, wr.flag.value, wr.user_ctx, wr.next), (0x40, 0x20, 7, 0));
    assert_eq!(wr.tjetty, p.tjetty());
    assert_eq!((wr.rw.src.num_sge, wr.rw.src.sge[1].addr), (2, 0x10_0040));
    assert_eq!((wr.rw.dst.num_sge, wr.rw.dst.sge.len()), (0, 0));
    assert_eq!((wr.rw.target_hint, wr.rw.notify_data), (0, 0));

    w.lib.run(&mut w.s, j.post_recv(&local, 8)).unwrap();
    let wr = w.lib.received.take().unwrap();
    assert_eq!((wr.src.num_sge, wr.src.sge.len(), wr.user_ctx, wr.next), (2, 2, 8, 0));
    assert_eq!((wr.src.sge[0].tseg, wr.src.sge[0].len), (seg.tseg(), 64));

    w.lib.broken = vec!["post"];
    assert_eq!(
        err(w.lib.run(&mut w.s, j.post_send(&p, &local, 7))),
        "urma_post_jetty_send_wr(SEND) failed, status 11"
    );
    assert_eq!(
        err(w.lib.run(&mut w.s, j.post_recv(&local, 8))),
        "urma_post_jfr_wr failed, status 11"
    );
}

#[test]
fn local_lists_are_neither_empty_nor_too_long() {
    let mut w = world();
    let j = jetty(&mut w, 1);
    let p = peer(&mut w);
    let first = RegisteredSeg::register(&w.ctx, 0x10_0000, 4096, 1);
    let seg = w.lib.run(&mut w.s, first).unwrap();
    let s = seg.sge(0, 1).unwrap();
    w.lib.take_log();
    let long = "invalid: 2 local sges exceed max_sge 1 (see JettyOpts::max_sge)";
    let empty = "invalid: empty local sge list";
    assert_eq!(err(w.lib.run(&mut w.s, j.post_read(&p, 0, &[], 1))), empty);
    assert_eq!(err(w.lib.run(&mut w.s, j.post_send(&p, &[], 1))), empty);
    assert_eq!(err(w.lib.run(&mut w.s, j.post_recv(&[], 1))), empty);
    assert_eq!(err(w.lib.run(&mut w.s, j.post_read(&p, 0, &[s, s], 1))), long);
    assert_eq!(err(w.lib.run(&mut w.s, j.post_send(&p, &[s, s], 1))), long);
    assert_eq!(err(w.lib.run(&mut w.s, j.post_recv(&[s, s], 1))), long);
    assert_eq!(w.lib.take_log(), Vec::<&str>::new());
    let sges = j.check_local(&[s]).unwrap();
    assert_eq!((sges.len(), sges[0].addr, sges[0].user_tseg.addr), (1, 0x10_0000, 0));
}

/* ============================== export and import ============================== */

#[test]
fn an_export_copies_the_blob_out() {
    let mut w = world();
    let j = jetty(&mut w, 1);
    let first = RegisteredSeg::register(&w.ctx, 0x10_0000, 4096, 1);
    let seg = w.lib.run(&mut w.s, first).unwrap();
    w.lib.take_log();
    w.lib.blob = (0..50).collect();
    assert_eq!(w.lib.run(&mut w.s, seg.export_seg_ctx()).unwrap(), w.lib.blob);
    assert_eq!(w.lib.run(&mut w.s, j.export_rjetty()).unwrap(), w.lib.blob);
    assert_eq!(
        w.lib.take_log(),
        vec!["seg blob", "put seg ctx", "rjetty blob", "put rjetty"]
    );
    w.lib.blob = vec![0; 47];
    assert_eq!(
        err(w.lib.run(&mut w.s, seg.export_seg_ctx())),
        "invalid: seg ctx blob too short: 47 < 48"
    );
    assert_eq!(
        err(w.lib.run(&mut w.s, j.export_rjetty())),
        "invalid: rjetty blob too short: 47 < 48"
    );
    assert!(!w.lib.has("seg blob") && !w.lib.has("rjetty blob"));
}

#[test]
fn an_export_fails_as_the_library_does() {
    let mut w = world();
    let j = jetty(&mut w, 1);
    let first = RegisteredSeg::register(&w.ctx, 0x10_0000, 4096, 1);
    let seg = w.lib.run(&mut w.s, first).unwrap();
    w.lib.broken = vec!["status"];
    assert_eq!(
        err(w.lib.run(&mut w.s, seg.export_seg_ctx())),
        "urma_get_seg_ctx failed, status 22"
    );
    assert_eq!(
        err(w.lib.run(&mut w.s, j.export_rjetty())),
        "urma_get_rjetty failed, status 22"
    );
    w.lib.broken = vec!["seg blob", "rjetty blob"];
    w.lib.errno = 0;
    assert_eq!(err(w.lib.run(&mut w.s, seg.export_seg_ctx())), "urma_get_seg_ctx returned NULL");
    assert_eq!(err(w.lib.run(&mut w.s, j.export_rjetty())), "urma_get_rjetty returned NULL");
}

#[test]
fn an_import_from_blobs_patches_the_tp_type() {
    let mut w = world();
    let seg: Vec<u8> = (0..48).collect();
    let rj: Vec<u8> = (100..153).collect();
    let first = Peer::import_ctx(&w.ctx, &seg, &rj, 0xACFE, ByteOrder::Little);
    let p = w.lib.run(&mut w.s, first).unwrap();
    let mut bytes: Vec<u8> = vec![];
    for word in &w.lib.seg_blob {
        bytes.extend_from_slice(&word.to_le_bytes());
    }
    assert_eq!(bytes, seg);
    let mut bytes: Vec<u8> = vec![];
    for word in &w.lib.rjetty_blob {
        bytes.extend_from_slice(&word.to_le_bytes());
    }
    let mut want = rj.clone();
    want.resize(56, 0);
    want[40] = 1;
    want[41] = 0;
    want[42] = 0;
    want[43] = 0;
    assert_eq!(bytes, want);
    assert!(w.s.is_live(p.node()));

    let first = Peer::import_ctx(&w.ctx, &seg, &rj, 0xACFE, ByteOrder::Big);
    w.lib.run(&mut w.s, first).unwrap();
    assert_eq!(&w.lib.rjetty_blob[5].to_be_bytes()[..4], &[0, 0, 0, 1]);
    assert_eq!(&w.lib.rjetty_blob[5].to_be_bytes()[4..], &rj[44..48]);
}

#[test]
fn an_import_that_fails_leaves_nothing() {
    let mut w = world();
    let live = w.lib.live.len();
    let blob = vec![0u8; 48];
    let first = Peer::import_ctx(&w.ctx, &blob[..5], &blob, 0xACFE, ByteOrder::Little);
    assert_eq!(err(w.lib.run(&mut w.s, first)), "invalid: seg ctx blob too short: 5 < 48");
    let first = Peer::import_ctx(&w.ctx, &blob, &blob[..47], 0xACFE, ByteOrder::Little);
    assert_eq!(err(w.lib.run(&mut w.s, first)), "invalid: rjetty blob too short: 47 < 48");

    w.lib.broken = vec!["tseg"];
    w.lib.errno = 8;
    let first = Peer::import_ctx(&w.ctx, &blob, &blob, 0xACFE, ByteOrder::Little);
    match w.lib.run(&mut w.s, first) {
        Err(Error::Null(what, errno)) => assert_eq!((what, errno), ("urma_import_seg", 8)),
        _ => panic!("a NULL segment is an error"),
    }
    w.lib.broken = vec!["tjetty"];
    w.lib.take_log();
    let first = Peer::import_ctx(&w.ctx, &blob, &blob, 0xACFE, ByteOrder::Little);
    match w.lib.run(&mut w.s, first) {
        Err(Error::Null(what, errno)) => assert_eq!((what, errno), ("urma_import_jetty", 8)),
        _ => panic!("a NULL jetty is an error"),
    }
    assert_eq!(w.lib.take_log(), vec!["tseg", "tjetty", "unimport seg"]);
    assert_eq!(w.lib.live.len(), live);
}

/* ============================== drop order ============================== */

fn permutations(n: usize) -> Vec<Vec<usize>> {
    let mut all: Vec<Vec<usize>> = vec![vec![]];
    for i in 0..n {
        let mut longer = vec![];
        for p in &all {
            for at in 0..=p.len() {
                let mut q = p.clone();
                q.insert(at, i);
                longer.push(q);
            }
        }
        all = longer;
    }
    all
}

/// The library panics when something is deleted before what was created from it.
#[test]
fn every_drop_order_is_safe() {
    for order in permutations(7) {
        let mut w = world();
        for call in w.s.finish() {
            w.lib.perform(call);
        }
        let j = jetty(&mut w, 1);
        let p = peer(&mut w);
        let first = RegisteredSeg::register(&w.ctx, 0x10_0000, 4096, 1);
        let seg = w.lib.run(&mut w.s, first).unwrap();
        let first = RegisteredBuf::new(&w.ctx, 64, 1);
        let buf = w.lib.run(&mut w.s, first).unwrap();
        let handles = [
            w.urma.node(),
            w.ctx.node(),
            w.cq.node(),
            j.node(),
            p.node(),
            seg.node(),
            buf.node(),
        ];
        for i in order {
            assert!(w.lib.initialized);
            w.lib.drop_handle(&mut w.s, handles[i]);
        }
        assert!(w.lib.live.is_empty());
        assert!(!w.lib.initialized);
    }
}

/// Each call that is due when a resource goes is made once, and none before.
#[test]
fn each_deleting_call_is_made_once() {
    let mut w = world();
    let j = jetty(&mut w, 1);
    let p = peer(&mut w);
    let buf = w.lib.run(&mut w.s, RegisteredBuf::new(&w.ctx, 64, 1)).unwrap();
    let again = w.ctx.dup(&mut w.s);
    w.lib.take_log();
    for call in w.s.finish() {
        w.lib.perform(call);
    }
    for node in [w.urma.node(), w.ctx.node(), w.cq.node(), again.node()] {
        w.lib.drop_handle(&mut w.s, node);
    }
    assert_eq!(w.lib.take_log(), Vec::<&str>::new());
    for node in [j.node(), p.node(), buf.node(), j.node(), p.node(), buf.node()] {
        w.lib.drop_handle(&mut w.s, node);
    }
    assert_eq!(
        w.lib.take_log(),
        vec![
            "delete jetty",
            "delete jfr",
            "delete jfc",
            "delete jfce",
            "unimport jetty",
            "unimport seg",
            "unregister seg",
            "delete context",
            "uninit",
            "dealloc",
        ]
    );
    assert!(w.lib.live.is_empty());
}

/// What an operation builds on is named in its state.
#[test]
fn a_request_knows_what_it_builds_on() {
    let mut w = world();
    let j = jetty(&mut w, 2);
    let p = peer(&mut w);
    let first = RegisteredSeg::register(&w.ctx, 0x10_0000, 4096, 1);
    let seg = w.lib.run(&mut w.s, first).unwrap();
    let local = [seg.sge(0, 64).unwrap(), seg.sge(64, 64).unwrap()];
    match j.post_read(&p, 0x5000, &local, 1) {
        Step::Ask(post, _) => {
            assert_eq!((post.what, post.node), ("urma_post_jetty_send_wr(READ)", j.node()));
            assert_eq!(post.peer.map(|(node, _)| node), Some(p.node()));
            assert_eq!(post.segs, vec![(seg.node(), seg.tseg()), (seg.node(), seg.tseg())]);
        }
        Step::Done(_) => panic!("a call was expected"),
    }
    match j.post_recv(&local[..1], 1) {
        Step::Ask(post, _) => {
            assert!(post.peer.is_none());
            assert_eq!(post.segs, vec![(seg.node(), seg.tseg())]);
        }
        Step::Done(_) => panic!("a call was expected"),
    }
    match w.cq.poll() {
        Step::Ask(poll, _) => assert_eq!((poll.node, poll.jfc), (w.cq.node(), w.cq.jfc())),
        Step::Done(_) => panic!("a call was expected"),
    }
    match w.cq.wait_read(42) {
        Step::Ask(wait, _) => assert_eq!((wait.node, wait.jfc), (w.cq.node(), w.cq.jfc())),
        Step::Done(_) => panic!("a call was expected"),
    }
    match seg.export_seg_ctx() {
        Step::Ask(export, _) => {
            assert_eq!((export.node, export.target), (seg.node(), seg.tseg()));
        }
        Step::Done(_) => panic!("a call was expected"),
    }
    match j.export_rjetty() {
        Step::Ask(export, _) => assert_eq!(export.node, j.node()),
        Step::Done(_) => panic!("a call was expected"),
    }
}

/// A queue on one context, and a jetty that is created on another one.
struct Across {
    w: World,
    other: Context,
    jetty: Jetty,
}

fn across() -> Across {
    let mut w = world();
    let other = w.lib.run(&mut w.s, Context::create(&w.urma, "udma2")).unwrap();
    let first = Jetty::new(&other, &w.cq, JettyOpts::default());
    let jetty = w.lib.run(&mut w.s, first).unwrap();
    w.lib.take_log();
    Across { w, other, jetty }
}

#[test]
fn a_jetty_keeps_its_context_and_its_queue() {
    let Across { mut w, other, jetty } = across();
    w.lib.drop_handle(&mut w.s, other.node());
    w.lib.drop_handle(&mut w.s, w.cq.node());
    w.lib.drop_handle(&mut w.s, w.ctx.node());
    assert_eq!(w.lib.take_log(), Vec::<&str>::new());
    assert!(w.s.is_live(other.node()) && w.s.is_live(w.cq.node()));
    w.lib.drop_handle(&mut w.s, jetty.node());
    assert_eq!(
        w.lib.take_log(),
        vec![
            "delete jetty",
            "delete jfr",
            "delete jfc",
            "delete jfce",
            "delete context",
            "delete context",
        ]
    );
    assert!(w.lib.live.is_empty());
    assert!(!w.s.is_live(other.node()));

    /* the context of the queue may go on */
    let Across { mut w, other, jetty } = across();
    w.lib.drop_handle(&mut w.s, other.node());
    w.lib.drop_handle(&mut w.s, jetty.node());
    assert_eq!(w.lib.take_log(), vec!["delete jetty", "delete jfr", "delete context"]);
    assert!(w.lib.live.contains(&("context", w.ctx.raw().addr)));
    assert!(w.lib.live.contains(&("jfc", w.cq.jfc().addr)));
}

#[test]
fn every_drop_order_is_safe_across_contexts() {
    for order in permutations(6) {
        let Across { mut w, other, jetty: j } = across();
        for call in w.s.finish() {
            w.lib.perform(call);
        }
        let own = jetty(&mut w, 1);
        let handles = [
            w.urma.node(),
            w.ctx.node(),
            other.node(),
            w.cq.node(),
            j.node(),
            own.node(),
        ];
        for i in order {
            assert!(w.lib.initialized);
            w.lib.drop_handle(&mut w.s, handles[i]);
        }
        assert!(w.lib.live.is_empty());
        assert!(!w.lib.initialized);
    }
}
