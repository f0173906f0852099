//! What a device supports.

use vstd::prelude::*;
use vstd::string::*;

use crate::call::{Call, Effect, Object, Reply, Step};
use crate::error::{check_status, Error, ErrorView};
use crate::ffi;
use crate::ffi::{
    urma_device_cap_t, urma_order_type_cap_t, urma_tp_type_cap_t, URMA_SUCCESS, URMA_TM_RC, URMA_TM_RM, URMA_TM_UM,
};
use crate::operation;
use crate::operation::{Operation, Request};
use crate::session::Session;
use crate::tree;
use crate::tree::{Node, Resource};
use crate::urma::context;
use crate::urma::context::{c_string, no_device_err};
use crate::urma::init;
use crate::urma::init::{Urma, UrmaInit};

verus! {

/// Transaction-layer connectivity
#[derive(Clone, Copy, PartialEq, Eq, Structural, Debug)]
pub enum TransMode {
    /// Reliable message (connectionless, many-to-many)
    Rm,
    /// Reliable connection (one-to-one)
    Rc,
    /// Unreliable message
    Um,
}

/// UB-protocol TP type
#[derive(Clone, Copy, PartialEq, Eq, Structural, Debug)]
pub enum TpType {
    /// Reliable Transport
    Rtp,
    /// Compact Transport
    Ctp,
    /// Unreliable Transport
    Utp,
}

impl TransMode {
    /// The mode's bit in the transport modes of a device.
    pub open spec fn place(self) -> u32 {
        match self {
            TransMode::Rm => 0,
            TransMode::Rc => 1,
            TransMode::Um => 2,
        }
    }

    /// The mode as `urma_transport_mode_t`.
    pub fn to_raw(self) -> (r: u32)
        ensures
            r == 1u32 << self.place(),
    {
        assert(1u32 << 0 == 1 && 1u32 << 1 == 2 && 1u32 << 2 == 4) by (bit_vector);
        match self {
            TransMode::Rm => URMA_TM_RM,
            TransMode::Rc => URMA_TM_RC,
            TransMode::Um => URMA_TM_UM,
        }
    }
}

/// The communication-mode capabilities of a device (`urma_query_device`), and
/// its limits.
#[derive(Clone, Copy)]
pub struct DeviceCap {
    /// Bit OR of the supported transport modes
    pub trans_mode: u32,
    pub rm_tp_cap: urma_tp_type_cap_t,
    pub rc_tp_cap: urma_tp_type_cap_t,
    pub um_tp_cap: urma_tp_type_cap_t,
    /// The order types of RM and RC
    pub rm_order_cap: urma_order_type_cap_t,
    pub rc_order_cap: urma_order_type_cap_t,
    /// Whether RM and RC can span several physical ports
    pub rm_multi_path: bool,
    pub rc_multi_path: bool,
    /// A device-level CTP gate in addition to the per-mode cap bits
    pub ctp_en: bool,
    /// Max scatter-gather entries per send work request
    pub max_jfs_sge: u32,
    /// Max scatter-gather entries per receive work request
    pub max_jfr_sge: u32,
    /// Largest single message in bytes
    pub max_msg_size: u64,
    /// Page-size bitmap for pinned registration (0 = the provider did not report
    /// one; the plain register path does not need it)
    pub page_size_cap: u64,
}

/// What the queried capabilities say.
pub open spec fn cap_of(cap: urma_device_cap_t) -> DeviceCap {
    DeviceCap {
        trans_mode: cap.trans_mode as u32,
        rm_tp_cap: cap.rm_tp_cap,
        rc_tp_cap: cap.rc_tp_cap,
        um_tp_cap: cap.um_tp_cap,
        rm_order_cap: cap.rm_order_cap,
        rc_order_cap: cap.rc_order_cap,
        rm_multi_path: ffi::bit(cap.tp_feature.value, 0),
        rc_multi_path: ffi::bit(cap.tp_feature.value, 1),
        ctp_en: ffi::bit(cap.feature.value, 18),
        max_jfs_sge: cap.max_jfs_sge,
        max_jfr_sge: cap.max_jfr_sge,
        max_msg_size: cap.max_msg_size,
        page_size_cap: cap.page_size_cap,
    }
}

/// Every pair of a transport mode and a TP type, mode by mode.
pub open spec fn all_pairs() -> Seq<(TransMode, TpType)> {
    seq![
        (TransMode::Rm, TpType::Rtp),
        (TransMode::Rm, TpType::Ctp),
        (TransMode::Rm, TpType::Utp),
        (TransMode::Rc, TpType::Rtp),
        (TransMode::Rc, TpType::Ctp),
        (TransMode::Rc, TpType::Utp),
        (TransMode::Um, TpType::Rtp),
        (TransMode::Um, TpType::Ctp),
        (TransMode::Um, TpType::Utp),
    ]
}

impl DeviceCap {
    /// The mode is advertised.
    pub open spec fn has_mode(self, mode: TransMode) -> bool {
        ffi::bit(self.trans_mode, mode.place())
    }

    /// The TP types of one mode.
    pub open spec fn mode_tp(self, mode: TransMode) -> urma_tp_type_cap_t {
        match mode {
            TransMode::Rm => self.rm_tp_cap,
            TransMode::Rc => self.rc_tp_cap,
            TransMode::Um => self.um_tp_cap,
        }
    }

    /// The mode is advertised and can use the TP type; CTP also needs the
    /// device-level gate.
    pub open spec fn can_use(self, mode: TransMode, tp: TpType) -> bool {
        &&& self.has_mode(mode)
        &&& match tp {
            TpType::Rtp => ffi::bit(self.mode_tp(mode).value, 0),
            TpType::Ctp => self.ctp_en && ffi::bit(self.mode_tp(mode).value, 1),
            TpType::Utp => ffi::bit(self.mode_tp(mode).value, 2),
        }
    }

    /// The capabilities in the output of `urma_query_device`.
    pub fn from_raw(cap: &urma_device_cap_t) -> (r: DeviceCap)
        ensures
            r == cap_of(*cap),
    {
        DeviceCap {
            trans_mode: cap.trans_mode as u32,
            rm_tp_cap: cap.rm_tp_cap,
            rc_tp_cap: cap.rc_tp_cap,
            um_tp_cap: cap.um_tp_cap,
            rm_order_cap: cap.rm_order_cap,
            rc_order_cap: cap.rc_order_cap,
            rm_multi_path: cap.tp_feature.rm_multi_path(),
            rc_multi_path: cap.tp_feature.rc_multi_path(),
            ctp_en: cap.feature.ctp_en(),
            max_jfs_sge: cap.max_jfs_sge,
            max_jfr_sge: cap.max_jfr_sge,
            max_msg_size: cap.max_msg_size,
            page_size_cap: cap.page_size_cap,
        }
    }

    /// Whether the device advertises the mode
    pub fn supports_mode(&self, mode: TransMode) -> (r: bool)
        ensures
            r == self.has_mode(mode),
    {
        proof {
            ffi::lemma_bit(self.trans_mode, mode.place());
        }
        self.trans_mode & mode.to_raw() != 0
    }

    /// The TP types that the mode can use, before the device-level CTP gate
    pub fn tp_cap(&self, mode: TransMode) -> (r: urma_tp_type_cap_t)
        ensures
            r == self.mode_tp(mode),
    {
        match mode {
            TransMode::Rm => self.rm_tp_cap,
            TransMode::Rc => self.rc_tp_cap,
            TransMode::Um => self.um_tp_cap,
        }
    }

    /// Whether the mode can be used with the TP type; this folds in the `ctp_en`
    /// gate
    pub fn supports(&self, mode: TransMode, tp: TpType) -> (r: bool)
        ensures
            r == self.can_use(mode, tp),
    {
        let cap = self.tp_cap(mode);
        self.supports_mode(mode) && match tp {
            TpType::Rtp => cap.rtp(),
            TpType::Ctp => self.ctp_en && cap.ctp(),
            TpType::Utp => cap.utp(),
        }
    }

    /// Whether the mode can span several physical ports
    pub fn supports_multi_path(&self, mode: TransMode) -> (r: bool)
        ensures
            r == match mode {
                TransMode::Rm => self.rm_multi_path,
                TransMode::Rc => self.rc_multi_path,
                TransMode::Um => false,
            },
    {
        match mode {
            TransMode::Rm => self.rm_multi_path,
            TransMode::Rc => self.rc_multi_path,
            TransMode::Um => false,
        }
    }

    /// Every (mode, tp) pair that passes [`DeviceCap::supports`]
    pub fn supported_combos(&self) -> (r: Vec<(TransMode, TpType)>)
        ensures
            r@ == all_pairs().filter(|p: (TransMode, TpType)| self.can_use(p.0, p.1)),
            forall|mode: TransMode, tp: TpType|
                r@.contains((mode, tp)) <==> #[trigger] self.can_use(mode, tp),
    {
        let pairs: [(TransMode, TpType); 9] = [
            (TransMode::Rm, TpType::Rtp),
            (TransMode::Rm, TpType::Ctp),
            (TransMode::Rm, TpType::Utp),
            (TransMode::Rc, TpType::Rtp),
            (TransMode::Rc, TpType::Ctp),
            (TransMode::Rc, TpType::Utp),
            (TransMode::Um, TpType::Rtp),
            (TransMode::Um, TpType::Ctp),
            (TransMode::Um, TpType::Utp),
        ];
        assert(pairs@ =~= all_pairs());
        let ghost usable = |p: (TransMode, TpType)| self.can_use(p.0, p.1);
        let mut out: Vec<(TransMode, TpType)> = Vec::new();
        let mut i: usize = 0;
        proof {
            reveal(Seq::filter);
            assert(pairs@.take(0) =~= seq![]);
        }
        while i < 9
            invariant
                i <= 9,
                pairs@ == all_pairs(),
                usable == (|p: (TransMode, TpType)| self.can_use(p.0, p.1)),
                out@ == pairs@.take(i as int).filter(usable),
            decreases 9 - i,
        {
            proof {
                reveal(Seq::filter);
                assert(pairs@.take(i + 1).drop_last() =~= pairs@.take(i as int));
            }
            let (mode, tp) = pairs[i];
            if self.supports(mode, tp) {
                out.push((mode, tp));
            }
            i += 1;
        }
        proof {
            assert(pairs@.take(9) =~= all_pairs());
            assert forall|mode: TransMode, tp: TpType|
                out@.contains((mode, tp)) <==> #[trigger] self.can_use(mode, tp) by {
                let at = 3 * (mode.place() as int) + match tp {
                    TpType::Rtp => 0int,
                    TpType::Ctp => 1int,
                    TpType::Utp => 2int,
                };
                assert(all_pairs()[at] == (mode, tp));
                assert(all_pairs().contains((mode, tp)));
                if self.can_use(mode, tp) {
                    all_pairs().lemma_filter_contains_rev(usable, (mode, tp));
                }
                if out@.contains((mode, tp)) {
                    let k = choose|k: int| 0 <= k < out@.len() && out@[k] == (mode, tp);
                    all_pairs().lemma_filter_pred(usable, k);
                }
            }
        }
        out
    }
}

/// Where a query stands.
pub enum QueryStage {
    /// The library is initialized; the C string is the device's name
    Init { name: Vec<u8> },
    /// The device is looked up
    Device { guard: usize },
    /// The device is queried
    Query { guard: usize },
}

/// A device is being queried.
pub struct DeviceQuery {
    pub dev_name: String,
    pub stage: QueryStage,
}

/// What the device supports (`urma_query_device`).
pub fn query_device(session: &mut Session, dev_name: &str) -> (r: Step<DeviceQuery, DeviceCap>)
    requires
        old(session).wf(),
        old(session).may_init(),
    ensures
        final(session).wf(),
        operation::starts(r),
        final(session).cached() == old(session).cached(),
        if dev_name.spec_bytes().contains(0u8) {
            operation::fails(
                r,
                ErrorView::Invalid("device name contains NUL"@),
                old(session),
                final(session),
            )
        } else {
            &&& r matches Step::Ask(state, c)
            &&& state.ready(final(session))
            &&& state.dev_name@ == dev_name@
            &&& match old(session).cached() {
                Some(id) => {
                    &&& state.stage == QueryStage::Device { guard: id }
                    &&& c matches Call::GetDeviceByName { name } && name@
                        == dev_name.spec_bytes().push(0u8)
                    &&& final(session).tree() == tree::with_handle(old(session).tree(), id)
                },
                None => {
                    &&& state.stage matches QueryStage::Init { name } && name@
                        == dev_name.spec_bytes().push(0u8)
                    &&& c == init::init_call()
                    &&& *final(session) == *old(session)
                },
            }
        },
{
    let name = match c_string(dev_name) {
        None => return Step::Done(Err(Error::Invalid("device name contains NUL".to_owned()))),
        Some(name) => name,
    };
    let dev_name = dev_name.to_owned();
    match Urma::init(session) {
        Step::Ask(_, c) => Step::Ask(DeviceQuery { dev_name, stage: QueryStage::Init { name } }, c),
        Step::Done(Ok(urma)) => Step::Ask(
            DeviceQuery { dev_name, stage: QueryStage::Device { guard: urma.node() } },
            Call::GetDeviceByName { name },
        ),
        Step::Done(Err(e)) => Step::Done(Err(e)),
    }
}

/// A query ended: its guard is dropped, which deletes nothing.
pub open spec fn query_ends(guard: usize, before: &Session, after: &Session) -> bool {
    &&& after.tree() == tree::without_handle(before.tree(), guard)
    &&& after.cached() == before.cached()
}

impl Request for DeviceQuery {
    type Output = DeviceCap;

    open spec fn held(&self) -> Set<Object> {
        Set::empty()
    }

    open spec fn effect(&self) -> Effect {
        Effect::Neither
    }

    open spec fn initializes(&self) -> bool {
        self.stage is Init
    }

    open spec fn awaits(&self, reply: &Reply) -> bool {
        match self.stage {
            QueryStage::Init { .. } => reply is Status,
            QueryStage::Device { .. } => reply is Pointer,
            QueryStage::Query { .. } => reply is Attr,
        }
    }

    /// The guard is a handle besides the one that the thread keeps.
    open spec fn ready(&self, session: &Session) -> bool {
        match self.stage {
            QueryStage::Init { .. } => session.cached() is None && tree::no_init(session.tree()),
            QueryStage::Device { guard } => session.cached() == Some(guard) && session.has_handle(
                guard,
            ),
            QueryStage::Query { guard } => session.cached() == Some(guard) && session.has_handle(
                guard,
            ),
        }
    }

    open spec fn rank(&self) -> nat {
        match self.stage {
            QueryStage::Init { .. } => 2,
            QueryStage::Device { .. } => 1,
            QueryStage::Query { .. } => 0,
        }
    }

    open spec fn kept(output: &DeviceCap, session: &Session) -> Set<Object> {
        Set::empty()
    }

    open spec fn follows(
        &self,
        reply: Reply,
        r: Step<DeviceQuery, DeviceCap>,
        before: &Session,
        after: &Session,
    ) -> bool {
        match (self.stage, reply) {
            (QueryStage::Init { name }, Reply::Status(st)) => if st == URMA_SUCCESS {
                &&& r matches Step::Ask(next, c)
                &&& c == Call::GetDeviceByName { name }
                &&& next.dev_name == self.dev_name
                &&& next.stage matches QueryStage::Device { guard }
                &&& !before.tree().contains_key(guard)
                &&& after.tree() == before.tree().insert(
                    guard,
                    Node { resource: Resource::Init, parent: None, context: None, handles: 2, children: 0 },
                )
                &&& after.cached() == Some(guard)
            } else {
                operation::fails(r, ErrorView::Status(st, "urma_init"@), before, after)
            },
            (QueryStage::Device { guard }, Reply::Pointer { addr, .. }) => if addr == 0 {
                &&& r matches Step::Done(Err(e)) && e@ == context::no_device(self.dev_name@)
                &&& query_ends(guard, before, after)
            } else {
                operation::asks(
                    r,
                    DeviceQuery { stage: QueryStage::Query { guard }, ..*self },
                    Call::QueryDevice { dev: addr },
                    before,
                    after,
                )
            },
            (QueryStage::Query { guard }, Reply::Attr { status, attr }) => {
                &&& query_ends(guard, before, after)
                &&& if status == URMA_SUCCESS {
                    r == Step::<DeviceQuery, DeviceCap>::Done(Ok(cap_of(attr.dev_cap)))
                } else {
                    r matches Step::Done(Err(e)) && e@ == ErrorView::Status(
                        status,
                        "urma_query_device"@,
                    )
                }
            },
            _ => false,
        }
    }
}

impl Operation for DeviceQuery {
    proof fn accounts(
        &self,
        reply: Reply,
        r: Step<DeviceQuery, DeviceCap>,
        before: &Session,
        after: &Session,
    ) {
        let (t, u) = (before.tree(), after.tree());
        match self.stage {
            QueryStage::Init { .. } => {
                if let Step::Ask(next, _) = r {
                    assert(u.contains_key(next.stage->Device_guard));
                }
            },
            QueryStage::Device { guard } => tree::lemma_recounted_inits(t, guard, u[guard]),
            QueryStage::Query { guard } => tree::lemma_recounted_inits(t, guard, u[guard]),
        }
    }

    fn step(self, session: &mut Session, reply: Reply) -> (r: Step<DeviceQuery, DeviceCap>) {
        let dev_name = self.dev_name;
        match self.stage {
            QueryStage::Init { name } => match UrmaInit.step(session, reply) {
                Step::Done(Ok(urma)) => Step::Ask(
                    DeviceQuery { dev_name, stage: QueryStage::Device { guard: urma.node() } },
                    Call::GetDeviceByName { name },
                ),
                Step::Done(Err(e)) => Step::Done(Err(e)),
                Step::Ask(_, _) => vstd::pervasive::unreached(),
            },
            QueryStage::Device { guard } => match reply {
                Reply::Pointer { addr, .. } => {
                    if addr == 0 {
                        proof {
                            tree::lemma_release_keeps(session.tree(), guard);
                        }
                        session.release(guard);
                        Step::Done(Err(no_device_err(dev_name.as_str())))
                    } else {
                        Step::Ask(
                            DeviceQuery { dev_name, stage: QueryStage::Query { guard } },
                            Call::QueryDevice { dev: addr },
                        )
                    }
                },
                _ => vstd::pervasive::unreached(),
            },
            QueryStage::Query { guard } => match reply {
                Reply::Attr { status, attr } => {
                    proof {
                        tree::lemma_release_keeps(session.tree(), guard);
                    }
                    session.release(guard);
                    match check_status(status, "urma_query_device") {
                        Ok(_) => Step::Done(Ok(DeviceCap::from_raw(&attr.dev_cap))),
                        Err(e) => Step::Done(Err(e)),
                    }
                },
                _ => vstd::pervasive::unreached(),
            },
        }
    }
}

} // verus!
