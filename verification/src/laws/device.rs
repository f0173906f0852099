//! The library, its devices, and what they support.

use vstd::prelude::*;
use vstd::string::*;

use crate::call::{Call, Reply, Step};
use crate::error::{Error, ErrorView};
use crate::ffi::{
    urma_context_t, urma_device_cap_t, urma_eid_t, urma_tp_type_cap_t, URMA_SUCCESS,
};
use crate::laws;
use crate::operation;
use crate::operation::Turn;
use crate::session::Session;
use crate::tree::Resource;
use crate::urma::capability;
use crate::urma::capability::{query_device, DeviceCap, DeviceQuery, TpType, TransMode};
use crate::urma::context::{c_string, no_device_err, Context, ContextCreate};
use crate::urma::device;
use crate::urma::device::{decode_names, drop_absent, list_devices, DeviceListing};
use crate::urma::init::{Urma, UrmaInit};
use crate::urma::value::Eid;

verus! {

/* ============================== Initialization ============================== */

/// The call initializes the library: without a token, and with a uasid of the
/// system's choice.
pub open spec fn initializes(c: Call) -> bool {
    c matches Call::Init { attr } && attr.token == 0 && attr.uasid == 0
}

/// The library was initialized: the thread keeps that, and another handle to it was
/// handed out.
pub open spec fn initialized(before: Session, after: Session, id: usize, handles: int) -> bool {
    let (t, u) = (before.tree(), after.tree());
    &&& !t.contains_key(id)
    &&& u.dom() == t.dom().insert(id)
    &&& u[id].resource is Init
    &&& u[id].parent is None
    &&& u[id].handles == handles
    &&& forall|k: usize| #[trigger] t.contains_key(k) ==> u[k] == t[k]
    &&& after.cached() == Some(id)
}

/// A thread that has an initialization shares it without a call. A thread that has
/// none asks for one, once, and keeps it if that succeeds; otherwise it fails with
/// the library's status and stays as it was.
pub proof fn law_library_is_initialized(
    session: &mut Session,
    first: Step<UrmaInit, Urma>,
    run: Seq<Turn<UrmaInit>>,
    last: Step<UrmaInit, Urma>,
    after: Session,
)
    requires
        old(session).wf(),
        old(session).may_init(),
        call_ensures(Urma::init, (session,), first),
        operation::leads_to(first, *final(session), run, last, after),
    ensures
        match old(session).cached() {
            Some(id) => {
                &&& run.len() == 0
                &&& last is Done && last->Done_0 is Ok
                &&& last->Done_0->Ok_0.id() == id
                &&& laws::counted_once_more(*old(session), after, id)
            },
            None => {
                &&& *final(session) == *old(session)
                &&& operation::asked(run, last, 0) is Some
                &&& initializes(operation::asked(run, last, 0)->0)
                &&& run.len() <= 1
                &&& run.len() == 1 ==> {
                    &&& run[0].reply is Status
                    &&& run[0].reply->Status_0 == URMA_SUCCESS ==> {
                        &&& last is Done && last->Done_0 is Ok
                        &&& initialized(*old(session), after, last->Done_0->Ok_0.id(), 2)
                    }
                    &&& run[0].reply->Status_0 != URMA_SUCCESS ==> {
                        &&& last is Done && last->Done_0 is Err
                        &&& last->Done_0->Err_0@ == ErrorView::Status(
                            run[0].reply->Status_0,
                            "urma_init"@,
                        )
                        &&& after == *old(session)
                    }
                }
            },
        },
{
    operation::lemma_turns(first, *final(session), run, last, after);
    match old(session).cached() {
        Some(id) => {
            laws::lemma_counted(*old(session), after, id);
        },
        None => {
            if run.len() == 1 && run[0].reply->Status_0 == URMA_SUCCESS {
                let id = last->Done_0->Ok_0.id();
                assert(after.tree().dom() =~= old(session).tree().dom().insert(id));
            }
        },
    }
}

/* ============================== Listing ============================== */

/// How many of the first `n` entries are there.
pub open spec fn present_before<T>(entries: Seq<Option<T>>, n: int) -> nat
    decreases n,
{
    if n <= 0 {
        0
    } else {
        present_before(entries, n - 1) + if entries[n - 1] is Some {
            1nat
        } else {
            0nat
        }
    }
}

proof fn lemma_present_before<T>(a: Seq<Option<T>>, b: Seq<Option<T>>, n: int)
    requires
        n <= a.len(),
        n <= b.len(),
        forall|i: int| 0 <= i < n ==> a[i] == b[i],
    ensures
        present_before(a, n) == present_before(b, n),
    decreases n,
{
    if n > 0 {
        lemma_present_before(a, b, n - 1);
    }
}

proof fn lemma_present<T>(entries: Seq<Option<T>>)
    ensures
        device::present(entries).len() == present_before(entries, entries.len() as int),
        forall|i: int|
            0 <= i < entries.len() && (#[trigger] entries[i]) is Some ==> present_before(
                entries,
                i,
            ) < device::present(entries).len() && device::present(entries)[present_before(
                entries,
                i,
            ) as int] == entries[i]->0,
    decreases entries.len(),
{
    if entries.len() > 0 {
        let rest = entries.drop_last();
        lemma_present(rest);
        lemma_present_before(entries, rest, rest.len() as int);
        assert forall|i: int|
            0 <= i < entries.len() && (#[trigger] entries[i]) is Some implies present_before(
            entries,
            i,
        ) < device::present(entries).len() && device::present(entries)[present_before(
            entries,
            i,
        ) as int] == entries[i]->0 by {
            if i < rest.len() {
                assert(rest[i] == entries[i]);
                lemma_present_before(entries, rest, i);
            }
        }
    }
}

/// The names are those of the entries that are there: as many as there are, and in
/// their order.
pub open spec fn named(out: Seq<String>, entries: Seq<Option<Vec<u8>>>) -> bool {
    &&& out.len() == present_before(entries, entries.len() as int)
    &&& forall|i: int|
        0 <= i < entries.len() && (#[trigger] entries[i]) is Some ==> out[present_before(
            entries,
            i,
        ) as int]@ == device::utf8_lossy(entries[i]->0@)
}

proof fn lemma_named(out: Seq<String>, entries: Seq<Option<Vec<u8>>>)
    requires
        device::texts(out) == device::name_texts(entries),
    ensures
        named(out, entries),
{
    let found = device::present(entries);
    lemma_present(entries);
    assert(device::texts(out).len() == device::name_texts(entries).len());
    assert(device::texts(out).len() == out.len());
    assert(device::name_texts(entries).len() == found.len());
    assert forall|i: int|
        0 <= i < entries.len() && (#[trigger] entries[i]) is Some implies out[present_before(
        entries,
        i,
    ) as int]@ == device::utf8_lossy(entries[i]->0@) by {
        let j = present_before(entries, i) as int;
        assert(0 <= j < found.len());
        assert(device::texts(out)[j] == out[j]@);
        assert(device::name_texts(entries)[j] == device::utf8_lossy(found[j]@));
    }
}

/// See [`named`].
pub proof fn law_names_are_those_of_the_entries(names: &Vec<Option<Vec<u8>>>, r: Vec<String>)
    requires
        call_ensures(decode_names, (names,), r),
    ensures
        named(r@, names@),
{
    lemma_named(r@, names@);
}

/// Of a list of names, those that are there are kept, in their order.
pub proof fn law_absent_names_are_dropped(names: Vec<Option<String>>, r: Vec<String>)
    requires
        call_ensures(drop_absent, (names,), r),
    ensures
        r@.len() == present_before(names@, names@.len() as int),
        forall|i: int|
            0 <= i < names@.len() && (#[trigger] names@[i]) is Some ==> r@[present_before(
                names@,
                i,
            ) as int]@ == names@[i]->0@,
{
    lemma_present(names@);
    assert(device::texts(r@).len() == device::texts(device::present(names@)).len());
    assert forall|i: int|
        0 <= i < names@.len() && (#[trigger] names@[i]) is Some implies r@[present_before(
        names@,
        i,
    ) as int]@ == names@[i]->0@ by {
        let j = present_before(names@, i) as int;
        assert(device::texts(r@)[j] == device::texts(device::present(names@))[j]);
    }
}

/// How a listing goes on from its turn `k`, in which the list is asked for: every
/// device that is in the list is listed. If there is no list, there is no device;
/// otherwise the list is freed.
pub open spec fn listed(
    run: Seq<Turn<DeviceListing>>,
    last: Step<DeviceListing, Vec<String>>,
    k: int,
) -> bool {
    &&& operation::asked(run, last, k) == Some(Call::GetDeviceList)
    &&& run.len() > k ==> {
        &&& run[k].reply matches Reply::Devices { list, count, names }
        &&& list == 0 ==> {
            &&& run.len() == k + 1
            &&& last is Done && last->Done_0 is Ok
            &&& last->Done_0->Ok_0@.len() == 0
        }
        &&& list != 0 ==> {
            &&& operation::asked(run, last, k + 1) == Some(Call::FreeDeviceList { list })
            &&& run.len() <= k + 2
            &&& run.len() == k + 2 ==> {
                &&& last is Done && last->Done_0 is Ok
                &&& count <= 0 ==> last->Done_0->Ok_0@.len() == 0
                &&& count > 0 ==> names@.len() == count && named(last->Done_0->Ok_0@, names@)
            }
        }
    }
}

/// The devices are listed: first the library is initialized, if it is not, and a
/// listing fails only with that. Nothing but that initialization is left of it. See
/// [`listed`] for what is listed.
pub proof fn law_every_device_is_listed(
    session: &mut Session,
    first: Step<DeviceListing, Vec<String>>,
    run: Seq<Turn<DeviceListing>>,
    last: Step<DeviceListing, Vec<String>>,
    after: Session,
)
    requires
        old(session).wf(),
        old(session).may_init(),
        call_ensures(list_devices, (session,), first),
        operation::leads_to(first, *final(session), run, last, after),
    ensures
        match old(session).cached() {
            Some(id) => {
                &&& listed(run, last, 0)
                &&& last is Done ==> after.tree() == old(session).tree() && after.cached() == Some(
                    id,
                )
            },
            None => {
                &&& operation::asked(run, last, 0) is Some
                &&& initializes(operation::asked(run, last, 0)->0)
                &&& run.len() > 0 ==> {
                    let st = run[0].reply->Status_0;
                    &&& st == URMA_SUCCESS ==> {
                        &&& listed(run, last, 1)
                        &&& last is Done ==> after.cached() is Some && initialized(
                            *old(session),
                            after,
                            after.cached()->0,
                            1,
                        )
                    }
                    &&& st != URMA_SUCCESS ==> {
                        &&& run.len() == 1
                        &&& last is Done && last->Done_0 is Err
                        &&& last->Done_0->Err_0@ == ErrorView::Status(st, "urma_init"@)
                        &&& after == *old(session)
                    }
                }
            },
        },
{
    let start = *final(session);
    operation::lemma_turns(first, start, run, last, after);
    let k = if old(session).cached() is Some {
        0int
    } else {
        1int
    };
    if run.len() == k + 2 && last is Done && last->Done_0 is Ok {
        if let Reply::Devices { list, count, names } = run[k].reply {
            assert(device::texts(last->Done_0->Ok_0@).len() == last->Done_0->Ok_0@.len());
            if count > 0 {
                assert(device::texts(last->Done_0->Ok_0@) == device::name_texts(names@));
                lemma_named(last->Done_0->Ok_0@, names@);
            }
        }
    }
    if let Some(id) = old(session).cached() {
        if last is Done {
            assert(after.tree() =~= old(session).tree());
        }
    } else if run.len() > 0 && run[0].reply->Status_0 == URMA_SUCCESS && last is Done {
        let id = after.cached()->0;
        assert(after.tree().dom() =~= old(session).tree().dom().insert(id));
    }
}

/* ============================== Capabilities ============================== */

/// What is read out of the capabilities of a device, field by field and bit by bit.
pub open spec fn reads(cap: DeviceCap, raw: urma_device_cap_t) -> bool {
    &&& cap.trans_mode == raw.trans_mode
    &&& cap.rm_tp_cap.value == raw.rm_tp_cap.value
    &&& cap.rc_tp_cap.value == raw.rc_tp_cap.value
    &&& cap.um_tp_cap.value == raw.um_tp_cap.value
    &&& cap.rm_order_cap.value == raw.rm_order_cap.value
    &&& cap.rc_order_cap.value == raw.rc_order_cap.value
    &&& cap.rm_multi_path == (raw.tp_feature.value & 0x1 != 0)
    &&& cap.rc_multi_path == (raw.tp_feature.value & 0x2 != 0)
    &&& cap.ctp_en == (raw.feature.value & 0x4_0000 != 0)
    &&& cap.max_jfs_sge == raw.max_jfs_sge
    &&& cap.max_jfr_sge == raw.max_jfr_sge
    &&& cap.max_msg_size == raw.max_msg_size
    &&& cap.page_size_cap == raw.page_size_cap
}

/// The bits that the capabilities are read from.
proof fn lemma_bits(v: u32)
    ensures
        ((v >> 0u32) & 1 == 1) == (v & 0x1 != 0),
        ((v >> 1u32) & 1 == 1) == (v & 0x2 != 0),
        ((v >> 2u32) & 1 == 1) == (v & 0x4 != 0),
        ((v >> 18u32) & 1 == 1) == (v & 0x4_0000 != 0),
{
    assert(((v >> 0u32) & 1 == 1) == (v & 0x1 != 0) && ((v >> 1u32) & 1 == 1) == (v & 0x2 != 0)
        && ((v >> 2u32) & 1 == 1) == (v & 0x4 != 0) && ((v >> 18u32) & 1 == 1) == (v & 0x4_0000
        != 0)) by (bit_vector);
}

proof fn lemma_reads(cap: DeviceCap, raw: urma_device_cap_t)
    requires
        cap == capability::cap_of(raw),
    ensures
        reads(cap, raw),
{
    lemma_bits(raw.tp_feature.value);
    lemma_bits(raw.feature.value);
}

/// See [`reads`].
pub proof fn law_capabilities_are_read(raw: &urma_device_cap_t, cap: DeviceCap)
    requires
        call_ensures(DeviceCap::from_raw, (raw,), cap),
    ensures
        reads(cap, *raw),
{
    lemma_reads(cap, *raw);
}

/// The bit that stands for a mode.
pub open spec fn mode_bit(mode: TransMode) -> u32 {
    match mode {
        TransMode::Rm => 0x1,
        TransMode::Rc => 0x2,
        TransMode::Um => 0x4,
    }
}

/// The TP types that were read for a mode.
pub open spec fn tp_bits(cap: DeviceCap, mode: TransMode) -> u32 {
    match mode {
        TransMode::Rm => cap.rm_tp_cap.value,
        TransMode::Rc => cap.rc_tp_cap.value,
        TransMode::Um => cap.um_tp_cap.value,
    }
}

/// A mode can be used with a TP type if the device advertises the mode, and the TP
/// type for it; CTP only if the device lets it through.
pub open spec fn usable(cap: DeviceCap, mode: TransMode, tp: TpType) -> bool {
    &&& cap.trans_mode & mode_bit(mode) != 0
    &&& match tp {
        TpType::Rtp => tp_bits(cap, mode) & 0x1 != 0,
        TpType::Ctp => cap.ctp_en && tp_bits(cap, mode) & 0x2 != 0,
        TpType::Utp => tp_bits(cap, mode) & 0x4 != 0,
    }
}

proof fn lemma_usable(cap: DeviceCap, mode: TransMode, tp: TpType)
    ensures
        cap.can_use(mode, tp) == usable(cap, mode, tp),
        cap.has_mode(mode) == (cap.trans_mode & mode_bit(mode) != 0),
{
    lemma_bits(cap.trans_mode);
    lemma_bits(tp_bits(cap, mode));
}

/// What a device supports is what its bits say, for every mode and TP type.
pub proof fn law_support_is_what_the_bits_say(
    cap: &DeviceCap,
    mode: TransMode,
    tp: TpType,
    mode_ok: bool,
    pair_ok: bool,
    tps: urma_tp_type_cap_t,
    paths: bool,
)
    requires
        call_ensures(DeviceCap::supports_mode, (cap, mode), mode_ok),
        call_ensures(DeviceCap::supports, (cap, mode, tp), pair_ok),
        call_ensures(DeviceCap::tp_cap, (cap, mode), tps),
        call_ensures(DeviceCap::supports_multi_path, (cap, mode), paths),
    ensures
        mode_ok == (cap.trans_mode & mode_bit(mode) != 0),
        pair_ok == usable(*cap, mode, tp),
        tps.value == tp_bits(*cap, mode),
        paths == (mode == TransMode::Rm && cap.rm_multi_path || mode == TransMode::Rc
            && cap.rc_multi_path),
{
    lemma_usable(*cap, mode, tp);
}

/// A mode is known to the library by its bit.
pub proof fn law_mode_is_its_bit(mode: TransMode, raw: u32)
    requires
        call_ensures(TransMode::to_raw, (mode,), raw),
    ensures
        raw == mode_bit(mode),
{
    assert(1u32 << 0 == 1 && 1u32 << 1 == 2 && 1u32 << 2 == 4) by (bit_vector);
}

/// Where a pair stands: mode by mode, and for each mode by its TP type.
pub open spec fn pair_rank(p: (TransMode, TpType)) -> int {
    (match p.0 {
        TransMode::Rm => 0int,
        TransMode::Rc => 3,
        TransMode::Um => 6,
    }) + match p.1 {
        TpType::Rtp => 0int,
        TpType::Ctp => 1,
        TpType::Utp => 2,
    }
}

/// Every pair stands behind those before it; so none is there twice.
pub open spec fn in_order(s: Seq<(TransMode, TpType)>) -> bool {
    forall|i: int, j: int| 0 <= i < j < s.len() ==> pair_rank(s[i]) < pair_rank(s[j])
}

/// The pairs that are listed are exactly those that can be used, in their order.
pub proof fn law_combos_are_the_usable_pairs(cap: &DeviceCap, r: Vec<(TransMode, TpType)>)
    requires
        call_ensures(DeviceCap::supported_combos, (cap,), r),
    ensures
        in_order(r@),
        forall|mode: TransMode, tp: TpType|
            #![trigger usable(*cap, mode, tp)]
            r@.contains((mode, tp)) <==> usable(*cap, mode, tp),
{
    let all = capability::all_pairs();
    let can = |p: (TransMode, TpType)| cap.can_use(p.0, p.1);
    lemma_filter_keeps_order(all, can);
    assert forall|mode: TransMode, tp: TpType|
        #![trigger usable(*cap, mode, tp)]
        r@.contains((mode, tp)) <==> usable(*cap, mode, tp) by {
        lemma_usable(*cap, mode, tp);
    }
}

proof fn lemma_filter_keeps_order(
    s: Seq<(TransMode, TpType)>,
    p: spec_fn((TransMode, TpType)) -> bool,
)
    requires
        in_order(s),
    ensures
        in_order(s.filter(p)),
    decreases s.len(),
{
    reveal(Seq::filter);
    if s.len() > 0 {
        let rest = s.drop_last();
        lemma_filter_keeps_order(rest, p);
        let kept = rest.filter(p);
        assert forall|i: int| 0 <= i < kept.len() implies pair_rank(#[trigger] kept[i])
            < pair_rank(s.last()) by {
            assert(kept.contains(kept[i]));
            rest.lemma_filter_contains_rev(p, kept[i]);
            let j = choose|j: int| 0 <= j < rest.len() && rest[j] == kept[i];
            assert(s[j] == kept[i]);
            assert(s[s.len() - 1] == s.last());
        }
    }
}

/// A name as a C string is the name and a NUL; a name that has a NUL in it has none.
pub proof fn law_c_string_ends_at_its_nul(name: &str, r: Option<Vec<u8>>)
    requires
        call_ensures(c_string, (name,), r),
    ensures
        r is None <==> (exists|i: int|
            0 <= i < name.spec_bytes().len() && #[trigger] name.spec_bytes()[i] == 0),
        r matches Some(bytes) ==> {
            &&& bytes@.len() == name.spec_bytes().len() + 1
            &&& bytes@.last() == 0
            &&& forall|i: int|
                0 <= i < name.spec_bytes().len() ==> #[trigger] bytes@[i] == name.spec_bytes()[i]
        },
{
    if name.spec_bytes().contains(0u8) {
        let i = choose|i: int| 0 <= i < name.spec_bytes().len() && name.spec_bytes()[i] == 0;
        assert(name.spec_bytes()[i] == 0);
    }
}

/// How a query goes on from its turn `k`, in which the device is looked up.
pub open spec fn queried(
    dev_name: &str,
    run: Seq<Turn<DeviceQuery>>,
    last: Step<DeviceQuery, DeviceCap>,
    k: int,
) -> bool {
    &&& operation::asked(run, last, k) is Some
    &&& looks_up(operation::asked(run, last, k)->0, dev_name)
    &&& run.len() > k ==> {
        let dev = run[k].reply->Pointer_addr;
        &&& dev == 0 ==> {
            &&& run.len() == k + 1
            &&& last is Done && last->Done_0 is Err
            &&& last->Done_0->Err_0@ == ErrorView::NotFound(
                "device '"@ + dev_name@ + "' not found, see list_devices()"@,
            )
        }
        &&& dev != 0 ==> {
            &&& operation::asked(run, last, k + 1) == Some(Call::QueryDevice { dev })
            &&& run.len() <= k + 2
            &&& run.len() == k + 2 ==> {
                &&& run[k + 1].reply matches Reply::Attr { status, attr }
                &&& status == URMA_SUCCESS ==> {
                    &&& last is Done && last->Done_0 is Ok
                    &&& reads(last->Done_0->Ok_0, attr.dev_cap)
                }
                &&& status != URMA_SUCCESS ==> {
                    &&& last is Done && last->Done_0 is Err
                    &&& last->Done_0->Err_0@ == ErrorView::Status(status, "urma_query_device"@)
                }
            }
        }
    }
}

/// The call looks a device up by its name, as a C string.
pub open spec fn looks_up(c: Call, dev_name: &str) -> bool {
    c matches Call::GetDeviceByName { name } && {
        &&& name@.len() == dev_name.spec_bytes().len() + 1
        &&& name@.last() == 0
        &&& forall|i: int|
            0 <= i < dev_name.spec_bytes().len() ==> #[trigger] name@[i] == dev_name.spec_bytes()[i]
    }
}

/// A device is queried: first the library is initialized, if it is not. Nothing but
/// that initialization is left of it. See [`queried`] for what comes back. A name
/// with a NUL in it is refused before anything else.
pub proof fn law_device_is_queried(
    session: &mut Session,
    dev_name: &str,
    first: Step<DeviceQuery, DeviceCap>,
    run: Seq<Turn<DeviceQuery>>,
    last: Step<DeviceQuery, DeviceCap>,
    after: Session,
)
    requires
        old(session).wf(),
        old(session).may_init(),
        call_ensures(query_device, (session, dev_name), first),
        operation::leads_to(first, *final(session), run, last, after),
    ensures
        dev_name.spec_bytes().contains(0u8) ==> {
            &&& run.len() == 0
            &&& last is Done && last->Done_0 is Err
            &&& last->Done_0->Err_0@ == ErrorView::Invalid("device name contains NUL"@)
            &&& after == *old(session)
        },
        !dev_name.spec_bytes().contains(0u8) ==> match old(session).cached() {
            Some(id) => {
                &&& queried(dev_name, run, last, 0)
                &&& last is Done ==> after.tree() == old(session).tree() && after.cached() == Some(
                    id,
                )
            },
            None => {
                &&& operation::asked(run, last, 0) is Some
                &&& initializes(operation::asked(run, last, 0)->0)
                &&& run.len() > 0 ==> {
                    let st = run[0].reply->Status_0;
                    &&& st == URMA_SUCCESS ==> {
                        &&& queried(dev_name, run, last, 1)
                        &&& last is Done ==> after.cached() is Some && initialized(
                            *old(session),
                            after,
                            after.cached()->0,
                            1,
                        )
                    }
                    &&& st != URMA_SUCCESS ==> {
                        &&& run.len() == 1
                        &&& last is Done && last->Done_0 is Err
                        &&& last->Done_0->Err_0@ == ErrorView::Status(st, "urma_init"@)
                        &&& after == *old(session)
                    }
                }
            },
        },
{
    let start = *final(session);
    operation::lemma_turns(first, start, run, last, after);
    let k = if old(session).cached() is Some {
        0int
    } else {
        1int
    };
    if run.len() == k + 2 && last is Done && last->Done_0 is Ok {
        if let Reply::Attr { attr, .. } = run[k + 1].reply {
            lemma_reads(last->Done_0->Ok_0, attr.dev_cap);
        }
    }
    if !dev_name.spec_bytes().contains(0u8) {
        if let Some(id) = old(session).cached() {
            if last is Done {
                assert(after.tree() =~= old(session).tree());
            }
        } else if run.len() > 0 && run[0].reply->Status_0 == URMA_SUCCESS && last is Done {
            let id = after.cached()->0;
            assert(after.tree().dom() =~= old(session).tree().dom().insert(id));
        }
    }
}

/* ============================== Contexts ============================== */

/// A context is created on the device of the given name and on its first EID, below
/// the initialization of the guard. The list of EIDs is freed before.
pub proof fn law_context_takes_the_first_eid(
    urma: &Urma,
    dev_name: &str,
    first: Step<ContextCreate, Context>,
    before: Session,
    run: Seq<Turn<ContextCreate>>,
    last: Step<ContextCreate, Context>,
    after: Session,
)
    requires
        call_ensures(Context::create, (urma, dev_name), first),
        operation::leads_to(first, before, run, last, after),
        before.tree().contains_key(urma.id()),
    ensures
        first is Done <==> dev_name.spec_bytes().contains(0u8),
        first matches Step::Done(r) ==> {
            &&& r matches Err(e)
            &&& e@ == ErrorView::Invalid("device name contains NUL"@)
        },
        operation::asked(run, last, 0) matches Some(c) ==> looks_up(c, dev_name),
        operation::asked(run, last, 1) matches Some(c) ==> c == (Call::GetEidList {
            dev: run[0].reply->Pointer_addr,
        }),
        operation::asked(run, last, 2) matches Some(c) ==> c == (Call::FreeEidList {
            list: run[1].reply->Eids_list,
        }),
        operation::asked(run, last, 3) matches Some(c) ==> {
            &&& run[1].reply->Eids_count > 0
            &&& c == (Call::CreateContext {
                dev: run[0].reply->Pointer_addr,
                eid_index: run[1].reply->Eids_first.eid_index,
            })
        },
        run.len() <= 4,
        run.len() > 0 && run[0].reply->Pointer_addr != 0 ==> operation::asked(
            run,
            last,
            1,
        ) is Some,
        run.len() > 1 && run[1].reply->Eids_list != 0 ==> operation::asked(run, last, 2) is Some,
        run.len() > 2 && run[1].reply->Eids_count > 0 ==> operation::asked(run, last, 3) is Some,
        last matches Step::Done(Ok(ctx)) ==> {
            &&& run.len() == 4
            &&& ctx.raw_ctx().addr == run[3].reply->Pointer_addr
            &&& ctx.raw_ctx().addr != 0
            &&& ctx.own_eid().0 == run[1].reply->Eids_first.eid.raw
            &&& laws::created(
                before,
                after,
                ctx.id(),
                urma.id(),
                None,
                Resource::Context { ctx: ctx.raw_ctx() },
            )
        },
        run.len() == 4 && run[3].reply->Pointer_addr != 0 ==> last matches Step::Done(Ok(_)),
        run.len() == 4 ==> last is Done,
        run.len() > 0 && run[0].reply->Pointer_addr == 0 ==> last is Done,
        run.len() > 1 && run[1].reply->Eids_list == 0 ==> last is Done,
        run.len() > 2 && run[1].reply->Eids_count == 0 ==> last is Done,
        run.len() > 0 ==> (last matches Step::Done(Err(e)) ==> {
            &&& after == before
            &&& if run[0].reply->Pointer_addr == 0 {
                &&& run.len() == 1
                &&& e@ == ErrorView::NotFound(
                    "device '"@ + dev_name@ + "' not found, see list_devices()"@,
                )
            } else if run[1].reply->Eids_list == 0 || run[1].reply->Eids_count == 0 {
                &&& run[1].reply->Eids_list == 0 <==> run.len() == 2
                &&& e@ == ErrorView::NotFound("no eid on device '"@ + dev_name@ + "'"@)
            } else {
                &&& run.len() == 4
                &&& e@ == ErrorView::Null("urma_create_context"@, run[3].reply->Pointer_errno)
            }
        }),
{
    operation::lemma_turns(first, before, run, last, after);
    if run.len() > 0 {
        if let Step::Done(Ok(ctx)) = last {
            let resource = after.tree()[ctx.id()].resource;
            laws::lemma_created(before, after, ctx.id(), urma.id(), None, resource);
        }
    }
}

/// What a context shows of itself; the EID is the one that it was created with.
pub proof fn law_context_shows_itself(ctx: &Context, eid: Eid, raw: urma_context_t, node: usize)
    requires
        call_ensures(Context::eid, (ctx,), eid),
        call_ensures(Context::raw, (ctx,), raw),
        call_ensures(Context::node, (ctx,), node),
    ensures
        eid == ctx.own_eid(),
        raw == ctx.raw_ctx(),
        node == ctx.id(),
{
}

/// The error of a device that is not there.
pub proof fn law_missing_device_error(dev_name: &str, r: Error)
    requires
        call_ensures(no_device_err, (dev_name,), r),
    ensures
        r@ == ErrorView::NotFound("device '"@ + dev_name@ + "' not found, see list_devices()"@),
{
}

/// The guard of an initialization shows which one it is to.
pub proof fn law_guard_shows_itself(urma: &Urma, node: usize)
    requires
        call_ensures(Urma::node, (urma,), node),
    ensures
        node == urma.id(),
{
}

/// Another handle to a context is to the same context and the same EID, and is
/// counted.
pub proof fn law_context_is_shared(ctx: &Context, session: &mut Session, r: Context)
    requires
        call_ensures(Context::dup, (ctx, session), r),
        old(session).tree().contains_key(ctx.id()),
        old(session).tree()[ctx.id()].handles < usize::MAX,
    ensures
        r.id() == ctx.id(),
        r.raw_ctx() == ctx.raw_ctx(),
        r.own_eid() == ctx.own_eid(),
        laws::counted_once_more(*old(session), *final(session), ctx.id()),
{
    laws::lemma_counted(*old(session), *final(session), ctx.id());
}

/// An EID is its bytes, on both sides.
pub proof fn law_eid_is_its_bytes(raw: urma_eid_t, eid: Eid, back: urma_eid_t)
    requires
        call_ensures(Eid::from_raw, (raw,), eid),
        call_ensures(Eid::to_raw, (eid,), back),
    ensures
        eid.0 == raw.raw,
        back.raw == raw.raw,
{
}

} // verus!
