//! Device enumeration.

use vstd::prelude::*;
use vstd::string::*;

use crate::call::{Call, Effect, Kind, Object, Reply, Step};
use crate::error::ErrorView;
use crate::ffi::{Addr, URMA_SUCCESS};
use crate::operation;
use crate::operation::{Operation, Request};
use crate::session::Session;
use crate::tree;
use crate::tree::{Node, Resource};
use crate::urma::init;
use crate::urma::init::{Urma, UrmaInit};

verus! {

/// What `String::from_utf8_lossy` makes of some bytes.
pub uninterp spec fn utf8_lossy(bytes: Seq<u8>) -> Seq<char>;

/// `String::from_utf8_lossy`, as an owned string. Bytes that are valid UTF-8 are
/// decoded as they are; what stands for bytes that are not is left to the
/// function, and depends on nothing but the bytes.
#[verifier::external_body]
fn from_utf8_lossy(bytes: &[u8]) -> (r: String)
    ensures
        r@ == utf8_lossy(bytes@),
        vstd::utf8::valid_utf8(bytes@) ==> r@ == vstd::utf8::decode_utf8(bytes@),
{
    String::from_utf8_lossy(bytes).into_owned()
}

/// The entries that are there, in their order.
pub open spec fn present<T>(entries: Seq<Option<T>>) -> Seq<T>
    decreases entries.len(),
{
    if entries.len() == 0 {
        seq![]
    } else {
        match entries.last() {
            Some(x) => present(entries.drop_last()).push(x),
            None => present(entries.drop_last()),
        }
    }
}

/// The names of a device list as text.
pub open spec fn name_texts(names: Seq<Option<Vec<u8>>>) -> Seq<Seq<char>> {
    present(names).map_values(|name: Vec<u8>| utf8_lossy(name@))
}

/// The texts of strings.
pub open spec fn texts(names: Seq<String>) -> Seq<Seq<char>> {
    names.map_values(|name: String| name@)
}

/// The names that are there.
pub fn drop_absent(names: Vec<Option<String>>) -> (r: Vec<String>)
    ensures
        texts(r@) == texts(present(names@)),
{
    let mut out: Vec<String> = Vec::new();
    let mut i: usize = 0;
    assert(names@.take(0) =~= seq![]);
    assert(texts(out@) =~= texts(present(names@.take(0))));
    while i < names.len()
        invariant
            i <= names@.len(),
            texts(out@) == texts(present(names@.take(i as int))),
        decreases names@.len() - i,
    {
        let ghost before = out@;
        assert(names@.take(i + 1).drop_last() =~= names@.take(i as int));
        if let Some(name) = &names[i] {
            out.push(name.clone());
            assert(texts(out@) =~= texts(before).push(name@));
            assert(texts(present(names@.take(i + 1))) =~= texts(
                present(names@.take(i as int)),
            ).push(name@));
        }
        i += 1;
    }
    assert(names@.take(i as int) =~= names@);
    out
}

/// The names of a device list as text; entries that are NULL are left out.
pub fn decode_names(names: &Vec<Option<Vec<u8>>>) -> (r: Vec<String>)
    ensures
        texts(r@) == name_texts(names@),
{
    let mut out: Vec<Option<String>> = Vec::new();
    let mut i: usize = 0;
    assert(names@.take(0) =~= seq![]);
    assert(texts(present(out@)) =~= name_texts(names@.take(0)));
    while i < names.len()
        invariant
            i <= names@.len(),
            texts(present(out@)) == name_texts(names@.take(i as int)),
        decreases names@.len() - i,
    {
        let ghost before = out@;
        assert(names@.take(i + 1).drop_last() =~= names@.take(i as int));
        match &names[i] {
            Some(bytes) => {
                let name = from_utf8_lossy(bytes.as_slice());
                out.push(Some(name));
                assert(out@.drop_last() =~= before);
                assert(texts(present(out@)) =~= texts(present(before)).push(name@));
                assert(name_texts(names@.take(i + 1)) =~= name_texts(names@.take(i as int)).push(
                    utf8_lossy(bytes@),
                ));
            },
            None => {
                out.push(None);
                assert(out@.drop_last() =~= before);
            },
        }
        i += 1;
    }
    assert(names@.take(i as int) =~= names@);
    drop_absent(out)
}

/// Where the enumeration stands.
pub enum ListStage {
    /// The library is initialized
    Init,
    /// The list is asked for; the guard keeps the library initialized
    List { guard: usize },
    /// The names are known and the list is freed
    Free { guard: usize, list: Addr, names: Vec<String> },
}

/// The devices are being listed.
pub struct DeviceListing {
    pub stage: ListStage,
}

/// Enumerate local URMA device names (`urma_get_device_list`). The list is empty
/// when no device exists; the error is that of `urma_init` when that fails.
pub fn list_devices(session: &mut Session) -> (r: Step<DeviceListing, Vec<String>>)
    requires
        old(session).wf(),
        old(session).may_init(),
    ensures
        final(session).wf(),
        operation::starts(r),
        r matches Step::Ask(state, _) && state.ready(final(session)),
        final(session).cached() == old(session).cached(),
        match old(session).cached() {
            Some(id) => {
                &&& r == Step::<DeviceListing, Vec<String>>::Ask(
                    (DeviceListing { stage: ListStage::List { guard: id } }),
                    Call::GetDeviceList,
                )
                &&& final(session).tree() == tree::with_handle(old(session).tree(), id)
            },
            None => {
                &&& r == Step::<DeviceListing, Vec<String>>::Ask(
                    (DeviceListing { stage: ListStage::Init }),
                    init::init_call(),
                )
                &&& *final(session) == *old(session)
            },
        },
{
    match Urma::init(session) {
        Step::Ask(_, c) => Step::Ask(DeviceListing { stage: ListStage::Init }, c),
        Step::Done(Ok(urma)) => Step::Ask(
            DeviceListing { stage: ListStage::List { guard: urma.node() } },
            Call::GetDeviceList,
        ),
        Step::Done(Err(e)) => Step::Done(Err(e)),
    }
}

impl DeviceListing {
    /// The enumeration ended: its guard is dropped, which deletes nothing.
    pub open spec fn ends(guard: usize, before: &Session, after: &Session) -> bool {
        &&& after.tree() == tree::without_handle(before.tree(), guard)
        &&& after.cached() == before.cached()
    }
}

impl Request for DeviceListing {
    type Output = Vec<String>;

    open spec fn held(&self) -> Set<Object> {
        match self.stage {
            ListStage::Free { list, .. } => set![Object { kind: Kind::DeviceList, addr: list }],
            _ => Set::empty(),
        }
    }

    open spec fn effect(&self) -> Effect {
        match self.stage {
            ListStage::Init => Effect::Neither,
            ListStage::List { .. } => Effect::Make(Kind::DeviceList),
            ListStage::Free { list, .. } => Effect::GiveBack(
                Object { kind: Kind::DeviceList, addr: list },
            ),
        }
    }

    open spec fn initializes(&self) -> bool {
        self.stage is Init
    }

    open spec fn awaits(&self, reply: &Reply) -> bool {
        match self.stage {
            ListStage::Init => reply is Status,
            ListStage::List { .. } => reply is Devices,
            ListStage::Free { .. } => reply is Done,
        }
    }

    /// The guard is a handle besides the one that the thread keeps.
    open spec fn ready(&self, session: &Session) -> bool {
        match self.stage {
            ListStage::Init => session.cached() is None && tree::no_init(session.tree()),
            ListStage::List { guard } => session.cached() == Some(guard) && session.has_handle(
                guard,
            ),
            ListStage::Free { guard, .. } => session.cached() == Some(guard) && session.has_handle(
                guard,
            ),
        }
    }

    open spec fn rank(&self) -> nat {
        match self.stage {
            ListStage::Init => 2,
            ListStage::List { .. } => 1,
            ListStage::Free { .. } => 0,
        }
    }

    open spec fn kept(output: &Vec<String>, session: &Session) -> Set<Object> {
        Set::empty()
    }

    open spec fn follows(
        &self,
        reply: Reply,
        r: Step<DeviceListing, Vec<String>>,
        before: &Session,
        after: &Session,
    ) -> bool {
        match (self.stage, reply) {
            (ListStage::Init, Reply::Status(st)) => if st == URMA_SUCCESS {
                &&& r matches Step::Ask(next, c)
                &&& c == Call::GetDeviceList
                &&& next.stage matches ListStage::List { guard }
                &&& !before.tree().contains_key(guard)
                &&& after.tree() == before.tree().insert(
                    guard,
                    Node { resource: Resource::Init, parent: None, context: None, handles: 2, children: 0 },
                )
                &&& after.cached() == Some(guard)
            } else {
                operation::fails(r, ErrorView::Status(st, "urma_init"@), before, after)
            },
            (ListStage::List { guard }, Reply::Devices { list, count, names }) => if list == 0 {
                &&& r matches Step::Done(Ok(out)) && out@.len() == 0
                &&& DeviceListing::ends(guard, before, after)
            } else {
                &&& r matches Step::Ask(next, c)
                &&& c == Call::FreeDeviceList { list }
                &&& next.stage matches ListStage::Free { guard: g, list: l, names: out }
                &&& g == guard && l == list
                &&& texts(out@) == if count <= 0 {
                    Seq::empty()
                } else {
                    name_texts(names@)
                }
                &&& *after == *before
            },
            (ListStage::Free { guard, names, .. }, Reply::Done) => {
                &&& r == Step::<DeviceListing, Vec<String>>::Done(Ok(names))
                &&& DeviceListing::ends(guard, before, after)
            },
            _ => false,
        }
    }
}

impl Operation for DeviceListing {
    proof fn accounts(
        &self,
        reply: Reply,
        r: Step<DeviceListing, Vec<String>>,
        before: &Session,
        after: &Session,
    ) {
        let (t, u) = (before.tree(), after.tree());
        match self.stage {
            ListStage::Init => {
                if let Step::Ask(next, _) = r {
                    assert(u.contains_key(next.stage->List_guard));
                }
            },
            ListStage::List { guard } => tree::lemma_recounted_inits(t, guard, u[guard]),
            ListStage::Free { guard, .. } => tree::lemma_recounted_inits(t, guard, u[guard]),
        }
    }

    fn step(self, session: &mut Session, reply: Reply) -> (r: Step<DeviceListing, Vec<String>>) {
        match self.stage {
            ListStage::Init => match UrmaInit.step(session, reply) {
                Step::Done(Ok(urma)) => Step::Ask(
                    DeviceListing { stage: ListStage::List { guard: urma.node() } },
                    Call::GetDeviceList,
                ),
                Step::Done(Err(e)) => Step::Done(Err(e)),
                Step::Ask(_, _) => vstd::pervasive::unreached(),
            },
            ListStage::List { guard } => match reply {
                Reply::Devices { list, count, names } => {
                    if list == 0 {
                        proof {
                            tree::lemma_release_keeps(session.tree(), guard);
                        }
                        session.release(guard);
                        Step::Done(Ok(Vec::new()))
                    } else {
                        let out = if count <= 0 {
                            let none: Vec<String> = Vec::new();
                            assert(texts(none@) =~= Seq::empty());
                            none
                        } else {
                            decode_names(&names)
                        };
                        Step::Ask(
                            DeviceListing { stage: ListStage::Free { guard, list, names: out } },
                            Call::FreeDeviceList { list },
                        )
                    }
                },
                _ => vstd::pervasive::unreached(),
            },
            ListStage::Free { guard, names, .. } => {
                proof {
                    tree::lemma_release_keeps(session.tree(), guard);
                }
                session.release(guard);
                Step::Done(Ok(names))
            },
        }
    }
}

} // verus!
