//! The life of a thread: what happens to its session, one event after the other.
//!
//! Here the promises are stated that no single function keeps alone: that the
//! library is initialized once and shared, and that every initialization is ended
//! once, after the last resource that needs it.

use vstd::prelude::*;

use crate::call::{Call, Reply, Step};
use crate::operation;
use crate::operation::{Operation, Turn};
use crate::session;
use crate::session::Session;
use crate::tree;

verus! {

/// What happens to a session.
pub ghost enum Event {
    /// An operation ran, with these calls and answers
    Operation { made: Seq<(Call, Reply)> },
    /// Another handle was handed out, to a caller or to an operation
    Retain { id: usize },
    /// A handle was dropped, and these calls were made
    Release { id: usize, calls: Seq<Call> },
    /// The thread ended, and these calls were made
    Finish { calls: Seq<Call> },
}

/// An event, and the session as it was before.
pub ghost struct Moment {
    pub event: Event,
    pub session: Session,
}

/// How often the library answered that it was initialized.
pub open spec fn inits_made(made: Seq<(Call, Reply)>) -> nat
    decreases made.len(),
{
    if made.len() == 0 {
        0
    } else {
        inits_made(made.drop_last()) + if made.last().0 is Init && operation::succeeded(
            made.last().1,
        ) {
            1nat
        } else {
            0nat
        }
    }
}

/// What an operation does to the initialization: it asks for one only if there is
/// none, it never ends one, and it keeps the one that the thread has.
pub open spec fn operated(before: &Session, made: Seq<(Call, Reply)>, after: &Session) -> bool {
    &&& forall|i: int|
        0 <= i < made.len() ==> {
            &&& !((#[trigger] made[i]).0 is Uninit)
            &&& made[i].0 is Init ==> before.cached() is None && tree::no_init(before.tree())
        }
    &&& before.cached() is Some ==> after.cached() == before.cached()
    &&& tree::inits_in(after.tree()) == tree::inits_in(before.tree()) + inits_made(made)
}

impl Event {
    /// The calls that are made, in their order.
    pub open spec fn calls(self) -> Seq<Call> {
        match self {
            Event::Operation { made } => made.map_values(|m: (Call, Reply)| m.0),
            Event::Retain { .. } => seq![],
            Event::Release { calls, .. } => calls,
            Event::Finish { calls } => calls,
        }
    }

    /// How often the library is initialized by it.
    pub open spec fn inits(self) -> nat {
        match self {
            Event::Operation { made } => inits_made(made),
            _ => 0,
        }
    }

    /// What it does to the session.
    pub open spec fn happens(self, before: &Session, after: &Session) -> bool {
        match self {
            Event::Operation { made } => operated(before, made, after),
            Event::Retain { id } => session::retained(before, id, after),
            Event::Release { id, calls } => session::released(before, id, calls, after),
            Event::Finish { calls } => session::finished(before, calls, after),
        }
    }
}

/// From `first` on, the events of `life` lead to `last`.
pub open spec fn lived(first: Session, life: Seq<Moment>, last: Session) -> bool
    decreases life.len(),
{
    if life.len() == 0 {
        last == first
    } else {
        let moment = life.last();
        &&& lived(first, life.drop_last(), moment.session)
        &&& moment.session.wf()
        &&& moment.event.happens(&moment.session, &last)
    }
}

/// How often the library was initialized.
pub open spec fn inits(life: Seq<Moment>) -> nat
    decreases life.len(),
{
    if life.len() == 0 {
        0
    } else {
        inits(life.drop_last()) + life.last().event.inits()
    }
}

/// How often `urma_uninit` was called.
pub open spec fn uninits(life: Seq<Moment>) -> nat
    decreases life.len(),
{
    if life.len() == 0 {
        0
    } else {
        uninits(life.drop_last()) + tree::times_made(life.last().event.calls(), Call::Uninit)
    }
}

/// The calls of a run, with their answers.
pub open spec fn exchange<O>(run: Seq<Turn<O>>) -> Seq<(Call, Reply)> {
    run.map_values(|turn: Turn<O>| (turn.call, turn.reply))
}

/// Whatever the library answers, and however far it has come: an operation does to
/// the initialization what an event may do.
pub proof fn law_operation_is_an_event<O: Operation>(
    first: Step<O, O::Output>,
    before: Session,
    run: Seq<Turn<O>>,
    last: Step<O, O::Output>,
    after: Session,
)
    requires
        operation::starts(first),
        first matches Step::Ask(state, _) && state.ready(&before),
        operation::leads_to(first, before, run, last, after),
    ensures
        (Event::Operation { made: exchange(run) }).happens(&before, &after),
    decreases run.len(),
{
    if run.len() > 0 {
        let turn = run.last();
        let earlier = run.drop_last();
        let asked = Step::<O, O::Output>::Ask(turn.state, turn.call);
        law_operation_is_an_event(first, before, earlier, asked, turn.session);
        operation::law_nothing_leaks(first, before, earlier, asked, turn.session);
        turn.state.accounts(turn.reply, last, &turn.session, &after);
        assert(operation::may_make(turn.call, turn.state.held(), &turn.session));
        let made = exchange(run);
        assert(made.drop_last() =~= exchange(earlier));
        assert forall|i: int| 0 <= i < made.len() implies {
            &&& !((#[trigger] made[i]).0 is Uninit)
            &&& made[i].0 is Init ==> before.cached() is None && tree::no_init(before.tree())
        } by {
            if i < earlier.len() {
                assert(exchange(earlier)[i] == made[i]);
            }
        }
    }
}

/// Over the whole life of a thread, every initialization of the library is ended
/// by `urma_uninit` exactly once: as often as it was initialized, it was ended or
/// is initialized still. So there is never more than one initialization.
pub proof fn law_every_init_is_ended_once(first: Session, life: Seq<Moment>, last: Session)
    requires
        lived(first, life, last),
        tree::no_init(first.tree()),
    ensures
        inits(life) == uninits(life) + tree::inits_in(last.tree()),
        tree::no_init(last.tree()) ==> uninits(life) == inits(life),
        !tree::no_init(last.tree()) ==> uninits(life) == inits(life) - 1,
    decreases life.len(),
{
    if life.len() > 0 {
        let moment = life.last();
        let (before, t) = (moment.session, moment.session.tree());
        let calls = moment.event.calls();
        law_every_init_is_ended_once(first, life.drop_last(), before);
        match moment.event {
            Event::Operation { made } => {
                tree::lemma_made(calls, Call::Uninit);
                if calls.contains(Call::Uninit) {
                    let i = choose|i: int| 0 <= i < calls.len() && calls[i] == Call::Uninit;
                    assert(made[i].0 is Uninit);
                }
            },
            Event::Retain { id } => {
                tree::lemma_recounted_inits(t, id, last.tree()[id]);
            },
            Event::Release { id, .. } => {
                tree::law_release_counts_inits(t, id);
            },
            Event::Finish { .. } => {
                if let Some(id) = before.cached() {
                    tree::law_release_counts_inits(t, id);
                }
            },
        }
    }
}

/// As long as the thread has an initialization and does not end, it keeps that
/// one: `urma_init` is not called a second time, and `urma_uninit` is not called,
/// whatever is created, duplicated and dropped. (With it, `Urma::init` succeeds
/// without a call.)
pub proof fn law_initialization_is_shared(first: Session, life: Seq<Moment>, last: Session)
    requires
        lived(first, life, last),
        first.cached() is Some,
        forall|i: int| 0 <= i < life.len() ==> !((#[trigger] life[i]).event is Finish),
    ensures
        last.cached() == first.cached(),
        forall|i: int, c: Call|
            0 <= i < life.len() && #[trigger] life[i].event.calls().contains(c) ==> !(c is Init)
                && !(c is Uninit),
    decreases life.len(),
{
    if life.len() > 0 {
        let moment = life.last();
        let earlier = life.drop_last();
        let before = moment.session;
        assert forall|i: int| 0 <= i < earlier.len() implies !(
        (#[trigger] earlier[i]).event is Finish) by {
            assert(earlier[i] == life[i]);
        }
        law_initialization_is_shared(first, earlier, before);
        assert forall|i: int, c: Call|
            0 <= i < life.len() && #[trigger] life[i].event.calls().contains(c) implies !(
        c is Init) && !(c is Uninit) by {
            if i < earlier.len() {
                assert(earlier[i] == life[i]);
                assert(earlier[i].event.calls().contains(c));
            } else {
                lemma_no_init_call(moment, last, c);
            }
        }
        assert(moment == life[life.len() - 1]);
    }
}

/// The same of one event.
proof fn lemma_no_init_call(moment: Moment, after: Session, c: Call)
    requires
        moment.session.wf(),
        moment.session.cached() is Some,
        moment.event.happens(&moment.session, &after),
        !(moment.event is Finish),
        moment.event.calls().contains(c),
    ensures
        !(c is Init),
        !(c is Uninit),
{
    let before = moment.session;
    let calls = moment.event.calls();
    let i = choose|i: int| 0 <= i < calls.len() && calls[i] == c;
    match moment.event {
        Event::Operation { made } => {
            assert(made[i].0 == c);
        },
        Event::Release { id, .. } => {
            let t = before.tree();
            if let Some(root) = before.cached() {
                tree::law_release(t, id);
                tree::lemma_release_uninit(t, id, root);
                tree::lemma_made(calls, Call::Uninit);
                tree::lemma_no_init_made(t, id, c);
            }
        },
        _ => {},
    }
}

} // verus!
