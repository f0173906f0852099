//! Operations: what happens between the calls of one request.

use vstd::prelude::*;

use crate::call;
use crate::call::{Call, Effect, Object, Reply, Step};
use crate::error::ErrorView;
use crate::ffi::URMA_SUCCESS;
use crate::session::Session;
use crate::tree;
use crate::tree::Resource;

verus! {

/// A request under way, waiting for the answer to a call.
pub trait Request: Sized {
    /// What the request gives when it succeeds.
    type Output;

    /// The objects that exist because of this operation.
    spec fn held(&self) -> Set<Object>;

    /// What the awaited call does.
    spec fn effect(&self) -> Effect;

    /// The awaited call is `urma_init`.
    spec fn initializes(&self) -> bool;

    /// Whether `reply` has the form of an answer to the awaited call.
    spec fn awaits(&self, reply: &Reply) -> bool;

    /// The resources that the operation builds on exist.
    spec fn ready(&self, session: &Session) -> bool;

    /// How many calls may follow the awaited one.
    spec fn rank(&self) -> nat;

    /// The objects that live on for the output.
    spec fn kept(output: &Self::Output, session: &Session) -> Set<Object>;

    /// What follows from the answer: the next call or the result, and what
    /// becomes of the session.
    spec fn follows(
        &self,
        reply: Reply,
        r: Step<Self, Self::Output>,
        before: &Session,
        after: &Session,
    ) -> bool;
}

/// A request that can be carried on.
pub trait Operation: Request {
    /// Every step keeps account of the objects, keeps an initialization that the
    /// thread has, and comes nearer to the end. The library is initialized after
    /// it if it was before, or if it just answered so.
    proof fn accounts(
        &self,
        reply: Reply,
        r: Step<Self, Self::Output>,
        before: &Session,
        after: &Session,
    )
        requires
            self.ready(before),
            self.awaits(&reply),
            self.follows(reply, r, before, after),
        ensures
            accounted(self, reply, r, after),
            before.cached() is Some ==> after.cached() == before.cached(),
            after.cached() == before.cached() || self.initializes() && succeeded(reply),
            tree::no_init(after.tree()) == (tree::no_init(before.tree()) && !(self.initializes()
                && succeeded(reply))),
            r matches Step::Ask(next, _) ==> next.rank() < self.rank(),
    ;

    /// The awaited call answered.
    fn step(self, session: &mut Session, reply: Reply) -> (r: Step<Self, Self::Output>)
        requires
            old(session).wf(),
            self.ready(old(session)),
            self.awaits(&reply),
        ensures
            final(session).wf(),
            self.follows(reply, r, old(session), final(session)),
    ;
}

/// The answer is that the call succeeded.
pub open spec fn succeeded(reply: Reply) -> bool {
    reply == Reply::Status(URMA_SUCCESS)
}

/// The call may be made now: what it uses exists, because of the operation that
/// makes it or as a resource of the session. The library is never initialized
/// twice, and the end of an initialization is not up to an operation.
pub open spec fn may_make(c: Call, held: Set<Object>, session: &Session) -> bool {
    &&& c.uses().subset_of(held.union(tree::owned(session.tree())))
    &&& c is Init ==> session.cached() is None && tree::no_init(session.tree())
    &&& !(c is Uninit)
}

/// The state fits the call that was handed out with it: it waits for that
/// call's answer, gives back nothing but what it holds, and the call may be made
/// wherever the state is ready.
pub open spec fn fits<O: Request>(state: &O, c: Call) -> bool {
    &&& c.effect() == state.effect()
    &&& (c is Init) == state.initializes()
    &&& forall|reply: Reply| #[trigger] c.answered_by(&reply) ==> state.awaits(&reply)
    &&& c.effect() matches Effect::GiveBack(o) ==> state.held().contains(o)
    &&& forall|session: Session| #[trigger]
        state.ready(&session) ==> may_make(c, state.held(), &session)
}

/// A request starts with nothing.
pub open spec fn starts<O: Request>(r: Step<O, O::Output>) -> bool {
    match r {
        Step::Ask(state, c) => fits(&state, c) && state.held() == Set::<Object>::empty(),
        Step::Done(_) => true,
    }
}

/// Whatever exists after the answer is held by the operation as long as it
/// runs, and kept for its output when it succeeded. When it failed, nothing is
/// left.
pub open spec fn accounted<O: Request>(
    state: &O,
    reply: Reply,
    r: Step<O, O::Output>,
    after: &Session,
) -> bool {
    let objects = call::held_after(state.held(), state.effect(), reply);
    match r {
        Step::Ask(next, c) => fits(&next, c) && next.held() =~= objects && next.ready(after),
        Step::Done(Ok(output)) => O::kept(&output, after) =~= objects,
        Step::Done(Err(_)) => objects =~= Set::<Object>::empty(),
    }
}

/// The operation goes on: it waits for the answer to `c` in the state `next`. The
/// session stays as it is.
pub open spec fn asks<S, T>(
    r: Step<S, T>,
    next: S,
    c: Call,
    before: &Session,
    after: &Session,
) -> bool {
    r == Step::<S, T>::Ask(next, c) && *after == *before
}

/// The operation failed. The session stays as it is.
pub open spec fn fails<S, T>(
    r: Step<S, T>,
    e: ErrorView,
    before: &Session,
    after: &Session,
) -> bool {
    r matches Step::Done(Err(x)) && x@ == e && *after == *before
}

/// A new resource hangs below `parent` and on `context`; nothing else changed.
pub open spec fn adopts(
    id: usize,
    parent: usize,
    context: Option<usize>,
    resource: Resource,
    before: &Session,
    after: &Session,
) -> bool {
    &&& !before.tree().contains_key(id)
    &&& after.tree() == tree::adopted(before.tree(), id, parent, context, resource)
    &&& after.cached() == before.cached()
}

/// One call of a run, with its answer: where the operation and the session stood.
pub ghost struct Turn<O> {
    pub state: O,
    pub call: Call,
    pub reply: Reply,
    pub session: Session,
}

/// The objects that exist after the calls of a run, if none did before.
pub open spec fn objects_after<O>(run: Seq<Turn<O>>) -> Set<Object>
    decreases run.len(),
{
    if run.len() == 0 {
        Set::empty()
    } else {
        call::held_after(objects_after(run.drop_last()), run.last().call.effect(), run.last().reply)
    }
}

/// From `first` on, the run leads to `last`, and the session from `before` to
/// `after`.
pub open spec fn leads_to<O: Request>(
    first: Step<O, O::Output>,
    before: Session,
    run: Seq<Turn<O>>,
    last: Step<O, O::Output>,
    after: Session,
) -> bool
    decreases run.len(),
{
    if run.len() == 0 {
        last == first && after == before
    } else {
        let turn = run.last();
        &&& leads_to(
            first,
            before,
            run.drop_last(),
            Step::Ask(turn.state, turn.call),
            turn.session,
        )
        &&& turn.call.answered_by(&turn.reply)
        &&& turn.state.follows(turn.reply, last, &turn.session, &after)
    }
}

/// Where a run stands after its turn `i`.
pub open spec fn step_after<O: Request>(
    run: Seq<Turn<O>>,
    last: Step<O, O::Output>,
    i: int,
) -> Step<O, O::Output> {
    if i + 1 < run.len() {
        Step::Ask(run[i + 1].state, run[i + 1].call)
    } else {
        last
    }
}

/// The session after turn `i` of a run.
pub open spec fn session_after<O>(run: Seq<Turn<O>>, after: Session, i: int) -> Session {
    if i + 1 < run.len() {
        run[i + 1].session
    } else {
        after
    }
}

/// The answer of turn `i` fits its call, and what follows from it is where the run
/// goes on.
pub open spec fn goes_on<O: Request>(
    run: Seq<Turn<O>>,
    last: Step<O, O::Output>,
    after: Session,
    i: int,
) -> bool {
    &&& run[i].call.answered_by(&run[i].reply)
    &&& run[i].state.follows(
        run[i].reply,
        step_after(run, last, i),
        &run[i].session,
        &session_after(run, after, i),
    )
}

/// The `i`-th call that is handed out, whether it has been answered or not.
pub open spec fn asked<O: Request>(
    run: Seq<Turn<O>>,
    last: Step<O, O::Output>,
    i: int,
) -> Option<Call> {
    if 0 <= i < run.len() {
        Some(run[i].call)
    } else if i == run.len() {
        match last {
            Step::Ask(_, c) => Some(c),
            Step::Done(_) => None,
        }
    } else {
        None
    }
}

/// How a run starts.
pub proof fn lemma_start<O: Request>(
    first: Step<O, O::Output>,
    before: Session,
    run: Seq<Turn<O>>,
    last: Step<O, O::Output>,
    after: Session,
)
    requires
        leads_to(first, before, run, last, after),
    ensures
        run.len() == 0 ==> last == first && after == before,
        run.len() > 0 ==> first == Step::<O, O::Output>::Ask(run[0].state, run[0].call)
            && run[0].session == before,
    decreases run.len(),
{
    if run.len() > 0 {
        let turn = run.last();
        let earlier = run.drop_last();
        lemma_start(first, before, earlier, Step::Ask(turn.state, turn.call), turn.session);
        if earlier.len() > 0 {
            assert(earlier[0] == run[0]);
        }
    }
}

/// How a run goes on from its turn `i`.
pub proof fn lemma_turn<O: Request>(
    first: Step<O, O::Output>,
    before: Session,
    run: Seq<Turn<O>>,
    last: Step<O, O::Output>,
    after: Session,
    i: int,
)
    requires
        leads_to(first, before, run, last, after),
        0 <= i < run.len(),
    ensures
        goes_on(run, last, after, i),
    decreases run.len(),
{
    let turn = run.last();
    let earlier = run.drop_last();
    let asked = Step::<O, O::Output>::Ask(turn.state, turn.call);
    if i < earlier.len() {
        lemma_turn(first, before, earlier, asked, turn.session, i);
        assert(earlier[i] == run[i]);
        assert(step_after(earlier, asked, i) == step_after(run, last, i));
        assert(session_after(earlier, turn.session, i) == session_after(run, after, i));
    }
}

/// The first four turns of a run, as far as it has come.
pub proof fn lemma_turns<O: Request>(
    first: Step<O, O::Output>,
    before: Session,
    run: Seq<Turn<O>>,
    last: Step<O, O::Output>,
    after: Session,
)
    requires
        leads_to(first, before, run, last, after),
    ensures
        run.len() == 0 ==> last == first && after == before,
        run.len() > 0 ==> first == Step::<O, O::Output>::Ask(run[0].state, run[0].call)
            && run[0].session == before,
        run.len() > 0 ==> goes_on(run, last, after, 0),
        run.len() > 1 ==> goes_on(run, last, after, 1),
        run.len() > 2 ==> goes_on(run, last, after, 2),
        run.len() > 3 ==> goes_on(run, last, after, 3),
{
    lemma_start(first, before, run, last, after);
    if run.len() > 0 {
        lemma_turn(first, before, run, last, after, 0);
    }
    if run.len() > 1 {
        lemma_turn(first, before, run, last, after, 1);
    }
    if run.len() > 2 {
        lemma_turn(first, before, run, last, after, 2);
    }
    if run.len() > 3 {
        lemma_turn(first, before, run, last, after, 3);
    }
}

/// Whatever the library answers: the objects that exist because of an operation
/// are those that it holds while it runs, and those that are kept for its output
/// when it succeeded. When it failed, every object that it made has been given
/// back. It never gives back what does not exist.
pub proof fn law_nothing_leaks<O: Operation>(
    first: Step<O, O::Output>,
    before: Session,
    run: Seq<Turn<O>>,
    last: Step<O, O::Output>,
    after: Session,
)
    requires
        starts(first),
        first matches Step::Ask(state, _) && state.ready(&before),
        leads_to(first, before, run, last, after),
    ensures
        match last {
            Step::Ask(state, c) => {
                &&& objects_after(run) == state.held()
                &&& c.effect() matches Effect::GiveBack(o) ==> objects_after(run).contains(o)
                &&& state.ready(&after)
                &&& fits(&state, c)
            },
            Step::Done(Ok(output)) => objects_after(run) == O::kept(&output, &after),
            Step::Done(Err(_)) => objects_after(run) == Set::<Object>::empty(),
        },
    decreases run.len(),
{
    if run.len() > 0 {
        let turn = run.last();
        law_nothing_leaks(
            first,
            before,
            run.drop_last(),
            Step::Ask(turn.state, turn.call),
            turn.session,
        );
        turn.state.accounts(turn.reply, last, &turn.session, &after);
    }
}

/// Whatever the library answers: every call of an operation uses nothing but
/// objects that exist when it is made, because of the operation or as resources of
/// the session.
pub proof fn law_calls_use_what_exists<O: Operation>(
    first: Step<O, O::Output>,
    before: Session,
    run: Seq<Turn<O>>,
    last: Step<O, O::Output>,
    after: Session,
)
    requires
        starts(first),
        first matches Step::Ask(state, _) && state.ready(&before),
        leads_to(first, before, run, last, after),
    ensures
        forall|i: int|
            0 <= i < run.len() ==> may_make(
                (#[trigger] run[i]).call,
                objects_after(run.take(i)),
                &run[i].session,
            ),
        last matches Step::Ask(_, c) ==> may_make(c, objects_after(run), &after),
    decreases run.len(),
{
    law_nothing_leaks(first, before, run, last, after);
    if run.len() > 0 {
        let turn = run.last();
        let earlier = run.drop_last();
        law_calls_use_what_exists(
            first,
            before,
            earlier,
            Step::Ask(turn.state, turn.call),
            turn.session,
        );
        assert forall|i: int| 0 <= i < run.len() implies may_make(
            (#[trigger] run[i]).call,
            objects_after(run.take(i)),
            &run[i].session,
        ) by {
            if i < earlier.len() {
                assert(earlier[i] == run[i]);
                assert(earlier.take(i) =~= run.take(i));
            } else {
                assert(run.take(i) =~= earlier);
            }
        }
    }
}

/// Whatever the library answers: as long as the thread has an initialization, no
/// operation changes that, none asks for another, and none ends it.
pub proof fn law_initialization_is_kept<O: Operation>(
    first: Step<O, O::Output>,
    before: Session,
    run: Seq<Turn<O>>,
    last: Step<O, O::Output>,
    after: Session,
)
    requires
        starts(first),
        first matches Step::Ask(state, _) && state.ready(&before),
        leads_to(first, before, run, last, after),
        before.cached() is Some,
    ensures
        after.cached() == before.cached(),
        forall|i: int|
            0 <= i < run.len() ==> !((#[trigger] run[i]).call is Init) && !(run[i].call is Uninit),
        last matches Step::Ask(_, c) ==> !(c is Init) && !(c is Uninit),
    decreases run.len(),
{
    law_nothing_leaks(first, before, run, last, after);
    if run.len() > 0 {
        let turn = run.last();
        let earlier = run.drop_last();
        let asked = Step::<O, O::Output>::Ask(turn.state, turn.call);
        law_nothing_leaks(first, before, earlier, asked, turn.session);
        law_initialization_is_kept(first, before, earlier, asked, turn.session);
        turn.state.accounts(turn.reply, last, &turn.session, &after);
        assert forall|i: int| 0 <= i < run.len() implies !((#[trigger] run[i]).call is Init) && !(
        run[i].call is Uninit) by {
            if i < earlier.len() {
                assert(earlier[i] == run[i]);
            }
        }
    }
    if let Step::Ask(state, c) = last {
        assert(state.ready(&after));
    }
}

/// Whatever the library answers: every operation ends, after no more calls than
/// its rank allows.
pub proof fn law_operations_end<O: Operation>(
    first: Step<O, O::Output>,
    before: Session,
    run: Seq<Turn<O>>,
    last: Step<O, O::Output>,
    after: Session,
)
    requires
        starts(first),
        first matches Step::Ask(state, _) && state.ready(&before),
        leads_to(first, before, run, last, after),
    ensures
        first matches Step::Ask(state, _) && match last {
            Step::Ask(later, _) => run.len() + later.rank() <= state.rank(),
            Step::Done(_) => run.len() <= state.rank() + 1,
        },
    decreases run.len(),
{
    if run.len() > 0 {
        let turn = run.last();
        let asked = Step::<O, O::Output>::Ask(turn.state, turn.call);
        law_nothing_leaks(first, before, run.drop_last(), asked, turn.session);
        law_operations_end(first, before, run.drop_last(), asked, turn.session);
        turn.state.accounts(turn.reply, last, &turn.session, &after);
    }
}

} // verus!
