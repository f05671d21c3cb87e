//! What the host is asked for in the course of a request.

use vstd::prelude::*;
use crate::error::Failure;
use crate::migration::{send_began, served};
use crate::model::{advanced, after, applied, failed, fits, settled, Monitor, Waiting};
use crate::plan::{
    wrapped, Action, Expect, Outcome, Phase, Recovery, ReplyView, StepView, Wrap,
};
use crate::run::{course, lemma_step, plan_of, possible, ready_for, Request};
use crate::straight::{lemma_over, straight};

verus! {

/// The actions that the host has been asked for in the course of a request,
/// one after the other.
pub open spec fn asked(m: Monitor, request: Request, outcomes: Seq<Outcome>) -> Seq<Action>
    decreases outcomes.len(),
{
    let before = if outcomes.len() == 0 {
        Seq::empty()
    } else {
        asked(m, request, outcomes.drop_last())
    };
    match course(m, request, outcomes).1 {
        StepView::Perform(action) => before.push(action),
        StepView::Done(_) => before,
    }
}

/// Each outcome is that of the action at the same place. The last action that
/// was asked for has none yet, as long as the request is not over.
pub proof fn law_outcomes_and_actions(m: Monitor, request: Request, outcomes: Seq<Outcome>)
    requires
        possible(m, request, outcomes),
    ensures
        ({
            let actions = asked(m, request, outcomes);
            &&& forall|i: int|
                0 <= i < outcomes.len() ==> course(m, request, #[trigger] outcomes.take(i)).1
                    == StepView::Perform(actions[i])
            &&& match course(m, request, outcomes).1 {
                StepView::Perform(action) => actions.len() == outcomes.len() + 1
                    && actions.last() == action,
                StepView::Done(_) => actions.len() == outcomes.len(),
            }
        }),
    decreases outcomes.len(),
{
    if outcomes.len() > 0 {
        let before = outcomes.drop_last();
        lemma_step(m, request, outcomes);
        law_outcomes_and_actions(m, request, before);
        lemma_over(m, request, before);
        assert forall|i: int| 0 <= i < outcomes.len() implies course(
            m,
            request,
            #[trigger] outcomes.take(i),
        ).1 == StepView::Perform(asked(m, request, outcomes)[i]) by {
            if i + 1 == outcomes.len() {
                assert(outcomes.take(i) =~= before);
            } else {
                assert(outcomes.take(i) =~= before.take(i));
            }
        }
    }
}

/// What a plan asks for, and what a failure of each is reported as.
pub open spec fn orders(plan: Seq<Phase>) -> Seq<(Action, Wrap)>
    decreases plan.len(),
{
    if plan.len() == 0 {
        Seq::empty()
    } else {
        (match plan[0] {
            Phase::Ask(action, _, wrap) => seq![(action, wrap)],
            _ => Seq::empty(),
        }) + orders(plan.drop_first())
    }
}

/// Two plans ask for what each of them asks for.
pub proof fn lemma_orders_add(head: Seq<Phase>, tail: Seq<Phase>)
    ensures
        orders(head + tail) == orders(head) + orders(tail),
    decreases head.len(),
{
    if head.len() == 0 {
        assert(head + tail =~= tail);
    } else {
        assert((head + tail).drop_first() =~= head.drop_first() + tail);
        lemma_orders_add(head.drop_first(), tail);
    }
}

/// What a plan of one phase asks for.
pub proof fn lemma_orders_one(phase: Phase)
    ensures
        orders(seq![phase]) == (match phase {
            Phase::Ask(action, _, wrap) => seq![(action, wrap)],
            _ => Seq::empty(),
        }),
{
    assert(seq![phase].drop_first() =~= Seq::empty());
    assert(orders(seq![phase].drop_first()) =~= Seq::empty());
}

/// What a plan that begins with some phase asks for.
pub proof fn lemma_orders_first(phase: Phase, rest: Seq<Phase>)
    ensures
        orders(seq![phase] + rest) == (match phase {
            Phase::Ask(action, _, wrap) => seq![(action, wrap)],
            _ => Seq::empty(),
        }) + orders(rest),
{
    lemma_orders_one(phase);
    lemma_orders_add(seq![phase], rest);
}

/// A request that has failed stays so.
pub proof fn lemma_settled_pending(m: Monitor)
    requires
        m.pending is Some,
    ensures
        match settled(m).1 {
            StepView::Perform(_) => settled(m).0.pending is Some,
            StepView::Done(result) => result is Err,
        },
    decreases m.plan.len(),
{
    if m.plan.len() > 0 {
        let rest = Monitor { plan: m.plan.drop_first(), ..m };
        match m.plan[0] {
            Phase::Ask(_, _, _) => {},
            Phase::Apply(change) => lemma_settled_pending(applied(rest, change)),
            Phase::Fail(failure) => lemma_settled_pending(failed(rest, failure)),
        }
    }
}

/// A monitor that has not failed asks for the first that its plan asks for,
/// with the rest still to come, and ends only where there is nothing left to
/// ask for.
#[verifier::rlimit(30)]
pub proof fn lemma_settled_orders(m: Monitor)
    requires
        m.pending is None,
    ensures
        ({
            let at = settled(m);
            match at.1 {
                StepView::Perform(action) => at.0.pending is None ==> (at.0.waiting matches Some(
                    waiting,
                ) && orders(m.plan) == seq![(action, waiting.wrap)] + orders(at.0.plan)),
                StepView::Done(result) => result is Ok ==> orders(m.plan).len() == 0,
            }
        }),
    decreases m.plan.len(),
{
    if m.plan.len() > 0 {
        let rest = Monitor { plan: m.plan.drop_first(), ..m };
        match m.plan[0] {
            Phase::Ask(_, _, _) => {},
            Phase::Apply(change) => {
                lemma_settled_orders(applied(rest, change));
                assert(orders(m.plan) =~= orders(rest.plan));
            },
            Phase::Fail(failure) => lemma_settled_pending(failed(rest, failure)),
        }
    }
}

/// A straight plan is followed to the next thing that is asked for, or to its
/// end.
proof fn lemma_settled_straight(m: Monitor)
    requires
        straight(m.plan),
        m.pending is None,
        m.recovery == Recovery::Nothing,
    ensures
        ({
            let at = settled(m);
            match at.1 {
                StepView::Perform(_) => at.0.pending is None && at.0.recovery == Recovery::Nothing
                    && straight(at.0.plan) && (at.0.waiting matches Some(waiting)
                    && waiting.expect is Done),
                StepView::Done(result) => result is Ok,
            }
        }),
    decreases m.plan.len(),
{
    if m.plan.len() > 0 {
        let rest = Monitor { plan: m.plan.drop_first(), ..m };
        assert(straight(rest.plan)) by {
            assert forall|i: int| 0 <= i < rest.plan.len() implies match #[trigger] rest.plan[i] {
                Phase::Ask(_, expect, _) => expect is Done,
                Phase::Apply(change) => !(change is OnFailure),
                Phase::Fail(_) => false,
            } by {
                assert(rest.plan[i] == m.plan[i + 1]);
            }
        }
        assert(match m.plan[0] {
            Phase::Ask(_, expect, _) => expect is Done,
            Phase::Apply(change) => !(change is OnFailure),
            Phase::Fail(_) => false,
        });
        match m.plan[0] {
            Phase::Apply(change) => lemma_settled_straight(applied(rest, change)),
            _ => {},
        }
    }
}

/// The rest of a sequence without its first.
proof fn lemma_skip_one<T>(all: Seq<T>, n: int, first: T, rest: Seq<T>)
    requires
        0 <= n <= all.len(),
        all.skip(n) == seq![first] + rest,
    ensures
        n < all.len(),
        all[n] == first,
        rest == all.skip(n + 1),
{
    assert(all.skip(n).len() == 1 + rest.len());
    assert(all.skip(n)[0] == first);
    assert forall|i: int| 0 <= i < rest.len() implies rest[i] == all.skip(n + 1)[i] by {
        assert(all.skip(n)[i + 1] == rest[i]);
    }
    assert(rest =~= all.skip(n + 1));
}

/// One step of a straight plan.
#[verifier::rlimit(30)]
proof fn lemma_straight_step(before: Monitor, outcome: Outcome, wrap: Wrap)
    requires
        before.waiting == Some(Waiting { expect: Expect::Done, wrap }),
        before.pending is None,
        before.recovery == Recovery::Nothing,
        straight(before.plan),
    ensures
        ({
            let at = advanced(before, outcome);
            match outcome {
                Outcome::Failed(fault) if wrap != Wrap::Ignore => at.1 == StepView::Done(
                    Err(wrapped(wrap, fault)),
                ),
                _ => match at.1 {
                    StepView::Perform(action) => {
                        &&& at.0.pending is None
                        &&& at.0.recovery == Recovery::Nothing
                        &&& straight(at.0.plan)
                        &&& at.0.waiting matches Some(waiting)
                        &&& waiting.expect is Done
                        &&& orders(before.plan) == seq![(action, waiting.wrap)] + orders(at.0.plan)
                    },
                    StepView::Done(result) => result is Ok && orders(before.plan).len() == 0,
                },
            }
        }),
{
    let rest = Monitor { waiting: None, ..before };
    match outcome {
        Outcome::Failed(fault) if wrap != Wrap::Ignore => {
            let end = failed(rest, wrapped(wrap, fault));
            assert(end.plan.len() == 0);
        },
        _ => {
            assert(after(rest, Expect::Done, outcome) == rest);
            lemma_settled_straight(rest);
            lemma_settled_orders(rest);
        },
    }
}

/// Whether a request has come to where a straight plan that asks for `all`
/// brings it: it has asked for the first of these, each once, and all of them
/// succeeded but the last, where it has failed.
#[verifier::opaque]
pub open spec fn followed(
    all: Seq<(Action, Wrap)>,
    at: (Monitor, StepView),
    outcomes: Seq<Outcome>,
    actions: Seq<Action>,
) -> bool {
    let n = actions.len();
    &&& n <= all.len()
    &&& forall|i: int| 0 <= i < n ==> #[trigger] actions[i] == all[i].0
    &&& forall|i: int|
        0 <= i < outcomes.len() && !(at.1 matches StepView::Done(Err(_)) && i + 1
            == outcomes.len()) ==> (#[trigger] outcomes[i] == Outcome::Done || all[i].1
            == Wrap::Ignore)
    &&& match at.1 {
        StepView::Perform(action) => {
            &&& n == outcomes.len() + 1
            &&& actions.last() == action
            &&& at.0.waiting == Some(Waiting { expect: Expect::Done, wrap: all[n - 1].1 })
            &&& at.0.pending is None
            &&& at.0.recovery == Recovery::Nothing
            &&& straight(at.0.plan)
            &&& orders(at.0.plan) == all.skip(n as int)
        },
        StepView::Done(Ok(_)) => n == all.len() && n == outcomes.len(),
        StepView::Done(Err(e)) => {
            &&& n > 0
            &&& n == outcomes.len()
            &&& outcomes.last() matches Outcome::Failed(fault)
            &&& e == wrapped(all[n - 1].1, fault)
            &&& all[n - 1].1 != Wrap::Ignore
        },
    }
}

/// The beginning of a straight plan.
proof fn lemma_followed_start(start: Monitor)
    requires
        straight(start.plan),
        start.pending is None,
        start.recovery == Recovery::Nothing,
    ensures
        followed(
            orders(start.plan),
            settled(start),
            Seq::empty(),
            match settled(start).1 {
                StepView::Perform(action) => seq![action],
                _ => Seq::empty(),
            },
        ),
{
    reveal(followed);
    let all = orders(start.plan);
    let at = settled(start);
    lemma_settled_straight(start);
    lemma_settled_orders(start);
    assert(all.skip(0) =~= all);
    if let StepView::Perform(action) = at.1 {
        lemma_skip_one(all, 0, (action, at.0.waiting->0.wrap), orders(at.0.plan));
    }
}

/// A straight plan, one outcome further.
#[verifier::rlimit(30)]
proof fn lemma_followed_step(
    all: Seq<(Action, Wrap)>,
    before: (Monitor, StepView),
    so_far: Seq<Outcome>,
    actions: Seq<Action>,
    outcome: Outcome,
    at: (Monitor, StepView),
)
    requires
        followed(all, before, so_far, actions),
        before.1 is Perform,
        fits(before.0, outcome),
        at == advanced(before.0, outcome),
    ensures
        followed(
            all,
            at,
            so_far.push(outcome),
            match at.1 {
                StepView::Perform(action) => actions.push(action),
                _ => actions,
            },
        ),
{
    reveal(followed);
    let n = actions.len();
    let wrap = all[n - 1].1;
    lemma_straight_step(before.0, outcome, wrap);
    if let StepView::Perform(action) = at.1 {
        lemma_skip_one(all, n as int, (action, at.0.waiting->0.wrap), orders(at.0.plan));
    }
}

/// A request whose plan is straight asks for what its plan asks for, in that
/// order and each once, up to the first failure that counts. It succeeds where
/// it has asked for all of it. Where it fails, it was the last that failed.
#[verifier::rlimit(30)]
pub proof fn lemma_straight_asked(
    m: Monitor,
    request: Request,
    outcomes: Seq<Outcome>,
    plan: Seq<Phase>,
)
    requires
        plan == plan_of(m, request),
        straight(plan),
        possible(m, request, outcomes),
    ensures
        followed(
            orders(plan),
            course(m, request, outcomes),
            outcomes,
            asked(m, request, outcomes),
        ),
    decreases outcomes.len(),
{
    let at = course(m, request, outcomes);
    if outcomes.len() == 0 {
        reveal(course);
        reveal(possible);
        lemma_followed_start(Monitor { plan, ..ready_for(m, request) });
        assert(outcomes =~= Seq::empty());
        assert(asked(m, request, outcomes) =~= match at.1 {
            StepView::Perform(action) => seq![action],
            _ => Seq::empty(),
        });
    } else {
        let so_far = outcomes.drop_last();
        lemma_step(m, request, outcomes);
        lemma_straight_asked(m, request, so_far, plan);
        lemma_over(m, request, so_far);
        lemma_followed_step(
            orders(plan),
            course(m, request, so_far),
            so_far,
            asked(m, request, so_far),
            outcomes.last(),
            at,
        );
        assert(outcomes =~= so_far.push(outcomes.last()));
    }
}

/// What is done with the outcome of an action: mostly nothing, since its
/// success alone counts.
pub open spec fn expect_of(action: Action) -> Expect {
    match action {
        Action::MaxApicId(_) => Expect::ApicId,
        Action::ReadRequest => Expect::Request,
        Action::ReceiveFile => Expect::MemoryFile,
        Action::DecodeConfig => Expect::MigratedConfig,
        _ => Expect::Done,
    }
}

/// Whether a plan does with the outcome of each action what is done with it,
/// and passes over no failure.
pub open spec fn firm(plan: Seq<Phase>) -> bool {
    forall|i: int| 0 <= i < plan.len() ==> (#[trigger] plan[i] matches Phase::Ask(
        action,
        expect,
        wrap,
    ) ==> expect == expect_of(action) && wrap != Wrap::Ignore)
}

/// Two firm plans, one after the other.
pub proof fn lemma_firm_join(head: Seq<Phase>, tail: Seq<Phase>)
    requires
        firm(head),
        firm(tail),
    ensures
        firm(head + tail),
{
    assert forall|i: int| 0 <= i < (head + tail).len() implies (
    #[trigger] (head + tail)[i] matches Phase::Ask(action, expect, wrap) ==> expect == expect_of(
        action,
    ) && wrap != Wrap::Ignore) by {
        if i < head.len() {
            assert((head + tail)[i] == head[i]);
        } else {
            assert((head + tail)[i] == tail[i - head.len()]);
        }
    }
}

/// Whether the monitor has asked for the first `n` of what a firm plan asks
/// for in all, with nothing failed.
#[verifier::opaque]
pub open spec fn on_course(all: Seq<(Action, Wrap)>, at: (Monitor, StepView), n: int) -> bool {
    &&& 0 < n <= all.len()
    &&& at.1 == StepView::Perform(all[n - 1].0)
    &&& at.0.waiting == Some(
        Waiting { expect: expect_of(all[n - 1].0), wrap: all[n - 1].1 },
    )
    &&& at.0.pending is None
    &&& firm(at.0.plan)
    &&& all[n - 1].1 != Wrap::Ignore
    &&& orders(at.0.plan) == all.skip(n)
}

/// What can be said of a monitor that goes on with a firm plan, once it has
/// asked for `n` of what that asks for: something has failed, or it has asked
/// for no more than that, and it has not ended well before it has asked for
/// all of it.
pub open spec fn stays_on_track(all: Seq<(Action, Wrap)>, at: (Monitor, StepView), n: int) -> bool {
    match at.1 {
        StepView::Perform(_) => at.0.pending is Some || on_course(all, at, n),
        StepView::Done(Ok(_)) => n == all.len() + 1,
        StepView::Done(Err(_)) => true,
    }
}

/// A firm plan is followed to the next thing that is asked for, or to its end.
proof fn lemma_settled_firm(m: Monitor)
    requires
        firm(m.plan),
        m.pending is None,
    ensures
        settled(m).1 is Perform && settled(m).0.pending is None ==> firm(settled(m).0.plan) && (
        settled(m).0.waiting matches Some(waiting) && waiting.expect == expect_of(
            settled(m).1->Perform_0,
        ) && waiting.wrap != Wrap::Ignore),
    decreases m.plan.len(),
{
    if m.plan.len() > 0 {
        let rest = Monitor { plan: m.plan.drop_first(), ..m };
        assert(firm(rest.plan)) by {
            assert forall|i: int| 0 <= i < rest.plan.len() implies (
            #[trigger] rest.plan[i] matches Phase::Ask(action, expect, wrap) ==> expect
                == expect_of(action) && wrap != Wrap::Ignore) by {
                assert(rest.plan[i] == m.plan[i + 1]);
            }
        }
        match m.plan[0] {
            Phase::Ask(_, _, _) => {},
            Phase::Apply(change) => lemma_settled_firm(applied(rest, change)),
            Phase::Fail(failure) => lemma_settled_pending(failed(rest, failure)),
        }
    }
}

/// The beginning of a firm plan.
pub proof fn lemma_on_course_start(m: Monitor)
    requires
        firm(m.plan),
        m.pending is None,
    ensures
        stays_on_track(orders(m.plan), settled(m), 1),
{
    reveal(on_course);
    let all = orders(m.plan);
    let at = settled(m);
    lemma_settled_firm(m);
    lemma_settled_orders(m);
    assert(all.skip(0) =~= all);
    if at.1 is Perform && at.0.pending is None {
        lemma_skip_one(
            all,
            0,
            (at.1->Perform_0, at.0.waiting->0.wrap),
            orders(at.0.plan),
        );
    }
}

/// A firm plan, one outcome further.
pub proof fn lemma_on_course_step(
    all: Seq<(Action, Wrap)>,
    before: (Monitor, StepView),
    n: int,
    outcome: Outcome,
)
    requires
        on_course(all, before, n),
        expect_of(all[n - 1].0) is Done,
        fits(before.0, outcome),
    ensures
        stays_on_track(all, advanced(before.0, outcome), n + 1),
        outcome is Failed ==> match advanced(before.0, outcome).1 {
            StepView::Perform(_) => advanced(before.0, outcome).0.pending is Some,
            StepView::Done(result) => result is Err,
        },
        outcome is Failed || outcome == Outcome::Done,
{
    reveal(on_course);
    let wrap = all[n - 1].1;
    let rest = Monitor { waiting: None, ..before.0 };
    let at = advanced(before.0, outcome);
    match outcome {
        Outcome::Failed(fault) => lemma_settled_pending(failed(rest, wrapped(wrap, fault))),
        _ => {
            assert(after(rest, Expect::Done, outcome) == rest);
            lemma_settled_firm(rest);
            lemma_settled_orders(rest);
            if at.1 is Perform && at.0.pending is None {
                lemma_skip_one(
                    all,
                    n,
                    (at.1->Perform_0, at.0.waiting->0.wrap),
                    orders(at.0.plan),
                );
            } else if at.1 matches StepView::Done(Ok(_)) {
                assert(all.skip(n).len() == 0);
            }
        },
    }
}

/// An outcome that is no failure does not make up for one.
proof fn lemma_after_failure(rest: Monitor, expect: Expect, outcome: Outcome)
    requires
        rest.pending is Some,
    ensures
        after(rest, expect, outcome).pending is Some,
{
    reveal(send_began);
    reveal(served);
}

/// A failure that has come is not forgotten.
pub proof fn lemma_failure_stays(before: Monitor, outcome: Outcome)
    requires
        before.pending is Some,
    ensures
        match advanced(before, outcome).1 {
            StepView::Perform(_) => advanced(before, outcome).0.pending is Some,
            StepView::Done(result) => result is Err,
        },
{
    let rest = Monitor { waiting: None, ..before };
    match outcome {
        Outcome::Failed(fault) => {
            lemma_settled_pending(rest);
            lemma_settled_pending(failed(rest, wrapped(before.waiting->0.wrap, fault)));
        },
        _ => {
            lemma_after_failure(rest, before.waiting->0.expect, outcome);
            lemma_settled_pending(after(rest, before.waiting->0.expect, outcome));
        },
    }
}

/// Whether a plan fails by itself somewhere.
pub open spec fn hopeless(plan: Seq<Phase>) -> bool {
    exists|i: int| 0 <= i < plan.len() && #[trigger] plan[i] is Fail
}

/// A plan that fails by itself does not end well.
#[verifier::rlimit(30)]
pub proof fn lemma_hopeless(m: Monitor)
    requires
        hopeless(m.plan),
        m.pending is None,
    ensures
        match settled(m).1 {
            StepView::Perform(_) => settled(m).0.pending is Some || hopeless(settled(m).0.plan),
            StepView::Done(result) => result is Err,
        },
    decreases m.plan.len(),
{
    let i = choose|i: int| 0 <= i < m.plan.len() && #[trigger] m.plan[i] is Fail;
    let rest = Monitor { plan: m.plan.drop_first(), ..m };
    if i > 0 {
        assert(rest.plan[i - 1] is Fail);
    }
    match m.plan[0] {
        Phase::Ask(_, _, _) => {},
        Phase::Apply(change) => lemma_hopeless(applied(rest, change)),
        Phase::Fail(failure) => lemma_settled_pending(failed(rest, failure)),
    }
}

/// A request that has failed, and whose rest does not fail by itself, keeps its
/// failure.
proof fn lemma_settled_with(m: Monitor, failure: Failure)
    requires
        m.pending == Some(failure),
        !hopeless(m.plan),
    ensures
        match settled(m).1 {
            StepView::Perform(_) => settled(m).0.pending == Some(failure),
            StepView::Done(result) => result == Err::<ReplyView, Failure>(failure),
        },
    decreases m.plan.len(),
{
    if m.plan.len() > 0 {
        let rest = Monitor { plan: m.plan.drop_first(), ..m };
        assert(!hopeless(rest.plan)) by {
            if hopeless(rest.plan) {
                let i = choose|i: int| 0 <= i < rest.plan.len() && #[trigger] rest.plan[i] is Fail;
                assert(m.plan[i + 1] is Fail);
            }
        }
        assert(!(m.plan[0] is Fail));
        match m.plan[0] {
            Phase::Apply(change) => lemma_settled_with(applied(rest, change), failure),
            _ => {},
        }
    }
}

/// The first failure of a request is what it reports, or what is still to be
/// reported while something is put in order.
pub proof fn lemma_first_failure(before: Monitor, fault: String)
    requires
        before.pending is None,
        before.waiting matches Some(waiting) && waiting.wrap != Wrap::Ignore,
    ensures
        ({
            let at = advanced(before, Outcome::Failed(fault));
            let failure = wrapped(before.waiting->0.wrap, fault);
            match at.1 {
                StepView::Perform(_) => at.0.pending == Some(failure),
                StepView::Done(result) => result == Err::<ReplyView, Failure>(failure),
            }
        }),
{
    let rest = Monitor { waiting: None, ..before };
    let failure = wrapped(before.waiting->0.wrap, fault);
    let end = failed(rest, failure);
    assert forall|i: int| 0 <= i < end.plan.len() implies !(#[trigger] end.plan[i] is Fail) by {}
    lemma_settled_with(end, failure);
}

} // verus!
