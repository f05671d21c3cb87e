//! Requests without forks: what holds of every request that makes its changes
//! and asks its questions in one straight line.

use vstd::prelude::*;
use crate::faults::law_end_leaves_no_request;
use crate::model::{applied, begun, failed, settled, Monitor, Waiting};
use crate::plan::{wrapped, Change, Notice, Outcome, Phase, Recovery, StepView, Wrap};
use crate::run::{can_come, continued, course, plan_of, possible, ready_for, Request};

verus! {

/// Whether a plan only makes changes, and asks for things whose success alone
/// counts.
pub open spec fn straight(plan: Seq<Phase>) -> bool {
    forall|i: int| 0 <= i < plan.len() ==> match #[trigger] plan[i] {
        Phase::Ask(_, expect, _) => expect is Done,
        Phase::Apply(change) => !(change is OnFailure),
        Phase::Fail(_) => false,
    }
}

/// The monitor after the changes among the first `k` phases of a plan.
#[verifier::opaque]
pub open spec fn changed(m: Monitor, plan: Seq<Phase>, k: int) -> Monitor
    decreases k,
{
    if k <= 0 {
        m
    } else {
        match plan[k - 1] {
            Phase::Apply(change) => applied(changed(m, plan, k - 1), change),
            _ => changed(m, plan, k - 1),
        }
    }
}

/// Whether the monitor has come to phase `k` of a straight plan, whose last
/// phase was asked for.
pub open spec fn come_to(
    m: Monitor,
    plan: Seq<Phase>,
    k: int,
    at: (Monitor, StepView),
) -> bool {
    &&& 0 < k <= plan.len()
    &&& plan[k - 1] matches Phase::Ask(action, expect, wrap)
    &&& at.1 == StepView::Perform(action)
    &&& at.0 == Monitor {
        plan: plan.skip(k),
        waiting: Some(Waiting { expect, wrap }),
        ..changed(m, plan, k)
    }
}

/// Whether the monitor has failed at phase `k` of a straight plan.
pub open spec fn failed_at(
    m: Monitor,
    plan: Seq<Phase>,
    k: int,
    at: (Monitor, StepView),
) -> bool {
    &&& 0 < k <= plan.len()
    &&& plan[k - 1] matches Phase::Ask(_, _, wrap)
    &&& wrap != Wrap::Ignore
    &&& exists|fault: String| at.1 == StepView::Done(Err(#[trigger] wrapped(wrap, fault)))
    &&& at.0 == changed(m, plan, k).at_rest()
}

/// Whether the monitor is somewhere in a straight plan: it awaits an outcome,
/// it has done all that was planned, or it has failed on the way.
pub open spec fn somewhere(m: Monitor, plan: Seq<Phase>, at: (Monitor, StepView)) -> bool {
    match at.1 {
        StepView::Perform(_) => exists|k: int| come_to(m, plan, k, at),
        StepView::Done(Ok(reply)) => at.0 == changed(m, plan, plan.len() as int).at_rest() && reply
            == changed(m, plan, plan.len() as int).reply,
        StepView::Done(Err(_)) => exists|k: int| failed_at(m, plan, k, at),
    }
}

/// Changes that are not about failures leave what a request awaits.
proof fn lemma_changed_keeps(m: Monitor, plan: Seq<Phase>, k: int)
    requires
        straight(plan),
        k <= plan.len(),
    ensures
        changed(m, plan, k).plan == m.plan,
        changed(m, plan, k).waiting == m.waiting,
        changed(m, plan, k).pending == m.pending,
        changed(m, plan, k).recovery == m.recovery,
    decreases k,
{
    reveal_with_fuel(changed, 1);
    if k > 0 {
        lemma_changed_keeps(m, plan, k - 1);
        assert(match plan[k - 1] {
            Phase::Ask(_, expect, _) => expect is Done,
            Phase::Apply(change) => !(change is OnFailure),
            Phase::Fail(_) => false,
        });
    }
}

/// Before its first phase a plan has changed nothing.
pub proof fn lemma_changed_none(m: Monitor, plan: Seq<Phase>)
    ensures
        changed(m, plan, 0) == m,
{
    reveal_with_fuel(changed, 1);
}

/// A change acts on the monitor whatever its plan.
pub proof fn lemma_applied_any_plan(m: Monitor, plan: Seq<Phase>, change: Change)
    ensures
        applied(Monitor { plan, ..m }, change) == (Monitor { plan, ..applied(m, change) }),
{
}

/// A monitor that has come to phase `k` goes on from there.
proof fn lemma_settled_from(m: Monitor, plan: Seq<Phase>, k: int)
    requires
        straight(plan),
        0 <= k <= plan.len(),
        m.pending is None,
        m.recovery == Recovery::Nothing,
        m.waiting is None,
    ensures
        somewhere(
            m,
            plan,
            settled(Monitor { plan: plan.skip(k), ..changed(m, plan, k) }),
        ),
    decreases plan.len() - k,
{
    reveal_with_fuel(changed, 1);
    let now = Monitor { plan: plan.skip(k), ..changed(m, plan, k) };
    lemma_changed_keeps(m, plan, k);
    if k < plan.len() {
        assert(now.plan[0] == plan[k]);
        assert(now.plan.drop_first() =~= plan.skip(k + 1));
        assert(match plan[k] {
            Phase::Ask(_, expect, _) => expect is Done,
            Phase::Apply(change) => !(change is OnFailure),
            Phase::Fail(_) => false,
        });
        match plan[k] {
            Phase::Ask(_, _, _) => {
                assert(changed(m, plan, k + 1) == changed(m, plan, k));
                assert(come_to(m, plan, k + 1, settled(now)));
            },
            Phase::Apply(change) => {
                lemma_applied_any_plan(changed(m, plan, k), plan.skip(k + 1), change);
                lemma_settled_from(m, plan, k + 1);
            },
            Phase::Fail(_) => {},
        }
    } else {
        assert(now.at_rest() == changed(m, plan, k).at_rest());
    }
}

/// A request whose plan is straight makes its changes in their order, up to
/// the first failure, and nothing else. Where all succeeds, it makes them all.
pub proof fn law_straight_requests(m: Monitor, plan: Seq<Phase>, outcomes: Seq<Outcome>)
    requires
        straight(plan),
        m.pending is None,
        m.recovery == Recovery::Nothing,
        m.waiting is None,
        can_come(begun(m, plan), outcomes),
    ensures
        somewhere(m, plan, continued(begun(m, plan), outcomes)),
    decreases outcomes.len(),
{
    if outcomes.len() == 0 {
        assert(plan.skip(0) =~= plan);
        lemma_changed_none(m, plan);
        lemma_settled_from(m, plan, 0);
    } else {
        law_straight_requests(m, plan, outcomes.drop_last());
        let before = continued(begun(m, plan), outcomes.drop_last());
        let outcome = outcomes.last();
        lemma_done_awaits_nothing(m, plan, outcomes.drop_last());
        let k = choose|k: int| come_to(m, plan, k, before);
        lemma_changed_keeps(m, plan, k);
        let rest = Monitor { waiting: None, ..before.0 };
        assert(rest == Monitor { plan: plan.skip(k), ..changed(m, plan, k) });
        match plan[k - 1] {
            Phase::Ask(_, expect, wrap) => {
                assert(expect is Done);
                match outcome {
                    Outcome::Failed(fault) => {
                        if wrap == Wrap::Ignore {
                            lemma_settled_from(m, plan, k);
                        } else {
                            let end = failed(rest, wrapped(wrap, fault));
                            assert(end.at_rest() == changed(m, plan, k).at_rest());
                            assert(failed_at(m, plan, k, settled(end)));
                        }
                    },
                    _ => lemma_settled_from(m, plan, k),
                }
            },
            _ => {},
        }
    }
}

/// Where a request is over, nothing fits any more.
proof fn lemma_done_awaits_nothing(m: Monitor, plan: Seq<Phase>, outcomes: Seq<Outcome>)
    requires
        straight(plan),
        m.pending is None,
        m.recovery == Recovery::Nothing,
        m.waiting is None,
        somewhere(m, plan, continued(begun(m, plan), outcomes)),
    ensures
        continued(begun(m, plan), outcomes).1 is Done ==> continued(
            begun(m, plan),
            outcomes,
        ).0.waiting is None,
{
}

/// Where a request whose plan is straight has come to: how many of its phases
/// it has been through, and what the monitor is then.
pub proof fn lemma_place(m: Monitor, request: Request, outcomes: Seq<Outcome>) -> (k: int)
    requires
        straight(plan_of(m, request)),
        ready_for(m, request) == m,
        possible(m, request, outcomes),
    ensures
        0 <= k <= plan_of(m, request).len(),
        course(m, request, outcomes).1 matches StepView::Done(Ok(_)) ==> k == plan_of(
            m,
            request,
        ).len(),
        !(course(m, request, outcomes).1 matches StepView::Done(Ok(_))) ==> k > 0 && plan_of(
            m,
            request,
        )[k - 1] is Ask,
        same_stock(course(m, request, outcomes).0, changed(m, plan_of(m, request), k)),
        course(m, request, outcomes).1 matches StepView::Perform(action) ==> plan_of(
            m,
            request,
        )[k - 1]->Ask_0 == action,
        course(m, request, outcomes).1 matches StepView::Done(Ok(reply)) ==> reply == changed(
            m,
            plan_of(m, request),
            k,
        ).reply,
        m.idle(),
{
    reveal(course);
    reveal(possible);
    let plan = plan_of(m, request);
    let at = course(m, request, outcomes);
    law_straight_requests(m, plan, outcomes);
    match at.1 {
        StepView::Perform(_) => choose|k: int| come_to(m, plan, k, at),
        StepView::Done(Ok(_)) => plan.len() as int,
        StepView::Done(Err(_)) => choose|k: int| failed_at(m, plan, k, at),
    }
}

/// Whether two monitors are the same but for the request in progress.
pub open spec fn same_stock(a: Monitor, b: Monitor) -> bool {
    a.at_rest() == b.at_rest()
}

/// What none of the changes of some phases touches stays as it is.
pub proof fn lemma_untouched<T>(m: Monitor, plan: Seq<Phase>, j: int, k: int, part: spec_fn(Monitor) -> T)
    requires
        0 <= j <= k <= plan.len(),
        forall|i: int|
            j <= i < k ==> (#[trigger] plan[i] matches Phase::Apply(change) ==> forall|x: Monitor|
                part(#[trigger] applied(x, change)) == part(x)),
    ensures
        part(changed(m, plan, k)) == part(changed(m, plan, j)),
    decreases k,
{
    reveal_with_fuel(changed, 1);
    if j < k {
        lemma_untouched(m, plan, j, k - 1, part);
        assert(plan[k - 1] matches Phase::Apply(change) ==> forall|x: Monitor|
            part(#[trigger] applied(x, change)) == part(x));
    }
}

/// The changes of two plans, one after the other.
pub proof fn lemma_changed_chain(m: Monitor, head: Seq<Phase>, tail: Seq<Phase>, k: int)
    requires
        0 <= k <= tail.len(),
    ensures
        changed(m, head + tail, head.len() + k) == changed(
            changed(m, head, head.len() as int),
            tail,
            k,
        ),
    decreases k,
{
    reveal_with_fuel(changed, 1);
    if k == 0 {
        lemma_changed_prefix(m, head, head + tail, head.len() as int);
    } else {
        lemma_changed_chain(m, head, tail, k - 1);
        assert((head + tail)[head.len() + k - 1] == tail[k - 1]);
    }
}

/// The changes of a plan's beginning.
pub proof fn lemma_changed_prefix(m: Monitor, head: Seq<Phase>, plan: Seq<Phase>, k: int)
    requires
        0 <= k <= head.len() <= plan.len(),
        forall|i: int| 0 <= i < head.len() ==> head[i] == plan[i],
    ensures
        changed(m, plan, k) == changed(m, head, k),
    decreases k,
{
    reveal_with_fuel(changed, 1);
    if k > 0 {
        lemma_changed_prefix(m, head, plan, k - 1);
    }
}

/// A phase that leaves the configuration, and whatever is announced.
pub open spec fn quiet(phase: Phase) -> bool {
    match phase {
        Phase::Ask(_, expect, _) => expect is Done,
        Phase::Apply(change) => change is ConsoleReady || change is DrainConsole
            || change is InstallVm || change is RetireVm || change is ReinstallVm,
        Phase::Fail(_) => false,
    }
}

/// Phases that are all quiet.
pub open spec fn all_quiet(plan: Seq<Phase>) -> bool {
    forall|i: int| 0 <= i < plan.len() ==> quiet(#[trigger] plan[i])
}

/// Two plans of quiet phases, one after the other.
pub proof fn lemma_quiet_chain(head: Seq<Phase>, tail: Seq<Phase>)
    requires
        all_quiet(head),
        all_quiet(tail),
    ensures
        all_quiet(head + tail),
{
    assert forall|i: int| 0 <= i < (head + tail).len() implies quiet(#[trigger] (head + tail)[i]) by {
        if i < head.len() {
            assert(quiet(head[i]));
        } else {
            assert(quiet(tail[i - head.len()]));
        }
    }
}

/// A plan that announces two things, before and after some quiet phases.
pub proof fn lemma_announced(m: Monitor, opening: Notice, middle: Seq<Phase>, closing: Notice, k: int)
    requires
        all_quiet(middle),
        0 <= k <= middle.len() + 2,
    ensures
        ({
            let plan = seq![Phase::Apply(Change::Note(opening))] + middle + seq![
                Phase::Apply(Change::Note(closing)),
            ];
            &&& straight(plan)
            &&& changed(m, plan, k).vm_config == m.vm_config
            &&& 1 <= k <= middle.len() + 1 ==> changed(m, plan, k).notices == m.notices.push(
                opening,
            ) && changed(m, plan, k) == changed(
                Monitor { notices: m.notices.push(opening), ..m },
                middle,
                k - 1,
            )
            &&& k == middle.len() + 2 ==> changed(m, plan, k) == (Monitor {
                notices: m.notices.push(opening).push(closing),
                ..changed(
                    Monitor { notices: m.notices.push(opening), ..m },
                    middle,
                    middle.len() as int,
                )
            })
        }),
{
    reveal_with_fuel(changed, 2);
    let first = seq![Phase::Apply(Change::Note(opening))];
    let last = seq![Phase::Apply(Change::Note(closing))];
    let plan = first + middle + last;
    let opened = Monitor { notices: m.notices.push(opening), ..m };
    assert(changed(m, first, 1) == opened);
    assert forall|i: int| 0 <= i < plan.len() implies match #[trigger] plan[i] {
        Phase::Ask(_, expect, _) => expect is Done,
        Phase::Apply(change) => !(change is OnFailure),
        Phase::Fail(_) => false,
    } by {
        if 0 < i <= middle.len() {
            assert(quiet(middle[i - 1]));
        }
    }
    if 1 <= k <= middle.len() + 1 {
        lemma_changed_chain(m, first, middle, k - 1);
        lemma_changed_prefix(m, first + middle, plan, k);
        lemma_quiet_keeps(opened, middle, k - 1);
    } else if k == middle.len() + 2 {
        lemma_changed_chain(m, first, middle, middle.len() as int);
        lemma_changed_prefix(m, first + middle, plan, k - 1);
        lemma_quiet_keeps(opened, middle, middle.len() as int);
        assert(plan[k - 1] == last[0]);
    }
}

/// Quiet phases leave the configuration and what was announced.
proof fn lemma_quiet_keeps(m: Monitor, plan: Seq<Phase>, k: int)
    requires
        all_quiet(plan),
        0 <= k <= plan.len(),
    ensures
        changed(m, plan, k).vm_config == m.vm_config,
        changed(m, plan, k).notices == m.notices,
        changed(m, plan, k).version == m.version,
        changed(m, plan, k).build == m.build,
        changed(m, plan, k).signals == m.signals,
        changed(m, plan, k).threads == m.threads,
        changed(m, plan, k).reply == m.reply,
    decreases k,
{
    reveal_with_fuel(changed, 1);
    if k > 0 {
        lemma_quiet_keeps(m, plan, k - 1);
        assert(quiet(plan[k - 1]));
    }
}

/// Where a request is over, no request is in progress.
pub proof fn lemma_over(m: Monitor, request: Request, outcomes: Seq<Outcome>)
    ensures
        course(m, request, outcomes).1 is Done ==> course(m, request, outcomes).0.idle(),
{
    reveal(course);
    if outcomes.len() == 0 {
        law_end_leaves_no_request(ready_for(m, request), plan_of(m, request), Outcome::Done);
    } else {
        law_end_leaves_no_request(
            course(m, request, outcomes.drop_last()).0,
            Seq::empty(),
            outcomes.last(),
        );
    }
}

} // verus!
