//! What the requests on the machine can end with.

use vstd::prelude::*;
use crate::lifecycle::{reboot_plan, vmm_shutdown_plan};
use crate::model::{advanced, after, applied, begun, failed, fits, settled, Monitor};
use crate::plan::{wrapped, Change, Outcome, Phase, Recovery, StepView, Wrap};

verus! {

/// Whether a failure is reported as one of the machine, and not of a
/// migration.
pub open spec fn reports_machine(wrap: Wrap) -> bool {
    !(wrap is Socket || wrap is Receive || wrap is Send || wrap is Unlock || wrap is Migration)
}

/// Whether a phase only asks for things whose success alone counts, and only
/// fails with an error of the machine.
pub open spec fn on_the_machine(phase: Phase) -> bool {
    match phase {
        Phase::Ask(_, expect, wrap) => expect is Done && reports_machine(wrap),
        Phase::Apply(change) => !(change is OnFailure),
        Phase::Fail(failure) => failure is Vm,
    }
}

/// Whether the request in progress only fails with an error of the machine,
/// and nothing follows its failure.
pub open spec fn fails_plainly(m: Monitor) -> bool {
    &&& forall|i: int| 0 <= i < m.plan.len() ==> on_the_machine(#[trigger] m.plan[i])
    &&& m.recovery == Recovery::Nothing
    &&& m.pending matches Some(failure) ==> failure is Vm
    &&& m.waiting matches Some(waiting) ==> waiting.expect is Done && reports_machine(waiting.wrap)
}

/// A request that ends leaves no request in progress.
pub proof fn law_end_leaves_no_request(m: Monitor, plan: Seq<Phase>, outcome: Outcome)
    ensures
        begun(m, plan).1 is Done ==> begun(m, plan).0.idle(),
        advanced(m, outcome).1 is Done ==> advanced(m, outcome).0.idle(),
{
    lemma_settled_done(Monitor { plan, ..m });
    let rest = Monitor { waiting: None, ..m };
    match outcome {
        Outcome::Failed(fault) => {
            lemma_settled_done(rest);
            lemma_settled_done(failed(rest, wrapped(m.waiting->0.wrap, fault)));
        },
        _ => lemma_settled_done(after(rest, m.waiting->0.expect, outcome)),
    }
}

/// Where the monitor has nothing left to do, no request is in progress.
proof fn lemma_settled_done(m: Monitor)
    ensures
        settled(m).1 is Done ==> settled(m).0.idle(),
    decreases
            (if m.pending is None {
                1nat
            } else {
                0nat
            }),
            m.plan.len(),
{
    if m.plan.len() > 0 {
        let rest = Monitor { plan: m.plan.drop_first(), ..m };
        match m.plan[0] {
            Phase::Ask(_, _, _) => {},
            Phase::Apply(change) => lemma_settled_done(applied(rest, change)),
            Phase::Fail(failure) => lemma_settled_done(failed(rest, failure)),
        }
    }
}

/// A change other than to what follows a failure leaves that as it is, and
/// the plan with it.
proof fn lemma_plain_change(m: Monitor, change: Change)
    requires
        !(change is OnFailure),
    ensures
        applied(m, change).plan == m.plan,
        applied(m, change).pending == m.pending,
        applied(m, change).recovery == m.recovery,
        applied(m, change).waiting == m.waiting,
{
}

/// A request that only fails with errors of the machine goes on like that.
proof fn lemma_settled_plainly(m: Monitor)
    requires
        fails_plainly(m),
    ensures
        fails_plainly(settled(m).0),
        settled(m).1 matches StepView::Done(Err(failure)) ==> failure is Vm,
    decreases
            (if m.pending is None {
                1nat
            } else {
                0nat
            }),
            m.plan.len(),
{
    if m.plan.len() > 0 {
        let rest = Monitor { plan: m.plan.drop_first(), ..m };
        assert(on_the_machine(m.plan[0]));
        assert forall|i: int| 0 <= i < rest.plan.len() implies on_the_machine(
            #[trigger] rest.plan[i],
        ) by {
            assert(rest.plan[i] == m.plan[i + 1]);
        }
        match m.plan[0] {
            Phase::Ask(_, _, _) => {},
            Phase::Apply(change) => {
                lemma_plain_change(rest, change);
                lemma_settled_plainly(applied(rest, change));
            },
            Phase::Fail(failure) => lemma_settled_plainly(failed(rest, failure)),
        }
    }
}

/// So it does once an outcome is there.
pub proof fn lemma_advanced_plainly(m: Monitor, outcome: Outcome)
    requires
        fails_plainly(m),
        fits(m, outcome),
    ensures
        fails_plainly(advanced(m, outcome).0),
        advanced(m, outcome).1 matches StepView::Done(Err(failure)) ==> failure is Vm,
{
    let rest = Monitor { waiting: None, ..m };
    match outcome {
        Outcome::Failed(fault) => {
            lemma_settled_plainly(rest);
            lemma_settled_plainly(failed(rest, wrapped(m.waiting->0.wrap, fault)));
        },
        _ => lemma_settled_plainly(rest),
    }
}

/// The shutdown of the monitor and the reboot of the machine fail with errors
/// of the machine alone.
pub proof fn law_shutdown_and_reboot_fail_plainly(m: Monitor)
    requires
        m.idle(),
    ensures
        fails_plainly(begun(m, vmm_shutdown_plan(m)).0),
        fails_plainly(begun(m, reboot_plan(m)).0),
        begun(m, vmm_shutdown_plan(m)).1 matches StepView::Done(Err(failure)) ==> failure is Vm,
        begun(m, reboot_plan(m)).1 matches StepView::Done(Err(failure)) ==> failure is Vm,
{
    lemma_settled_plainly(Monitor { plan: vmm_shutdown_plan(m), ..m });
    lemma_settled_plainly(Monitor { plan: reboot_plan(m), ..m });
}

} // verus!
