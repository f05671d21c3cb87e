//! What the requests on a machine that only hand something on come to.

use vstd::prelude::*;
use crate::error::{MigratableError, VmError};
use crate::lifecycle::{ask, note, vmm_shutdown_plan};
use crate::devices::{counters_plan, info_plan};
use crate::model::{advanced, after, fits, refusal, settled, Monitor, Waiting};
use crate::plan::{
    wrapped, Action, Change, Expect, Notice, Outcome, Phase, Recovery, ReplyView, StepView, Wrap,
};
use crate::run::{
    course, lemma_failed_ends, lemma_next_ask, plan_of, possible, ready_for, taken_up, Request,
};
use crate::straight::{changed, lemma_over, lemma_place, straight};
use crate::trace::{asked, followed, lemma_orders_one, lemma_straight_asked};

verus! {

/// What a request that is handed on asks for, and what a failure of it is
/// reported as.
spec fn handed_on(request: Request) -> (Action, Wrap) {
    match request {
        Request::Pause => (Action::PauseVm, Wrap::Pause),
        Request::Resume => (Action::ResumeVm, Wrap::Resume),
        Request::Coredump(url) => (Action::Coredump(url), Wrap::Coredump),
        Request::PowerButton => (Action::PowerButton, Wrap::Machine),
        Request::Resize(sizes) => (Action::ResizeVm(sizes), Wrap::Machine),
        Request::ResizeZone(id, ram) => (Action::ResizeZone(id, ram), Wrap::Machine),
        Request::Remove(id) => (Action::RemoveDevice(id), Wrap::Machine),
        _ => (Action::Nmi, Wrap::Machine),
    }
}

/// The plan of a request that is handed on.
proof fn lemma_handed_on_plan(m: Monitor, request: Request)
    requires
        m.vm is Some,
        request is Pause || request is Resume || request is Coredump || request is PowerButton
            || request is Nmi || request is Resize || request is ResizeZone || request is Remove,
        request is Resize || request is ResizeZone ==> m.vm_config is Some,
    ensures
        ready_for(m, request) == m,
        plan_of(m, request) == seq![ask(handed_on(request).0, handed_on(request).1)],
{
}

/// A request that is handed on to the machine asks the host for that, once,
/// and for nothing else. It ends with what the host reports, as an error of its
/// own kind where that is a failure. The monitor itself does not change.
#[verifier::rlimit(30)]
pub proof fn law_requests_that_are_handed_on(m: Monitor, request: Request, outcomes: Seq<Outcome>)
    requires
        m.vm is Some,
        request is Pause || request is Resume || request is Coredump || request is PowerButton
            || request is Nmi || request is Resize || request is ResizeZone || request is Remove,
        request is Resize || request is ResizeZone ==> m.vm_config is Some,
        possible(m, request, outcomes),
    ensures
        ({
            let end = course(m, request, outcomes);
            let action = match request {
                Request::Pause => Action::PauseVm,
                Request::Resume => Action::ResumeVm,
                Request::Coredump(url) => Action::Coredump(url),
                Request::PowerButton => Action::PowerButton,
                Request::Resize(sizes) => Action::ResizeVm(sizes),
                Request::ResizeZone(id, ram) => Action::ResizeZone(id, ram),
                Request::Remove(id) => Action::RemoveDevice(id),
                _ => Action::Nmi,
            };
            &&& asked(m, request, outcomes) == seq![action]
            &&& outcomes.len() <= 1
            &&& end.0.at_rest() == m
            &&& end.1 == if outcomes.len() == 0 {
                StepView::Perform(action)
            } else {
                match outcomes[0] {
                    Outcome::Failed(fault) => refusal(
                        match request {
                            Request::Pause => VmError::Pause(MigratableError::Machine(fault)),
                            Request::Resume => VmError::Resume(MigratableError::Machine(fault)),
                            Request::Coredump(_) => VmError::Coredump(fault),
                            _ => VmError::Machine(fault),
                        },
                    ),
                    _ => StepView::Done(Ok(ReplyView::Done)),
                }
            }
        }),
{
    let (action, wrap) = handed_on(request);
    let plan = seq![ask(action, wrap)];
    lemma_handed_on_plan(m, request);
    lemma_handed_on(m, request, outcomes, plan, action, wrap);
}

/// A request that only asks for one thing.
proof fn lemma_handed_on(
    m: Monitor,
    request: Request,
    outcomes: Seq<Outcome>,
    plan: Seq<Phase>,
    action: Action,
    wrap: Wrap,
)
    requires
        plan == seq![ask(action, wrap)],
        plan_of(m, request) == plan,
        ready_for(m, request) == m,
        wrap != Wrap::Ignore,
        possible(m, request, outcomes),
    ensures
        ({
            let end = course(m, request, outcomes);
            &&& asked(m, request, outcomes) == seq![action]
            &&& outcomes.len() <= 1
            &&& end.0.at_rest() == m
            &&& end.1 == if outcomes.len() == 0 {
                StepView::Perform(action)
            } else {
                match outcomes[0] {
                    Outcome::Failed(fault) => StepView::Done(Err(wrapped(wrap, fault))),
                    _ => StepView::Done(Ok(ReplyView::Done)),
                }
            }
        }),
{
    let end = course(m, request, outcomes);
    lemma_straight_asked(m, request, outcomes, plan);
    lemma_orders_one(plan[0]);
    reveal(followed);
    let k = lemma_place(m, request, outcomes);
    reveal_with_fuel(changed, 2);
    assert(changed(m, plan, k) == m);
    assert(asked(m, request, outcomes) =~= seq![action]);
}

/// An outcome of an action: what comes next where it is a failure, and where
/// it is none.
proof fn lemma_outcome(at: Monitor, expect: Expect, wrap: Wrap, outcome: Outcome)
    requires
        at.waiting == Some(Waiting { expect, wrap }),
        at.pending is None,
        at.recovery == Recovery::Nothing,
        wrap != Wrap::Ignore,
    ensures
        match outcome {
            Outcome::Failed(fault) => advanced(at, outcome) == (
                at.at_rest(),
                StepView::Done(Err(wrapped(wrap, fault))),
            ),
            _ => advanced(at, outcome) == settled(
                after(Monitor { waiting: None, ..at }, expect, outcome),
            ),
        },
{
    match outcome {
        Outcome::Failed(fault) => lemma_failed_ends(
            Monitor { waiting: None, plan: Seq::empty(), ..at },
            wrapped(wrap, fault),
        ),
        _ => {},
    }
}

/// The counters, as they are asked for.
proof fn lemma_counters_begin(m: Monitor)
    requires
        m.idle(),
        m.vm is Some,
    ensures
        taken_up(m, Request::Counters) == (
            Monitor {
                plan: seq![Phase::Ask(Action::EncodeCounters, Expect::Data, Wrap::SerializeJson)],
                waiting: Some(Waiting { expect: Expect::Done, wrap: Wrap::Machine }),
                ..m
            },
            StepView::Perform(Action::ReadCounters),
        ),
{
    let rest = seq![Phase::Ask(Action::EncodeCounters, Expect::Data, Wrap::SerializeJson)];
    let plan = counters_plan(m);
    assert(plan =~= seq![ask(Action::ReadCounters, Wrap::Machine)] + rest);
    lemma_next_ask(
        Monitor { plan, ..m },
        Action::ReadCounters,
        Expect::Done,
        Wrap::Machine,
        rest,
    );
}

/// The counters, as they are encoded.
proof fn lemma_counters_encoded(m: Monitor, at: Monitor, outcome: Outcome)
    requires
        m.idle(),
        at == (Monitor {
            waiting: Some(Waiting { expect: Expect::Data, wrap: Wrap::SerializeJson }),
            ..m
        }),
        fits(at, outcome),
    ensures
        match outcome {
            Outcome::Failed(fault) => advanced(at, outcome) == (
                m,
                refusal(VmError::SerializeJson(fault)),
            ),
            Outcome::Bytes(bytes) => advanced(at, outcome) == (
                m,
                StepView::Done(Ok(ReplyView::Data(Some(bytes@)))),
            ),
            _ => false,
        },
{
    lemma_outcome(at, Expect::Data, Wrap::SerializeJson, outcome);
}

/// The counters of a machine are read, and then put in JSON: that is the
/// answer, to the byte. The monitor does not change. What fails is reported as
/// an error of the machine, or of the encoding.
pub proof fn law_counters(m: Monitor, first: Outcome, second: Outcome)
    requires
        m.idle(),
        m.vm is Some,
        fits(taken_up(m, Request::Counters).0, first),
        first is Done ==> fits(advanced(taken_up(m, Request::Counters).0, first).0, second),
    ensures
        ({
            let start = taken_up(m, Request::Counters);
            let next = advanced(start.0, first);
            &&& start.1 == StepView::Perform(Action::ReadCounters)
            &&& match first {
                Outcome::Failed(fault) => next == (m, refusal(VmError::Machine(fault))),
                _ => {
                    &&& first == Outcome::Done
                    &&& next.1 == StepView::Perform(Action::EncodeCounters)
                    &&& match second {
                        Outcome::Failed(fault) => advanced(next.0, second) == (
                            m,
                            refusal(VmError::SerializeJson(fault)),
                        ),
                        Outcome::Bytes(bytes) => advanced(next.0, second) == (
                            m,
                            StepView::Done(Ok(ReplyView::Data(Some(bytes@)))),
                        ),
                        _ => false,
                    }
                },
            }
        }),
{
    lemma_counters_begin(m);
    let start = taken_up(m, Request::Counters).0;
    lemma_outcome(start, Expect::Done, Wrap::Machine, first);
    if first is Done {
        let rest = Monitor { waiting: None, ..start };
        assert(after(rest, Expect::Done, first) == rest);
        assert(rest.plan =~= seq![
            Phase::Ask(Action::EncodeCounters, Expect::Data, Wrap::SerializeJson),
        ] + Seq::empty());
        lemma_next_ask(
            rest,
            Action::EncodeCounters,
            Expect::Data,
            Wrap::SerializeJson,
            Seq::empty(),
        );
        lemma_counters_encoded(m, advanced(start, first).0, second);
    }
}

/// What is still to be reported on a machine.
spec fn left_to_report(n: int) -> Seq<Phase> {
    seq![
        Phase::Ask(Action::MeasureMemory, Expect::MemorySize, Wrap::Never),
        Phase::Ask(Action::ReadBalloon, Expect::BalloonSize, Wrap::Never),
        Phase::Ask(Action::ReadDeviceTree, Expect::DeviceTree, Wrap::Never),
        Phase::Apply(Change::Report),
    ].skip(n)
}

/// A report goes on with the next that is to be asked for.
proof fn lemma_report_next(at: Monitor, n: int)
    requires
        0 <= n < 3,
        at.plan == left_to_report(n),
        at.pending is None,
        at.recovery == Recovery::Nothing,
    ensures
        ({
            let phase = left_to_report(0)[n];
            &&& settled(at).1 == StepView::Perform(phase->Ask_0)
            &&& settled(at).0 == (Monitor {
                plan: left_to_report(n + 1),
                waiting: Some(Waiting { expect: phase->Ask_1, wrap: phase->Ask_2 }),
                ..at
            })
        }),
{
    let phase = left_to_report(0)[n];
    assert(at.plan[0] == phase);
    assert(at.plan =~= seq![phase] + left_to_report(n + 1));
    lemma_next_ask(at, phase->Ask_0, phase->Ask_1, phase->Ask_2, left_to_report(n + 1));
}

/// What a report on a machine asks for, and in what order: the machine's state,
/// the memory that is configured, the balloon's part of it, and the device
/// tree. Of these only the first can fail, and that is an error of the machine.
#[verifier::rlimit(30)]
pub proof fn law_info_actions(
    m: Monitor,
    first: Outcome,
    second: Outcome,
    third: Outcome,
)
    requires
        m.idle(),
        m.vm is Some,
        m.vm_config is Some,
        fits(taken_up(m, Request::Info).0, first),
        first is State ==> fits(advanced(taken_up(m, Request::Info).0, first).0, second),
        first is State ==> fits(
            advanced(advanced(taken_up(m, Request::Info).0, first).0, second).0,
            third,
        ),
    ensures
        ({
            let start = taken_up(m, Request::Info);
            let next = advanced(start.0, first);
            let last = advanced(next.0, second);
            &&& start.1 == StepView::Perform(Action::ReadState)
            &&& match first {
                Outcome::Failed(fault) => next == (m, refusal(VmError::Machine(fault))),
                _ => {
                    &&& first is State
                    &&& next.1 == StepView::Perform(Action::MeasureMemory)
                    &&& second is Number
                    &&& last.1 == StepView::Perform(Action::ReadBalloon)
                    &&& third is Number
                    &&& third->Number_0 <= second->Number_0
                    &&& advanced(last.0, third).1 == StepView::Perform(Action::ReadDeviceTree)
                },
            }
        }),
{
    lemma_info_begin(m);
    let start = taken_up(m, Request::Info).0;
    lemma_outcome(start, Expect::State, Wrap::Machine, first);
    if first is State {
        let one = after(Monitor { waiting: None, ..start }, Expect::State, first);
        lemma_report_next(one, 0);
        lemma_report_memory(advanced(start, first).0, second);
        lemma_report_balloon(advanced(advanced(start, first).0, second).0, third);
    }
}

/// A report once the memory is measured.
proof fn lemma_report_memory(at: Monitor, outcome: Outcome)
    requires
        at.plan == left_to_report(1),
        at.waiting == Some(Waiting { expect: Expect::MemorySize, wrap: Wrap::Never }),
        at.pending is None,
        at.recovery == Recovery::Nothing,
        fits(at, outcome),
    ensures
        outcome is Number,
        advanced(at, outcome).1 == StepView::Perform(Action::ReadBalloon),
        advanced(at, outcome).0.plan == left_to_report(2),
        advanced(at, outcome).0.waiting == Some(
            Waiting { expect: Expect::BalloonSize, wrap: Wrap::Never },
        ),
        advanced(at, outcome).0.draft.size == outcome->Number_0,
        advanced(at, outcome).0.pending is None,
        advanced(at, outcome).0.recovery == Recovery::Nothing,
{
    lemma_outcome(at, Expect::MemorySize, Wrap::Never, outcome);
    lemma_report_next(after(Monitor { waiting: None, ..at }, Expect::MemorySize, outcome), 1);
}

/// A report once the balloon is known.
proof fn lemma_report_balloon(at: Monitor, outcome: Outcome)
    requires
        at.plan == left_to_report(2),
        at.waiting == Some(Waiting { expect: Expect::BalloonSize, wrap: Wrap::Never }),
        at.pending is None,
        at.recovery == Recovery::Nothing,
        fits(at, outcome),
    ensures
        outcome is Number,
        outcome->Number_0 <= at.draft.size,
        advanced(at, outcome).1 == StepView::Perform(Action::ReadDeviceTree),
{
    lemma_outcome(at, Expect::BalloonSize, Wrap::Never, outcome);
    lemma_report_next(after(Monitor { waiting: None, ..at }, Expect::BalloonSize, outcome), 2);
}

/// A report on a machine, as it begins.
proof fn lemma_info_begin(m: Monitor)
    requires
        m.idle(),
        m.vm is Some,
        m.vm_config is Some,
    ensures
        taken_up(m, Request::Info) == (
            Monitor {
                plan: left_to_report(0),
                waiting: Some(Waiting { expect: Expect::State, wrap: Wrap::Machine }),
                ..m
            },
            StepView::Perform(Action::ReadState),
        ),
{
    let plan = info_plan(m);
    assert(plan =~= seq![Phase::Ask(Action::ReadState, Expect::State, Wrap::Machine)]
        + left_to_report(0));
    lemma_next_ask(
        Monitor { plan, ..m },
        Action::ReadState,
        Expect::State,
        Wrap::Machine,
        left_to_report(0),
    );
}

/// A report without a machine asks only for the memory that is configured.
pub proof fn law_info_actions_without_machine(m: Monitor, outcome: Outcome)
    requires
        m.idle(),
        m.vm is None,
        m.vm_config is Some,
        fits(taken_up(m, Request::Info).0, outcome),
    ensures
        taken_up(m, Request::Info).1 == StepView::Perform(Action::MeasureMemory),
        outcome is Number,
{
}

/// The phases of a shutdown of the monitor.
proof fn lemma_monitor_shutdown_phases(m: Monitor)
    requires
        m.vm_config is Some,
        m.vm is Some,
    ensures
        vmm_shutdown_plan(m) == seq![
            Phase::Apply(Change::RetireVm),
            Phase::Apply(Change::DrainConsole),
            ask(Action::ShutdownVm, Wrap::Machine),
            note(Notice::Shutdown),
            Phase::Apply(Change::ClearConfig),
            note(Notice::Deleted),
            note(Notice::MonitorShutdown),
        ],
{
    assert(vmm_shutdown_plan(m) =~= seq![
        Phase::Apply(Change::RetireVm),
        Phase::Apply(Change::DrainConsole),
        ask(Action::ShutdownVm, Wrap::Machine),
        note(Notice::Shutdown),
        Phase::Apply(Change::ClearConfig),
        note(Notice::Deleted),
        note(Notice::MonitorShutdown),
    ]);
}

/// The changes of a shutdown of the monitor.
#[verifier::rlimit(30)]
proof fn lemma_monitor_shutdown_changes(m: Monitor, plan: Seq<Phase>)
    requires
        plan == seq![
            Phase::Apply(Change::RetireVm),
            Phase::Apply(Change::DrainConsole),
            ask(Action::ShutdownVm, Wrap::Machine),
            note(Notice::Shutdown),
            Phase::Apply(Change::ClearConfig),
            note(Notice::Deleted),
            note(Notice::MonitorShutdown),
        ],
    ensures
        straight(plan),
        changed(m, plan, 3) == (Monitor { vm: None, retired: m.vm, console_info: false, ..m }),
        changed(m, plan, 7) == (Monitor {
            vm: None,
            retired: m.vm,
            console_info: false,
            vm_config: None,
            notices: m.notices.push(Notice::Shutdown).push(Notice::Deleted).push(
                Notice::MonitorShutdown,
            ),
            ..m
        }),
{
    reveal_with_fuel(changed, 1);
    let away = Monitor { vm: None, retired: m.vm, ..m };
    let quiet = Monitor { console_info: false, ..away };
    let stopped = Monitor { notices: m.notices.push(Notice::Shutdown), ..quiet };
    let cleared = Monitor { vm_config: None, ..stopped };
    let deleted = Monitor { notices: stopped.notices.push(Notice::Deleted), ..cleared };
    assert(changed(m, plan, 0) == m);
    assert(changed(m, plan, 1) == away);
    assert(changed(m, plan, 2) == quiet);
    assert(changed(m, plan, 3) == quiet);
    assert(changed(m, plan, 4) == stopped);
    assert(changed(m, plan, 5) == cleared);
    assert(changed(m, plan, 6) == deleted);
}

/// What a shutdown of the monitor leaves.
proof fn lemma_shut_down_at_rest(m: Monitor, stopped: Monitor, over: Monitor)
    requires
        m.idle(),
        stopped == (Monitor { vm: None, retired: m.vm, console_info: false, ..m }),
        over == (Monitor { vm_config: None, notices: over.notices, ..stopped }),
    ensures
        stopped.at_rest() == (Monitor { vm: None, console_info: false, ..m }),
        over.at_rest() == (Monitor {
            vm: None,
            console_info: false,
            vm_config: None,
            notices: over.notices,
            ..m
        }),
{
}

/// The shutdown of the monitor takes the machine away, whatever the host
/// reports, and the configuration where the machine could be shut down. Then
/// the shutdown of the machine, the deletion and the shutdown of the monitor
/// are announced, in that order. Where the machine could not be shut down,
/// nothing is announced and the configuration stays.
#[verifier::rlimit(30)]
pub proof fn law_monitor_shutdown(m: Monitor, outcomes: Seq<Outcome>)
    requires
        m.vm is Some,
        m.vm_config is Some,
        possible(m, Request::MonitorShutdown, outcomes),
    ensures
        ({
            let end = course(m, Request::MonitorShutdown, outcomes);
            if end.1 matches StepView::Done(Ok(_)) {
                end.0 == (Monitor {
                    vm: None,
                    console_info: false,
                    vm_config: None,
                    notices: m.notices.push(Notice::Shutdown).push(Notice::Deleted).push(
                        Notice::MonitorShutdown,
                    ),
                    ..m
                })
            } else {
                end.0.at_rest() == (Monitor { vm: None, console_info: false, ..m })
            }
        }),
{
    let plan = vmm_shutdown_plan(m);
    lemma_monitor_shutdown_phases(m);
    lemma_monitor_shutdown_changes(m, plan);
    let k = lemma_place(m, Request::MonitorShutdown, outcomes);
    assert(k < 7 ==> k == 3);
    lemma_over(m, Request::MonitorShutdown, outcomes);
    lemma_shut_down_at_rest(m, changed(m, plan, 3), changed(m, plan, 7));
}

} // verus!
