//! What holds of whole runs of the control loop.

use vstd::prelude::*;
use crate::config::VmConfigView;
use crate::control::{
    dispatched, joining, leaving, loop_fits, loop_next, LoopAction, LoopOutcome, LoopStep, LoopView,
    Stage,
};
use crate::dispatch::EpollDispatch;
use crate::error::{Error, Failure, VmError};
use crate::faults::law_end_leaves_no_request;
use crate::lifecycle::{note, reboot_plan, vmm_shutdown_plan};
use crate::model::{
    advanced, applied, begun, fits, settled, with_changed_config, Monitor, Waiting,
};
use crate::plan::{
    wrapped, Action, Change, Expect, Notice, Outcome, Phase, Recovery, StepView, Wrap,
};
use crate::run::{lemma_failed_ends, lemma_next_ask, lemma_next_change, taken_up, Request};
use crate::soundness::{
    law_outcomes_keep_sound, law_reconfiguration_keeps_sound, law_requests_keep_sound,
    law_sound_at_rest, sound, stock,
};

verus! {

/// What the host hands back to the loop: the monitor as it has left it, and
/// what came of what it was asked for.
pub struct Handed {
    /// The monitor.
    pub monitor: Monitor,
    /// What came of it.
    pub outcome: LoopOutcome,
}

/// Whether the host can leave the monitor like that. It changes it where it
/// serves an API request, as the requests on the monitor do, and it changes
/// the configuration that an action works on. Otherwise it leaves it alone, but
/// for the announcements, which it may take away at any time.
pub open spec fn can_leave(at: (LoopView, LoopStep), monitor: Monitor) -> bool {
    let left = Monitor { notices: at.0.monitor.notices, ..monitor };
    ||| left == at.0.monitor
    ||| at.0.stage is ServingApi && sound(monitor)
    ||| at.1 matches LoopStep::Perform(LoopAction::Perform(action)) && exists|config: VmConfigView|
        left == #[trigger] with_changed_config(at.0.monitor, action, config)
}

/// The loop, and what comes next, once the host has handed back so much.
pub open spec fn loop_course(start: Monitor, handed: Seq<Handed>) -> (LoopView, LoopStep)
    decreases handed.len(),
{
    if handed.len() == 0 {
        (
            LoopView { monitor: start, events: Seq::empty(), stage: Stage::Waiting },
            LoopStep::Perform(LoopAction::Wait),
        )
    } else {
        let at = loop_course(start, handed.drop_last());
        loop_next(LoopView { monitor: handed.last().monitor, ..at.0 }, handed.last().outcome)
    }
}

/// Whether the host can hand back so much.
pub open spec fn loop_possible(start: Monitor, handed: Seq<Handed>) -> bool
    decreases handed.len(),
{
    handed.len() > 0 ==> {
        let at = loop_course(start, handed.drop_last());
        &&& loop_possible(start, handed.drop_last())
        &&& at.1 is Perform
        &&& can_leave(at, handed.last().monitor)
        &&& loop_fits(
            LoopView { monitor: handed.last().monitor, ..at.0 },
            handed.last().outcome,
        )
    }
}

/// Whether the loop has consumed an event that asks for the monitor's exit.
pub open spec fn exit_consumed(start: Monitor, handed: Seq<Handed>) -> bool
    decreases handed.len(),
{
    handed.len() > 0 && (exit_consumed(start, handed.drop_last()) || (loop_course(
        start,
        handed.drop_last(),
    ).0.stage == Stage::Consuming(EpollDispatch::Exit) && handed.last().outcome is Count))
}

/// Whether an API request has ended the loop.
pub open spec fn api_request_ended(handed: Seq<Handed>) -> bool
    decreases handed.len(),
{
    handed.len() > 0 && (api_request_ended(handed.drop_last()) || handed.last().outcome
        == LoopOutcome::Served(true))
}

/// What is left of the shutdown of the monitor while its machine is shut down.
spec fn rest_of_shutdown() -> Seq<Phase> {
    seq![
        note(Notice::Shutdown),
        Phase::Apply(Change::ClearConfig),
        note(Notice::Deleted),
        note(Notice::MonitorShutdown),
    ]
}

/// The monitor's machine is being shut down, and the monitor after it.
spec fn shutting_down(m: Monitor) -> bool {
    &&& m.vm is None
    &&& m.pending is None
    &&& m.recovery == Recovery::Nothing
    &&& m.waiting == Some(Waiting { expect: Expect::Done, wrap: Wrap::Machine })
    &&& m.plan == rest_of_shutdown()
}

/// Whether there is nothing left.
spec fn nothing_left(m: Monitor) -> bool {
    m.vm is None && m.vm_config is None
}

/// Where a loop can be. `exit` tells whether it has consumed an event that asks
/// for its exit, and `api` whether an API request has ended it.
spec fn loop_at(at: (LoopView, LoopStep), exit: bool, api: bool) -> bool {
    let m = at.0.monitor;
    match at.1 {
        LoopStep::Done(r) => r is Ok ==> {
            &&& !m.signals
            &&& m.threads == 0
            &&& exit || api
            &&& exit ==> nothing_left(m)
        },
        LoopStep::Perform(action) => {
            &&& sound(m)
            &&& match at.0.stage {
                Stage::ShuttingDown => shutting_down(m) && exit && !api && action
                    == LoopAction::Perform(Action::ShutdownVm),
                Stage::Rebooting => !exit && !api && action is Perform,
                Stage::ServingApi(_) => !exit && !api && !(action is Perform),
                Stage::Closing => {
                    &&& m.idle() && !m.signals && !(action is Perform)
                    &&& exit || api
                    &&& exit ==> nothing_left(m)
                },
                Stage::Joining => {
                    &&& m.idle() && !m.signals && !(action is Perform)
                    &&& exit || api
                    &&& exit ==> nothing_left(m)
                },
                Stage::Over => false,
                _ => m.idle() && !exit && !api && !(action is Perform),
            }
        },
    }
}

/// The loop goes on with the next event.
proof fn lemma_dispatched(c: LoopView)
    requires
        c.monitor.idle(),
        sound(c.monitor),
    ensures
        loop_at(dispatched(c), false, false),
    decreases c.events.len(),
{
    if c.events.len() > 0 {
        lemma_dispatched(LoopView { events: c.events.drop_first(), ..c });
    }
}

/// The loop is left.
proof fn lemma_leaving(c: LoopView, exit: bool, api: bool)
    requires
        c.monitor.idle(),
        sound(c.monitor),
        exit || api,
        exit ==> nothing_left(c.monitor),
    ensures
        loop_at(leaving(c), exit, api),
        !c.monitor.signals ==> loop_at(joining(c), exit, api),
{
    law_sound_at_rest(c.monitor);
    law_sound_at_rest(Monitor { signals: false, ..c.monitor });
    if c.monitor.threads > 0 {
        let joined = Monitor { threads: (c.monitor.threads - 1) as nat, ..c.monitor };
        law_sound_at_rest(joined);
    }
}

/// The shutdown of the monitor begins, and is over where there is no machine.
proof fn lemma_shutdown_begins(m: Monitor)
    requires
        m.idle(),
        m.vm is Some ==> m.vm_config is Some,
    ensures
        ({
            let next = begun(m, vmm_shutdown_plan(m));
            ||| next.1 == StepView::Perform(Action::ShutdownVm) && shutting_down(next.0)
            ||| (next.1 matches StepView::Done(Ok(_))) && nothing_left(next.0)
        }),
{
    let first = Monitor { plan: vmm_shutdown_plan(m), ..m };
    if m.vm is Some {
        let shutdown = seq![
            Phase::Apply(Change::DrainConsole),
            Phase::Ask(Action::ShutdownVm, Expect::Done, Wrap::Machine),
        ] + rest_of_shutdown();
        assert(first.plan =~= seq![Phase::Apply(Change::RetireVm)] + shutdown);
        lemma_next_change(first, Change::RetireVm, shutdown);
        let retired = applied(Monitor { plan: shutdown, ..first }, Change::RetireVm);
        let asked = seq![Phase::Ask(Action::ShutdownVm, Expect::Done, Wrap::Machine)]
            + rest_of_shutdown();
        assert(shutdown =~= seq![Phase::Apply(Change::DrainConsole)] + asked);
        lemma_next_change(retired, Change::DrainConsole, asked);
        let drained = applied(Monitor { plan: asked, ..retired }, Change::DrainConsole);
        lemma_next_ask(
            drained,
            Action::ShutdownVm,
            Expect::Done,
            Wrap::Machine,
            rest_of_shutdown(),
        );
    } else if m.vm_config is Some {
        let notes = seq![note(Notice::Deleted), note(Notice::MonitorShutdown)];
        assert(first.plan =~= seq![Phase::Apply(Change::ClearConfig)] + notes);
        lemma_next_change(first, Change::ClearConfig, notes);
        lemma_notes(applied(Monitor { plan: notes, ..first }, Change::ClearConfig));
    } else {
        let last = seq![note(Notice::MonitorShutdown)];
        assert(first.plan =~= last + Seq::empty());
        lemma_next_change(first, Change::Note(Notice::MonitorShutdown), Seq::empty());
    }
}

/// The last announcements of the shutdown.
proof fn lemma_notes(m: Monitor)
    requires
        m.plan == seq![note(Notice::Deleted), note(Notice::MonitorShutdown)],
        m.pending is None,
        nothing_left(m),
    ensures
        settled(m).1 matches StepView::Done(Ok(_)),
        nothing_left(settled(m).0),
{
    let last = seq![note(Notice::MonitorShutdown)];
    assert(m.plan =~= seq![note(Notice::Deleted)] + last);
    lemma_next_change(m, Change::Note(Notice::Deleted), last);
    let noted = applied(Monitor { plan: last, ..m }, Change::Note(Notice::Deleted));
    assert(last =~= last + Seq::empty());
    lemma_next_change(noted, Change::Note(Notice::MonitorShutdown), Seq::empty());
}

/// The shutdown of the machine ends that of the monitor.
proof fn lemma_shutdown_ends(m: Monitor, outcome: Outcome)
    requires
        shutting_down(m),
        fits(m, outcome),
    ensures
        match outcome {
            Outcome::Failed(fault) => advanced(m, outcome).1 == StepView::Done(
                Err(Failure::Vm(VmError::Machine(fault))),
            ),
            _ => (advanced(m, outcome).1 matches StepView::Done(Ok(_))) && nothing_left(
                advanced(m, outcome).0,
            ),
        },
{
    let rest = Monitor { waiting: None, ..m };
    match outcome {
        Outcome::Failed(fault) => lemma_failed_ends(rest, wrapped(Wrap::Machine, fault)),
        _ => {
            let notes = seq![note(Notice::Deleted), note(Notice::MonitorShutdown)];
            let clear = seq![Phase::Apply(Change::ClearConfig)] + notes;
            assert(rest.plan =~= seq![note(Notice::Shutdown)] + clear);
            lemma_next_change(rest, Change::Note(Notice::Shutdown), clear);
            let noted = applied(Monitor { plan: clear, ..rest }, Change::Note(Notice::Shutdown));
            lemma_next_change(noted, Change::ClearConfig, notes);
            lemma_notes(applied(Monitor { plan: notes, ..noted }, Change::ClearConfig));
        },
    }
}

/// What the host may do with the monitor leaves the loop where it is.
proof fn lemma_left(at: (LoopView, LoopStep), monitor: Monitor, exit: bool, api: bool)
    requires
        loop_at(at, exit, api),
        at.1 is Perform,
        can_leave(at, monitor),
    ensures
        loop_at((LoopView { monitor, ..at.0 }, at.1), exit, api),
{
    let left = Monitor { notices: at.0.monitor.notices, ..monitor };
    if left != at.0.monitor {
        if let LoopStep::Perform(LoopAction::Perform(action)) = at.1 {
            let config = choose|config: VmConfigView|
                left == #[trigger] with_changed_config(at.0.monitor, action, config);
            law_reconfiguration_keeps_sound(at.0.monitor, action, config);
        }
    }
    lemma_announcements(left, monitor.notices);
    assert(monitor == Monitor { notices: monitor.notices, ..left });
}

/// Announcements do not matter to what the monitor has.
proof fn lemma_announcements(m: Monitor, notices: Seq<Notice>)
    ensures
        sound((Monitor { notices, ..m })) == sound(m),
        (Monitor { notices, ..m }).idle() == m.idle(),
{
    let other = Monitor { notices, ..m };
    assert(stock(other) == stock(m));
    assert(other == Monitor { notices, ..m });
    if other.idle() {
        assert(m == Monitor { notices: m.notices, ..other });
    }
}

/// An event is consumed.
proof fn lemma_consumed(c: LoopView, event: EpollDispatch, count: u64)
    requires
        c.stage == Stage::Consuming(event),
        c.monitor.idle(),
        sound(c.monitor),
    ensures
        loop_at(
            loop_next(c, LoopOutcome::Count(count)),
            event == EpollDispatch::Exit,
            false,
        ),
{
    let m = c.monitor;
    lemma_dispatched(c);
    match event {
        EpollDispatch::Exit => {
            law_sound_at_rest(m);
            lemma_shutdown_begins(m);
            law_requests_keep_sound(m, Request::MonitorShutdown);
            law_end_leaves_no_request(m, vmm_shutdown_plan(m), Outcome::Done);
            let next = begun(m, vmm_shutdown_plan(m));
            assert(next == taken_up(m, Request::MonitorShutdown));
            if next.1 is Done {
                lemma_leaving(
                    LoopView { monitor: next.0, stage: Stage::ShuttingDown, ..c },
                    true,
                    false,
                );
            }
        },
        EpollDispatch::Reset => {
            law_requests_keep_sound(m, Request::Reboot);
            law_end_leaves_no_request(m, reboot_plan(m), Outcome::Done);
            let next = begun(m, reboot_plan(m));
            assert(next == taken_up(m, Request::Reboot));
            if next.1 is Done {
                lemma_dispatched(LoopView { monitor: next.0, stage: Stage::Rebooting, ..c });
            }
        },
        _ => {},
    }
}

/// The monitor's own request goes on.
proof fn lemma_performed(c: LoopView, outcome: Outcome)
    requires
        sound(c.monitor),
        fits(c.monitor, outcome),
        c.stage is Rebooting || c.stage is ShuttingDown && shutting_down(c.monitor),
    ensures
        loop_at(loop_next(c, LoopOutcome::Performed(outcome)), c.stage is ShuttingDown, false),
{
    let next = advanced(c.monitor, outcome);
    law_outcomes_keep_sound(c.monitor, outcome);
    law_end_leaves_no_request(c.monitor, Seq::empty(), outcome);
    if c.stage is ShuttingDown {
        lemma_shutdown_ends(c.monitor, outcome);
        if !(outcome is Failed) {
            lemma_leaving(LoopView { monitor: next.0, ..c }, true, false);
        }
    } else if next.1 is Done {
        lemma_dispatched(LoopView { monitor: next.0, ..c });
    }
}

/// The loop, one outcome further.
proof fn lemma_loop_step(c: LoopView, action: LoopAction, outcome: LoopOutcome, exit: bool, api: bool)
    requires
        loop_at((c, LoopStep::Perform(action)), exit, api),
        loop_fits(c, outcome),
    ensures
        loop_at(
            loop_next(c, outcome),
            exit || c.stage == Stage::Consuming(EpollDispatch::Exit) && outcome is Count,
            api || outcome == LoopOutcome::Served(true),
        ),
{
    match outcome {
        LoopOutcome::Events(events) => lemma_dispatched(LoopView { events: events@, ..c }),
        LoopOutcome::Count(count) => lemma_consumed(c, c.stage->Consuming_0, count),
        LoopOutcome::Performed(outcome) => lemma_performed(c, outcome),
        LoopOutcome::Served(true) => lemma_leaving(c, false, true),
        LoopOutcome::Served(false) => lemma_dispatched(c),
        LoopOutcome::Done => {
            if c.stage is Closing || c.stage is Joining {
                lemma_leaving(c, exit, api);
            } else {
                lemma_dispatched(c);
            }
        },
        _ => {},
    }
}

/// A loop is somewhere on its way.
proof fn lemma_loop(start: Monitor, handed: Seq<Handed>)
    requires
        start.idle(),
        start.vm is Some ==> start.vm_config is Some,
        loop_possible(start, handed),
    ensures
        loop_at(
            loop_course(start, handed),
            exit_consumed(start, handed),
            api_request_ended(handed),
        ),
    decreases handed.len(),
{
    if handed.len() == 0 {
        law_sound_at_rest(start);
    } else {
        let before = handed.drop_last();
        let at = loop_course(start, before);
        let exit = exit_consumed(start, before);
        let api = api_request_ended(before);
        lemma_loop(start, before);
        lemma_left(at, handed.last().monitor, exit, api);
        lemma_loop_step(
            LoopView { monitor: handed.last().monitor, ..at.0 },
            at.1->Perform_0,
            handed.last().outcome,
            exit,
            api,
        );
    }
}

/// A control loop that ends well has been left by an event that asks for the
/// monitor's exit, or by an API request that ends it. Signals are no longer
/// handled then, and every thread has been waited for. Where it was an event
/// that asks for the exit, there is neither machine nor configuration.
pub proof fn law_a_loop_that_ends_well(start: Monitor, handed: Seq<Handed>)
    requires
        start.idle(),
        start.vm is Some ==> start.vm_config is Some,
        loop_possible(start, handed),
        loop_course(start, handed).1 == LoopStep::Done(Ok(())),
    ensures
        ({
            let end = loop_course(start, handed).0.monitor;
            &&& !end.signals
            &&& end.threads == 0
            &&& exit_consumed(start, handed) || api_request_ended(handed)
            &&& exit_consumed(start, handed) ==> end.vm is None && end.vm_config is None
        }),
{
    lemma_loop(start, handed);
}

/// Where the machine cannot be shut down on an event that asks for the
/// monitor's exit, the loop ends with that error.
pub proof fn law_failed_shutdown_ends_the_loop(
    start: Monitor,
    handed: Seq<Handed>,
    fault: String,
)
    requires
        start.idle(),
        start.vm is Some ==> start.vm_config is Some,
        loop_possible(start, handed),
        handed.len() > 0,
        loop_course(start, handed.drop_last()).0.stage == Stage::ShuttingDown,
        handed.last().outcome == LoopOutcome::Performed(Outcome::Failed(fault)),
    ensures
        loop_course(start, handed).1 == LoopStep::Done(
            Err(Error::VmmShutdown(VmError::Machine(fault))),
        ),
{
    let before = handed.drop_last();
    let at = loop_course(start, before);
    let exit = exit_consumed(start, before);
    let api = api_request_ended(before);
    lemma_loop(start, before);
    lemma_left(at, handed.last().monitor, exit, api);
    lemma_shutdown_ends(handed.last().monitor, Outcome::Failed(fault));
}

} // verus!
