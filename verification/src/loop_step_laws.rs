//! What the control loop does at each of its stages.

use vstd::prelude::*;
use crate::control::{
    dispatched, is_served, loop_fits, loop_next, LoopAction, LoopOutcome, LoopStep, LoopView, Stage,
};
use crate::control_laws::{law_first_served_event_is_consumed, law_unserved_events_are_ignored};
use crate::dispatch::EpollDispatch;
use crate::error::{Error, Failure, VmError};
use crate::model::{advanced, Monitor};
use crate::plan::{Outcome, StepView};
use crate::run::{taken_up, Request};

verus! {

/// Of the events that have come, those before the first that can be served are
/// passed over: numbers that stand for no event, an activation without a
/// machine, and a debugger's event where there is no debugging. The first that
/// can be served is consumed, and those behind it are kept for later. Nothing
/// else changes.
pub proof fn law_events_are_served_in_turn(c: LoopView, events: Vec<u64>, i: int)
    requires
        c.stage == Stage::Waiting,
        0 <= i < events@.len(),
        events@[i] <= 4,
        events@[i] == 3 ==> c.monitor.vm is Some,
        events@[i] == 4 ==> c.monitor.build.features.guest_debug,
        forall|j: int|
            0 <= j < i ==> {
                ||| #[trigger] events@[j] > 4
                ||| events@[j] == 3 && c.monitor.vm is None
                ||| events@[j] == 4 && !c.monitor.build.features.guest_debug
            },
    ensures
        ({
            let next = loop_next(c, LoopOutcome::Events(events));
            let event = if events@[i] == 0 {
                EpollDispatch::Exit
            } else if events@[i] == 1 {
                EpollDispatch::Reset
            } else if events@[i] == 2 {
                EpollDispatch::Api
            } else if events@[i] == 3 {
                EpollDispatch::ActivateVirtioDevices
            } else {
                EpollDispatch::Debug
            };
            &&& next.1 == LoopStep::Perform(LoopAction::Consume(event))
            &&& next.0.stage == Stage::Consuming(event)
            &&& next.0.monitor == c.monitor
            &&& next.0.events == events@.skip(i + 1)
        }),
{
    let come = LoopView { events: events@, ..c };
    assert forall|j: int| 0 <= j < i implies !is_served(
        come.monitor,
        EpollDispatch::of_index(#[trigger] come.events[j]),
    ) by {
        assert(events@[j] > 4 || (events@[j] == 3 && c.monitor.vm is None) || (events@[j] == 4
            && !c.monitor.build.features.guest_debug));
    }
    law_first_served_event_is_consumed(come, i);
}

/// Where none of the events that have come can be served, the loop waits for
/// others, and nothing else changes.
pub proof fn law_events_that_none_can_be_served_of(c: LoopView, events: Vec<u64>)
    requires
        c.stage == Stage::Waiting,
        forall|j: int|
            0 <= j < events@.len() ==> {
                ||| #[trigger] events@[j] > 4
                ||| events@[j] == 3 && c.monitor.vm is None
                ||| events@[j] == 4 && !c.monitor.build.features.guest_debug
            },
    ensures
        loop_next(c, LoopOutcome::Events(events)) == (
            LoopView { events: Seq::empty(), ..c },
            LoopStep::Perform(LoopAction::Wait),
        ),
{
    let come = LoopView { events: events@, ..c };
    assert forall|j: int| 0 <= j < come.events.len() implies !is_served(
        come.monitor,
        EpollDispatch::of_index(#[trigger] come.events[j]),
    ) by {
        assert(events@[j] > 4 || (events@[j] == 3 && c.monitor.vm is None) || (events@[j] == 4
            && !c.monitor.build.features.guest_debug));
    }
    law_unserved_events_are_ignored(come);
}

/// An exit that has been consumed shuts the monitor down, and a reset reboots
/// the machine, as if that had been asked for. An activation is handed to the
/// machine. API requests and those of the debugger are received one after the
/// other, as many as the event counted. Where it counted none, the loop goes on
/// with the events that it has kept.
#[verifier::rlimit(30)]
pub proof fn law_consumed_events(
    c: LoopView,
    event: EpollDispatch,
    count: u64,
    kept: Vec<u64>,
)
    requires
        c.stage == Stage::Consuming(event),
        kept@ == c.events,
    ensures
        ({
            let next = loop_next(c, LoopOutcome::Count(count));
            let on = loop_next(
                LoopView { stage: Stage::Waiting, ..c },
                LoopOutcome::Events(kept),
            );
            match event {
                EpollDispatch::Exit => taken_up(c.monitor, Request::MonitorShutdown).1 matches StepView::Perform(
                    action,
                ) ==> next == (
                    LoopView {
                        monitor: taken_up(c.monitor, Request::MonitorShutdown).0,
                        stage: Stage::ShuttingDown,
                        ..c
                    },
                    LoopStep::Perform(LoopAction::Perform(action)),
                ),
                EpollDispatch::Reset => match taken_up(c.monitor, Request::Reboot).1 {
                    StepView::Perform(action) => next == (
                        LoopView {
                            monitor: taken_up(c.monitor, Request::Reboot).0,
                            stage: Stage::Rebooting,
                            ..c
                        },
                        LoopStep::Perform(LoopAction::Perform(action)),
                    ),
                    StepView::Done(Err(Failure::Vm(e))) => next == (
                        LoopView {
                            monitor: taken_up(c.monitor, Request::Reboot).0,
                            stage: Stage::Over,
                            ..c
                        },
                        LoopStep::Done(Err(Error::VmReboot(e))),
                    ),
                    _ => true,
                },
                EpollDispatch::Api => next == if count == 0 {
                    on
                } else {
                    (
                        LoopView { stage: Stage::ReceivingApi(count), ..c },
                        LoopStep::Perform(LoopAction::ReceiveApiRequest),
                    )
                },
                EpollDispatch::ActivateVirtioDevices => next == (
                    LoopView { stage: Stage::Activating, ..c },
                    LoopStep::Perform(LoopAction::ActivateVirtioDevices),
                ),
                EpollDispatch::Debug => next == if count == 0 {
                    on
                } else {
                    (
                        LoopView { stage: Stage::ReceivingDebug(count), ..c },
                        LoopStep::Perform(LoopAction::ReceiveDebugRequest),
                    )
                },
                EpollDispatch::Unknown => next == on,
            }
        }),
{
    lemma_any_stage(c, Stage::Waiting);
}

/// Events are handed out whatever the stage was.
proof fn lemma_any_stage(c: LoopView, stage: Stage)
    ensures
        dispatched(LoopView { stage, ..c }) == dispatched(c),
    decreases c.events.len(),
{
    if c.events.len() > 0 {
        let rest = LoopView { events: c.events.drop_first(), ..c };
        lemma_any_stage(rest, stage);
    }
}

/// What is leaving the loop: signals are no longer handled, then the threads
/// are waited for one by one, and then the loop ends well.
pub open spec fn leaves(c: LoopView, next: (LoopView, LoopStep)) -> bool {
    if c.monitor.signals {
        next == (
            LoopView {
                monitor: Monitor { signals: false, ..c.monitor },
                stage: Stage::Closing,
                ..c
            },
            LoopStep::Perform(LoopAction::CloseSignals),
        )
    } else if c.monitor.threads > 0 {
        next == (
            LoopView {
                monitor: Monitor { threads: (c.monitor.threads - 1) as nat, ..c.monitor },
                stage: Stage::Joining,
                ..c
            },
            LoopStep::Perform(LoopAction::JoinThread),
        )
    } else {
        next == (LoopView { stage: Stage::Over, ..c }, LoopStep::Done(Ok(())))
    }
}

/// A request that the loop makes itself is carried on with what the host
/// reports. A reboot that is done lets the loop go on with the events that it
/// has kept; the shutdown of the monitor leaves the loop. A failure ends the
/// loop, with the error of the one or the other.
#[verifier::rlimit(30)]
pub proof fn law_own_requests(c: LoopView, outcome: Outcome, kept: Vec<u64>)
    requires
        c.stage is ShuttingDown || c.stage is Rebooting,
        kept@ == c.events,
    ensures
        ({
            let next = loop_next(c, LoopOutcome::Performed(outcome));
            let on = advanced(c.monitor, outcome);
            match on.1 {
                StepView::Perform(action) => next == (
                    LoopView { monitor: on.0, ..c },
                    LoopStep::Perform(LoopAction::Perform(action)),
                ),
                StepView::Done(Ok(_)) => if c.stage is ShuttingDown {
                    leaves(LoopView { monitor: on.0, ..c }, next)
                } else {
                    next == loop_next(
                        LoopView { monitor: on.0, stage: Stage::Waiting, ..c },
                        LoopOutcome::Events(kept),
                    )
                },
                StepView::Done(Err(failure)) => {
                    &&& next.0 == (LoopView { monitor: on.0, stage: Stage::Over, ..c })
                    &&& failure matches Failure::Vm(e) ==> next.1 == LoopStep::Done(
                        Err(
                            if c.stage is ShuttingDown {
                                Error::VmmShutdown(e)
                            } else {
                                Error::VmReboot(e)
                            },
                        ),
                    )
                },
            }
        }),
{
    lemma_any_stage(LoopView { monitor: advanced(c.monitor, outcome).0, ..c }, Stage::Waiting);
}

/// What follows something that has been done: an API request that was received
/// is served, and so is one of the debugger, by the machine where there is one,
/// and with an error where there is none; then the debugger is answered. One
/// request less is left then. An activation that is done lets the loop go on
/// with the events that it has kept.
#[verifier::rlimit(30)]
pub proof fn law_what_follows_what_is_done(c: LoopView, kept: Vec<u64>)
    requires
        c.stage is ReceivingApi || c.stage is ReceivingDebug || c.stage is Debugging
            || c.stage is AnsweringDebug || c.stage is Activating,
        c.stage matches Stage::AnsweringDebug(n) ==> n > 0,
        kept@ == c.events,
    ensures
        ({
            let next = loop_next(c, LoopOutcome::Done);
            let on = loop_next(
                LoopView { stage: Stage::Waiting, ..c },
                LoopOutcome::Events(kept),
            );
            match c.stage {
                Stage::ReceivingApi(n) => next == (
                    LoopView { stage: Stage::ServingApi(n), ..c },
                    LoopStep::Perform(LoopAction::ServeApiRequest),
                ),
                Stage::ReceivingDebug(n) => next == if c.monitor.vm is Some {
                    (
                        LoopView { stage: Stage::Debugging(n), ..c },
                        LoopStep::Perform(LoopAction::DebugMachine),
                    )
                } else {
                    (
                        LoopView { stage: Stage::AnsweringDebug(n), ..c },
                        LoopStep::Perform(
                            LoopAction::AnswerDebugger(Some(VmError::VmNotRunning)),
                        ),
                    )
                },
                Stage::Debugging(n) => next == (
                    LoopView { stage: Stage::AnsweringDebug(n), ..c },
                    LoopStep::Perform(LoopAction::AnswerDebugger(None)),
                ),
                Stage::AnsweringDebug(n) => next == if n > 1 {
                    (
                        LoopView { stage: Stage::ReceivingDebug((n - 1) as u64), ..c },
                        LoopStep::Perform(LoopAction::ReceiveDebugRequest),
                    )
                } else {
                    on
                },
                _ => next == on,
            }
        }),
{
    lemma_any_stage(c, Stage::Waiting);
}

/// Once signals are no longer handled, and once a thread has ended, the next
/// thread is waited for. Where there is none left, the loop ends well.
pub proof fn law_threads_are_waited_for(c: LoopView)
    requires
        c.stage is Closing || c.stage is Joining,
    ensures
        loop_next(c, LoopOutcome::Done) == if c.monitor.threads > 0 {
            (
                LoopView {
                    monitor: Monitor { threads: (c.monitor.threads - 1) as nat, ..c.monitor },
                    stage: Stage::Joining,
                    ..c
                },
                LoopStep::Perform(LoopAction::JoinThread),
            )
        } else {
            (LoopView { stage: Stage::Over, ..c }, LoopStep::Done(Ok(())))
        },
{
}

/// An API request that was served leaves one request less, or leaves the loop
/// where it ends it, whatever is left. A fatal error ends the loop.
pub proof fn law_served_api_requests(c: LoopView, n: u64, kept: Vec<u64>, error: Error)
    requires
        c.stage == Stage::ServingApi(n),
        n > 0,
        kept@ == c.events,
    ensures
        loop_next(c, LoopOutcome::Served(false)) == if n > 1 {
            (
                LoopView { stage: Stage::ReceivingApi((n - 1) as u64), ..c },
                LoopStep::Perform(LoopAction::ReceiveApiRequest),
            )
        } else {
            loop_next(LoopView { stage: Stage::Waiting, ..c }, LoopOutcome::Events(kept))
        },
        leaves(c, loop_next(c, LoopOutcome::Served(true))),
        loop_next(c, LoopOutcome::Fatal(error)) == (
            LoopView { stage: Stage::Over, ..c },
            LoopStep::Done(Err(error)),
        ),
{
    lemma_any_stage(c, Stage::Waiting);
}

/// The errors of the loop, by what has failed. A thread that could not be
/// waited for is the last that was tried.
pub proof fn law_errors_of_the_loop(c: LoopView, fault: String)
    requires
        loop_fits(c, LoopOutcome::Failed(fault)),
    ensures
        loop_next(c, LoopOutcome::Failed(fault)).1 == LoopStep::Done(
            Err(
                match c.stage {
                    Stage::Waiting => Error::Epoll(fault),
                    Stage::Consuming(_) => Error::EventFdRead(fault),
                    Stage::Activating => Error::ActivateVirtioDevices(VmError::Machine(fault)),
                    Stage::ReceivingApi(_) => Error::ApiRequestRecv(fault),
                    Stage::ReceivingDebug(_) => Error::GdbRequestRecv(fault),
                    Stage::AnsweringDebug(_) => Error::GdbResponseSend(fault),
                    _ => Error::ThreadCleanup(fault),
                },
            ),
        ),
{
}

} // verus!
