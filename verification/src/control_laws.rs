//! What holds of the control loop.

use vstd::prelude::*;
use crate::control::{
    dispatched, is_served, joining, leaving, loop_fits, loop_next, requested, standing, stage_error,
    LoopAction, LoopOutcome, LoopStep, LoopView, Stage,
};
use crate::dispatch::EpollDispatch;
use crate::features::Build;
use crate::model::Monitor;
use crate::plan::{ReplyView, StepView};
use crate::startup::{monitor_steps, register};

verus! {

/// A wait that is interrupted is taken up again, and nothing else happens.
pub proof fn law_interrupted_wait_is_repeated(c: LoopView)
    requires
        c.stage == Stage::Waiting,
    ensures
        loop_next(c, LoopOutcome::Interrupted) == (c, LoopStep::Perform(LoopAction::Wait)),
{
}

/// Events that are not served are passed over. The first that is served is
/// consumed, and those behind it wait their turn.
pub proof fn law_first_served_event_is_consumed(c: LoopView, i: int)
    requires
        0 <= i < c.events.len(),
        is_served(c.monitor, EpollDispatch::of_index(c.events[i])),
        forall|j: int|
            0 <= j < i ==> !is_served(c.monitor, EpollDispatch::of_index(#[trigger] c.events[j])),
    ensures
        dispatched(c) == (
            LoopView {
                events: c.events.skip(i + 1),
                stage: Stage::Consuming(EpollDispatch::of_index(c.events[i])),
                ..c
            },
            LoopStep::Perform(LoopAction::Consume(EpollDispatch::of_index(c.events[i]))),
        ),
    decreases c.events.len(),
{
    if i == 0 {
        assert(c.events.drop_first() =~= c.events.skip(1));
    } else {
        assert(!is_served(c.monitor, EpollDispatch::of_index(c.events[0])));
        let rest = LoopView { events: c.events.drop_first(), ..c };
        assert forall|j: int| 0 <= j < i - 1 implies !is_served(
            rest.monitor,
            EpollDispatch::of_index(#[trigger] rest.events[j]),
        ) by {
            assert(rest.events[j] == c.events[j + 1]);
        }
        assert(rest.events[i - 1] == c.events[i]);
        law_first_served_event_is_consumed(rest, i - 1);
        assert(rest.events.skip(i) =~= c.events.skip(i + 1));
    }
}

/// Where none of the events is served, nothing happens, and the loop waits
/// again.
pub proof fn law_unserved_events_are_ignored(c: LoopView)
    requires
        forall|j: int|
            0 <= j < c.events.len() ==> !is_served(
                c.monitor,
                EpollDispatch::of_index(#[trigger] c.events[j]),
            ),
    ensures
        dispatched(c) == (
            LoopView { events: Seq::empty(), stage: Stage::Waiting, ..c },
            LoopStep::Perform(LoopAction::Wait),
        ),
    decreases c.events.len(),
{
    if c.events.len() == 0 {
        assert(c.events =~= Seq::empty());
    } else {
        assert(!is_served(c.monitor, EpollDispatch::of_index(c.events[0])));
        let rest = LoopView { events: c.events.drop_first(), ..c };
        assert forall|j: int| 0 <= j < rest.events.len() implies !is_served(
            rest.monitor,
            EpollDispatch::of_index(#[trigger] rest.events[j]),
        ) by {
            assert(rest.events[j] == c.events[j + 1]);
        }
        law_unserved_events_are_ignored(rest);
    }
}

/// Without a machine, an activation is not even consumed.
pub proof fn law_activation_needs_a_machine(m: Monitor)
    ensures
        is_served(m, EpollDispatch::ActivateVirtioDevices) <==> m.vm is Some,
{
}

/// Once the monitor is shut down, the loop is left, whatever events are still
/// there. A machine that has been rebooted does not end the loop.
pub proof fn law_shutdown_leaves_the_loop(c: LoopView, m: Monitor, reply: ReplyView)
    requires
        c.stage is ShuttingDown || c.stage is Rebooting,
    ensures
        requested(c, (m, StepView::Done(Ok(reply)))) == if c.stage is ShuttingDown {
            leaving(LoopView { monitor: m, ..c })
        } else {
            dispatched(LoopView { monitor: m, ..c })
        },
{
}

/// An error ends the loop at once: signals are still handled, and no thread is
/// waited for, unless it was a thread that failed.
pub proof fn law_errors_end_the_loop_at_once(c: LoopView, fault: String)
    requires
        loop_fits(c, LoopOutcome::Failed(fault)),
    ensures
        loop_next(c, LoopOutcome::Failed(fault)).1 == LoopStep::Done(
            Err(stage_error(c.stage, fault)),
        ),
        loop_next(c, LoopOutcome::Failed(fault)).0.stage == Stage::Over,
        !(c.stage is Joining) ==> loop_next(c, LoopOutcome::Failed(fault)).0.monitor == c.monitor,
        c.stage is Joining ==> loop_next(c, LoopOutcome::Failed(fault)).0.monitor == (Monitor {
            threads: 0,
            ..c.monitor
        }),
{
}

/// The loop once the host has done so many things for it without a failure.
pub open spec fn done_times(at: (LoopView, LoopStep), n: nat) -> (LoopView, LoopStep)
    decreases n,
{
    if n == 0 {
        at
    } else {
        done_times(loop_next(at.0, LoopOutcome::Done), (n - 1) as nat)
    }
}

/// The waiting for threads comes to its end.
proof fn lemma_joining(c: LoopView)
    ensures
        done_times(joining(c), c.monitor.threads) == (
            LoopView {
                monitor: Monitor { threads: 0, ..c.monitor },
                stage: Stage::Over,
                ..c
            },
            LoopStep::Done(Ok(())),
        ),
    decreases c.monitor.threads,
{
    if c.monitor.threads > 0 {
        let one = LoopView {
            monitor: Monitor { threads: (c.monitor.threads - 1) as nat, ..c.monitor },
            stage: Stage::Joining,
            ..c
        };
        assert(joining(c) == (one, LoopStep::Perform(LoopAction::JoinThread)));
        assert(loop_next(one, LoopOutcome::Done) == joining(one));
        lemma_joining(one);
    }
}

/// Where the loop is left and nothing fails, it ends well, after signals are no
/// longer handled and every thread has been waited for.
pub proof fn law_leaving_tidies_up(c: LoopView)
    ensures
        ({
            let steps = c.monitor.threads + if c.monitor.signals {
                1nat
            } else {
                0nat
            };
            done_times(leaving(c), steps) == (
                LoopView {
                    monitor: Monitor { signals: false, threads: 0, ..c.monitor },
                    stage: Stage::Over,
                    ..c
                },
                LoopStep::Done(Ok(())),
            )
        }),
{
    if c.monitor.signals {
        let closing = LoopView {
            monitor: Monitor { signals: false, ..c.monitor },
            stage: Stage::Closing,
            ..c
        };
        assert(leaving(c) == (closing, LoopStep::Perform(LoopAction::CloseSignals)));
        assert(loop_next(closing, LoopOutcome::Done) == joining(closing));
        lemma_joining(closing);
    } else {
        lemma_joining(c);
    }
}

/// So many API requests are received and served, one after the other, as the
/// event counted, as long as none ends the loop.
pub proof fn law_api_requests_are_counted(c: LoopView, n: u64)
    requires
        n > 0,
        c.stage == Stage::ReceivingApi(n),
    ensures
        ({
            let serving = loop_next(c, LoopOutcome::Done);
            let served = loop_next(serving.0, LoopOutcome::Served(false));
            &&& serving.1 == LoopStep::Perform(LoopAction::ServeApiRequest)
            &&& n > 1 ==> served == (
                standing(c, Stage::ReceivingApi((n - 1) as u64)),
                LoopStep::Perform(LoopAction::ReceiveApiRequest),
            )
            &&& n == 1 ==> served == dispatched(standing(c, Stage::ServingApi(1)))
        }),
{
}

/// An API request that ends the loop does so whatever requests and events are
/// still there.
pub proof fn law_last_api_request_leaves_the_loop(c: LoopView)
    requires
        c.stage is ServingApi,
    ensures
        loop_next(c, LoopOutcome::Served(true)) == leaving(c),
{
}

/// The monitor waits for exactly the events that its loop may have to serve.
pub proof fn law_served_events_are_registered(build: Build, event: EpollDispatch)
    ensures
        monitor_steps(build).contains(register(event)) <==> event != EpollDispatch::Unknown && (
        event == EpollDispatch::Debug ==> build.features.guest_debug),
{
    let steps = monitor_steps(build);
    match event {
        EpollDispatch::Exit => assert(steps[3] == register(event)),
        EpollDispatch::Reset => assert(steps[4] == register(event)),
        EpollDispatch::ActivateVirtioDevices => assert(steps[5] == register(event)),
        EpollDispatch::Api => assert(steps[6] == register(event)),
        EpollDispatch::Debug => {
            if build.features.guest_debug {
                assert(steps[7] == register(event));
            }
        },
        EpollDispatch::Unknown => {},
    }
}

} // verus!
