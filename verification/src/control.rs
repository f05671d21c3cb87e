//! The control loop: it waits for events, and serves them one after the other.
//!
//! The loop decides, and the host acts. The host waits for events, reads and
//! writes, and serves API requests on the monitor. It hands back what came of
//! it, and the loop says what to do next.

use vstd::prelude::*;
use crate::dispatch::EpollDispatch;
use crate::error::{Error, Failure, VmError};
use crate::faults::{
    fails_plainly, law_end_leaves_no_request, law_shutdown_and_reboot_fail_plainly,
    lemma_advanced_plainly,
};
use crate::lifecycle::{reboot_plan, vmm_shutdown_plan};
use crate::model::{advanced, begun, fits, Monitor};
use crate::plan::{Action, Outcome, Step, StepView};
use crate::vmm::Vmm;
use vstd::pervasive::unreached;

verus! {

/// How many events are taken at most at a time.
pub const EPOLL_EVENTS_LEN: usize = 100;

/// What the loop asks of the host.
#[derive(Debug, PartialEq, Eq)]
pub enum LoopAction {
    /// Wait for events, and hand over their numbers.
    Wait,
    /// Read the descriptor of an event, and hand over its count.
    Consume(EpollDispatch),
    /// Do this for a request on the monitor.
    Perform(Action),
    /// Activate the machine's virtio devices that wait for it.
    ActivateVirtioDevices,
    /// Receive an API request.
    ReceiveApiRequest,
    /// Serve it on the monitor.
    ServeApiRequest,
    /// Receive a request of the debugger.
    ReceiveDebugRequest,
    /// Let the machine handle it.
    DebugMachine,
    /// Send the debugger an error, or else what the machine said.
    AnswerDebugger(Option<VmError>),
    /// Stop the handling of signals.
    CloseSignals,
    /// Wait for the end of the next thread.
    JoinThread,
}

/// What the host hands back.
#[derive(Debug, PartialEq, Eq)]
pub enum LoopOutcome {
    /// Events have come, with these numbers.
    Events(Vec<u64>),
    /// The wait was interrupted.
    Interrupted,
    /// It failed, for this reason.
    Failed(String),
    /// The count of an event.
    Count(u64),
    /// It is done.
    Done,
    /// What came of an action for a request on the monitor.
    Performed(Outcome),
    /// An API request was served; whether it ends the loop.
    Served(bool),
    /// An API request could not be served.
    Fatal(Error),
}

/// How the loop goes on.
#[derive(Debug, PartialEq, Eq)]
pub enum LoopStep {
    /// The host is to do this, and to hand back what came of it.
    Perform(LoopAction),
    /// The loop is over.
    Done(Result<(), Error>),
}

/// Where the loop stands.
#[derive(Debug, Clone, Copy, PartialEq, Eq, Structural)]
pub enum Stage {
    /// It waits for events.
    Waiting,
    /// An event is being consumed.
    Consuming(EpollDispatch),
    /// The monitor is being shut down.
    ShuttingDown,
    /// The machine is being rebooted.
    Rebooting,
    /// Virtio devices are being activated.
    Activating,
    /// One of so many API requests is being received.
    ReceivingApi(u64),
    /// One of so many API requests is being served.
    ServingApi(u64),
    /// One of so many requests of the debugger is being received.
    ReceivingDebug(u64),
    /// The machine handles one of so many requests of the debugger.
    Debugging(u64),
    /// One of so many requests of the debugger is being answered.
    AnsweringDebug(u64),
    /// The handling of signals is being stopped.
    Closing,
    /// A thread is being waited for.
    Joining,
    /// The loop is over.
    Over,
}

/// The control loop.
#[derive(Debug, PartialEq, Eq)]
pub struct ControlLoop {
    /// The monitor.
    pub vmm: Vmm,
    /// The numbers of the events that have come and wait to be served.
    pub events: Vec<u64>,
    /// Where the loop stands.
    pub stage: Stage,
}

/// The model of the control loop.
pub struct LoopView {
    /// The monitor.
    pub monitor: Monitor,
    /// The numbers of the events that have come and wait to be served.
    pub events: Seq<u64>,
    /// Where the loop stands.
    pub stage: Stage,
}

impl View for ControlLoop {
    type V = LoopView;

    open spec fn view(&self) -> LoopView {
        LoopView { monitor: self.vmm@, events: self.events@, stage: self.stage }
    }
}

impl LoopView {
    /// Whether the monitor is in the middle of a request exactly where the
    /// loop waits for one, and the counts are those of requests to come.
    pub open spec fn wf(self) -> bool {
        match self.stage {
            Stage::ShuttingDown => fails_plainly(self.monitor),
            Stage::Rebooting => fails_plainly(self.monitor),
            Stage::ReceivingApi(n) => n > 0 && self.monitor.idle(),
            Stage::ServingApi(n) => n > 0,
            Stage::ReceivingDebug(n) => n > 0 && self.monitor.idle(),
            Stage::Debugging(n) => n > 0 && self.monitor.idle(),
            Stage::AnsweringDebug(n) => n > 0 && self.monitor.idle(),
            Stage::Over => true,
            _ => self.monitor.idle(),
        }
    }
}

/// The loop in another place.
pub open spec fn standing(c: LoopView, stage: Stage) -> LoopView {
    LoopView { stage, ..c }
}

/// The loop, and what comes next, where the host is asked for something.
pub open spec fn asking_host(
    c: LoopView,
    stage: Stage,
    action: LoopAction,
) -> (LoopView, LoopStep) {
    (standing(c, stage), LoopStep::Perform(action))
}

/// The loop, and what comes next, where an error ends it. Nothing is tidied up.
pub open spec fn ended(c: LoopView, error: Error) -> (LoopView, LoopStep) {
    (standing(c, Stage::Over), LoopStep::Done(Err(error)))
}

/// Whether an event is served at all: not one that the loop does not know, nor
/// an activation without a machine, nor a debugger that the monitor was not
/// built for.
pub open spec fn is_served(m: Monitor, event: EpollDispatch) -> bool {
    match event {
        EpollDispatch::Unknown => false,
        EpollDispatch::ActivateVirtioDevices => m.vm is Some,
        EpollDispatch::Debug => m.build.features.guest_debug,
        _ => true,
    }
}

/// The loop, and what comes next, once an event has been served: the next
/// event that is served is consumed, and after the last one the loop waits.
pub open spec fn dispatched(c: LoopView) -> (LoopView, LoopStep)
    decreases c.events.len(),
{
    if c.events.len() == 0 {
        asking_host(c, Stage::Waiting, LoopAction::Wait)
    } else {
        let event = EpollDispatch::of_index(c.events[0]);
        let rest = LoopView { events: c.events.drop_first(), ..c };
        if is_served(c.monitor, event) {
            asking_host(rest, Stage::Consuming(event), LoopAction::Consume(event))
        } else {
            dispatched(rest)
        }
    }
}

/// The loop, and what comes next, while so many API requests are to come.
pub open spec fn api_requests(c: LoopView, n: u64) -> (LoopView, LoopStep) {
    if n == 0 {
        dispatched(c)
    } else {
        asking_host(c, Stage::ReceivingApi(n), LoopAction::ReceiveApiRequest)
    }
}

/// The loop, and what comes next, while so many requests of the debugger are
/// to come.
pub open spec fn debug_requests(c: LoopView, n: u64) -> (LoopView, LoopStep) {
    if n == 0 {
        dispatched(c)
    } else {
        asking_host(c, Stage::ReceivingDebug(n), LoopAction::ReceiveDebugRequest)
    }
}

/// The loop, and what comes next, while there are threads to wait for.
pub open spec fn joining(c: LoopView) -> (LoopView, LoopStep) {
    if c.monitor.threads == 0 {
        (standing(c, Stage::Over), LoopStep::Done(Ok(())))
    } else {
        asking_host(
            LoopView {
                monitor: Monitor { threads: (c.monitor.threads - 1) as nat, ..c.monitor },
                ..c
            },
            Stage::Joining,
            LoopAction::JoinThread,
        )
    }
}

/// The loop, and what comes next, where it is left: signals are no longer
/// handled, and the threads are waited for.
pub open spec fn leaving(c: LoopView) -> (LoopView, LoopStep) {
    if c.monitor.signals {
        asking_host(
            LoopView { monitor: Monitor { signals: false, ..c.monitor }, ..c },
            Stage::Closing,
            LoopAction::CloseSignals,
        )
    } else {
        joining(c)
    }
}

/// The error that ends the loop where its request on the monitor fails.
pub open spec fn request_error(stage: Stage, failure: Failure) -> Error {
    if stage is ShuttingDown {
        Error::VmmShutdown(failure->Vm_0)
    } else {
        Error::VmReboot(failure->Vm_0)
    }
}

/// The loop, and what comes next, after a step of its request on the monitor.
/// The shutdown of the monitor ends the loop.
pub open spec fn requested(c: LoopView, next: (Monitor, StepView)) -> (LoopView, LoopStep) {
    let c = LoopView { monitor: next.0, ..c };
    match next.1 {
        StepView::Perform(action) => (c, LoopStep::Perform(LoopAction::Perform(action))),
        StepView::Done(Ok(_)) => if c.stage is ShuttingDown {
            leaving(c)
        } else {
            dispatched(c)
        },
        StepView::Done(Err(failure)) => ended(c, request_error(c.stage, failure)),
    }
}

/// The loop, and what comes next, once an event was consumed.
pub open spec fn consumed(c: LoopView, event: EpollDispatch, count: u64) -> (LoopView, LoopStep) {
    match event {
        EpollDispatch::Exit => requested(
            standing(c, Stage::ShuttingDown),
            begun(c.monitor, vmm_shutdown_plan(c.monitor)),
        ),
        EpollDispatch::Reset => requested(
            standing(c, Stage::Rebooting),
            begun(c.monitor, reboot_plan(c.monitor)),
        ),
        EpollDispatch::Api => api_requests(c, count),
        EpollDispatch::ActivateVirtioDevices => asking_host(
            c,
            Stage::Activating,
            LoopAction::ActivateVirtioDevices,
        ),
        EpollDispatch::Debug => debug_requests(c, count),
        EpollDispatch::Unknown => dispatched(c),
    }
}

/// Whether an outcome is one that the loop can be handed where it stands.
pub open spec fn loop_fits(c: LoopView, outcome: LoopOutcome) -> bool {
    match (c.stage, outcome) {
        (Stage::Waiting, LoopOutcome::Events(events)) => events@.len() <= EPOLL_EVENTS_LEN,
        (Stage::Waiting, LoopOutcome::Interrupted) => true,
        (Stage::Waiting, LoopOutcome::Failed(_)) => true,
        (Stage::Consuming(_), LoopOutcome::Count(_)) => true,
        (Stage::Consuming(_), LoopOutcome::Failed(_)) => true,
        (Stage::ShuttingDown, LoopOutcome::Performed(outcome)) => fits(c.monitor, outcome),
        (Stage::Rebooting, LoopOutcome::Performed(outcome)) => fits(c.monitor, outcome),
        (Stage::Activating, LoopOutcome::Done) => true,
        (Stage::Activating, LoopOutcome::Failed(_)) => true,
        (Stage::ReceivingApi(_), LoopOutcome::Done) => true,
        (Stage::ReceivingApi(_), LoopOutcome::Failed(_)) => true,
        (Stage::ServingApi(_), LoopOutcome::Served(_)) => c.monitor.idle(),
        (Stage::ServingApi(_), LoopOutcome::Fatal(_)) => true,
        (Stage::ReceivingDebug(_), LoopOutcome::Done) => true,
        (Stage::ReceivingDebug(_), LoopOutcome::Failed(_)) => true,
        (Stage::Debugging(_), LoopOutcome::Done) => true,
        (Stage::AnsweringDebug(_), LoopOutcome::Done) => true,
        (Stage::AnsweringDebug(_), LoopOutcome::Failed(_)) => true,
        (Stage::Closing, LoopOutcome::Done) => true,
        (Stage::Joining, LoopOutcome::Done) => true,
        (Stage::Joining, LoopOutcome::Failed(_)) => true,
        _ => false,
    }
}

/// The error that ends the loop where the host fails.
pub open spec fn stage_error(stage: Stage, fault: String) -> Error {
    match stage {
        Stage::Waiting => Error::Epoll(fault),
        Stage::Activating => Error::ActivateVirtioDevices(VmError::Machine(fault)),
        Stage::ReceivingApi(_) => Error::ApiRequestRecv(fault),
        Stage::ReceivingDebug(_) => Error::GdbRequestRecv(fault),
        Stage::AnsweringDebug(_) => Error::GdbResponseSend(fault),
        Stage::Joining => Error::ThreadCleanup(fault),
        _ => Error::EventFdRead(fault),
    }
}

/// The loop, and what comes next, once the host has done what it was asked.
pub open spec fn completed(c: LoopView) -> (LoopView, LoopStep) {
    match c.stage {
        Stage::ReceivingApi(n) => asking_host(c, Stage::ServingApi(n), LoopAction::ServeApiRequest),
        Stage::ReceivingDebug(n) => if c.monitor.vm is Some {
            asking_host(c, Stage::Debugging(n), LoopAction::DebugMachine)
        } else {
            asking_host(
                c,
                Stage::AnsweringDebug(n),
                LoopAction::AnswerDebugger(Some(VmError::VmNotRunning)),
            )
        },
        Stage::Debugging(n) => asking_host(
            c,
            Stage::AnsweringDebug(n),
            LoopAction::AnswerDebugger(None),
        ),
        Stage::AnsweringDebug(n) => debug_requests(c, (n - 1) as u64),
        Stage::Closing => joining(c),
        Stage::Joining => joining(c),
        _ => dispatched(c),
    }
}

/// The loop without the threads that were not waited for, where it ends while
/// it waits for one.
pub open spec fn abandoned(c: LoopView) -> LoopView {
    if c.stage is Joining {
        LoopView { monitor: Monitor { threads: 0, ..c.monitor }, ..c }
    } else {
        c
    }
}

/// The loop, and what comes next, once the host has handed something back.
pub open spec fn loop_next(c: LoopView, outcome: LoopOutcome) -> (LoopView, LoopStep) {
    match outcome {
        LoopOutcome::Events(events) => dispatched(LoopView { events: events@, ..c }),
        LoopOutcome::Interrupted => asking_host(c, Stage::Waiting, LoopAction::Wait),
        LoopOutcome::Failed(fault) => ended(abandoned(c), stage_error(c.stage, fault)),
        LoopOutcome::Count(count) => consumed(c, c.stage->Consuming_0, count),
        LoopOutcome::Done => completed(c),
        LoopOutcome::Performed(outcome) => requested(c, advanced(c.monitor, outcome)),
        LoopOutcome::Served(true) => leaving(c),
        LoopOutcome::Served(false) => api_requests(c, (c.stage->ServingApi_0 - 1) as u64),
        LoopOutcome::Fatal(error) => ended(c, error),
    }
}

impl ControlLoop {
    /// A loop that waits for events.
    pub fn start(vmm: Vmm) -> (r: (ControlLoop, LoopStep))
        requires
            vmm@.idle(),
        ensures
            r.0.vmm == vmm,
            r.0@ == (LoopView {
                monitor: vmm@,
                events: Seq::empty(),
                stage: Stage::Waiting,
            }),
            r.0@.wf(),
            r.1 == LoopStep::Perform(LoopAction::Wait),
    {
        (
            ControlLoop { vmm, events: Vec::new(), stage: Stage::Waiting },
            LoopStep::Perform(LoopAction::Wait),
        )
    }

    /// Asks the host for something.
    fn ask(&mut self, stage: Stage, action: LoopAction) -> (step: LoopStep)
        ensures
            (final(self)@, step) == asking_host(old(self)@, stage, action),
            final(self)@.monitor == old(self)@.monitor,
    {
        self.stage = stage;
        LoopStep::Perform(action)
    }

    /// Ends the loop with an error.
    fn end(&mut self, error: Error) -> (step: LoopStep)
        ensures
            (final(self)@, step) == ended(old(self)@, error),
            final(self)@.wf(),
    {
        self.stage = Stage::Over;
        LoopStep::Done(Err(error))
    }

    /// Whether an event is served at all.
    fn serves(&self, event: EpollDispatch) -> (served: bool)
        ensures
            served == is_served(self@.monitor, event),
    {
        match event {
            EpollDispatch::Unknown => false,
            EpollDispatch::ActivateVirtioDevices => self.vmm.vm.is_some(),
            EpollDispatch::Debug => self.vmm.build.features.guest_debug,
            _ => true,
        }
    }

    /// Takes the number of the next event.
    fn next_event(&mut self) -> (number: u64)
        requires
            old(self)@.events.len() > 0,
        ensures
            number == old(self)@.events[0],
            final(self)@ == (LoopView { events: old(self)@.events.drop_first(), ..old(self)@ }),
    {
        let number: u64 = self.events.remove(0);
        assert(self.events@ =~= old(self).events@.drop_first());
        number
    }

    /// Goes on to the next event.
    fn dispatch(&mut self) -> (step: LoopStep)
        requires
            old(self)@.monitor.idle(),
        ensures
            (final(self)@, step) == dispatched(old(self)@),
            final(self)@.wf(),
    {
        while self.events.len() > 0
            invariant
                dispatched(self@) == dispatched(old(self)@),
                self@.monitor.idle(),
            decreases self@.events.len(),
        {
            let number: u64 = self.next_event();
            let event = EpollDispatch::from(number);
            if self.serves(event) {
                return self.ask(Stage::Consuming(event), LoopAction::Consume(event));
            }
        }
        self.ask(Stage::Waiting, LoopAction::Wait)
    }

    /// Receives the next of so many API requests.
    fn receive_api(&mut self, n: u64) -> (step: LoopStep)
        requires
            old(self)@.monitor.idle(),
        ensures
            (final(self)@, step) == api_requests(old(self)@, n),
            final(self)@.wf(),
    {
        if n == 0 {
            self.dispatch()
        } else {
            self.ask(Stage::ReceivingApi(n), LoopAction::ReceiveApiRequest)
        }
    }

    /// Receives the next of so many requests of the debugger.
    fn receive_debug(&mut self, n: u64) -> (step: LoopStep)
        requires
            old(self)@.monitor.idle(),
        ensures
            (final(self)@, step) == debug_requests(old(self)@, n),
            final(self)@.wf(),
    {
        if n == 0 {
            self.dispatch()
        } else {
            self.ask(Stage::ReceivingDebug(n), LoopAction::ReceiveDebugRequest)
        }
    }

    /// Waits for the next thread.
    fn join(&mut self) -> (step: LoopStep)
        requires
            old(self)@.monitor.idle(),
        ensures
            (final(self)@, step) == joining(old(self)@),
            final(self)@.wf(),
    {
        if self.vmm.threads == 0 {
            self.stage = Stage::Over;
            LoopStep::Done(Ok(()))
        } else {
            self.vmm.threads = self.vmm.threads - 1;
            self.ask(Stage::Joining, LoopAction::JoinThread)
        }
    }

    /// Leaves the loop.
    fn leave(&mut self) -> (step: LoopStep)
        requires
            old(self)@.monitor.idle(),
        ensures
            (final(self)@, step) == leaving(old(self)@),
            final(self)@.wf(),
    {
        if self.vmm.signals {
            self.vmm.signals = false;
            self.ask(Stage::Closing, LoopAction::CloseSignals)
        } else {
            self.join()
        }
    }

    /// Ends the loop, since its request on the monitor failed.
    fn fail_request(&mut self, failure: Failure) -> (step: LoopStep)
        requires
            failure is Vm,
        ensures
            (final(self)@, step) == ended(
                old(self)@,
                request_error(old(self)@.stage, failure),
            ),
            final(self)@.wf(),
    {
        let shutting_down = match self.stage {
            Stage::ShuttingDown => true,
            _ => false,
        };
        match failure {
            Failure::Vm(error) => if shutting_down {
                self.end(Error::VmmShutdown(error))
            } else {
                self.end(Error::VmReboot(error))
            },
            Failure::Migration(_) => unreached(),
        }
    }

    /// Goes on after a step of the request on the monitor.
    fn follow(&mut self, step: Step) -> (r: LoopStep)
        requires
            old(self)@.stage is ShuttingDown || old(self)@.stage is Rebooting,
            fails_plainly(old(self)@.monitor),
            step@ is Done ==> old(self)@.monitor.idle(),
            step@ matches StepView::Done(Err(failure)) ==> failure is Vm,
        ensures
            (final(self)@, r) == requested(old(self)@, (old(self)@.monitor, step@)),
            final(self)@.wf(),
    {
        match step {
            Step::Perform(action) => LoopStep::Perform(LoopAction::Perform(action)),
            Step::Done(Ok(_)) => match self.stage {
                Stage::ShuttingDown => self.leave(),
                _ => self.dispatch(),
            },
            Step::Done(Err(failure)) => self.fail_request(failure),
        }
    }

    /// Shuts the monitor down.
    fn shut_down(&mut self) -> (step: LoopStep)
        requires
            old(self)@.monitor.idle(),
        ensures
            (final(self)@, step) == consumed(old(self)@, EpollDispatch::Exit, 0),
            final(self)@.wf(),
    {
        proof {
            law_shutdown_and_reboot_fail_plainly(self@.monitor);
            law_end_leaves_no_request(
                self@.monitor,
                vmm_shutdown_plan(self@.monitor),
                Outcome::Done,
            );
        }
        self.stage = Stage::ShuttingDown;
        let step = self.vmm.vmm_shutdown();
        self.follow(step)
    }

    /// Reboots the machine.
    fn reboot(&mut self) -> (step: LoopStep)
        requires
            old(self)@.monitor.idle(),
        ensures
            (final(self)@, step) == consumed(old(self)@, EpollDispatch::Reset, 0),
            final(self)@.wf(),
    {
        proof {
            law_shutdown_and_reboot_fail_plainly(self@.monitor);
            law_end_leaves_no_request(self@.monitor, reboot_plan(self@.monitor), Outcome::Done);
        }
        self.stage = Stage::Rebooting;
        let step = self.vmm.vm_reboot();
        self.follow(step)
    }

    /// Goes on with an event that was consumed.
    fn consume(&mut self, event: EpollDispatch, count: u64) -> (step: LoopStep)
        requires
            old(self)@.monitor.idle(),
        ensures
            (final(self)@, step) == consumed(old(self)@, event, count),
            final(self)@.wf(),
    {
        match event {
            EpollDispatch::Exit => self.shut_down(),
            EpollDispatch::Reset => self.reboot(),
            EpollDispatch::Api => self.receive_api(count),
            EpollDispatch::ActivateVirtioDevices => self.ask(
                Stage::Activating,
                LoopAction::ActivateVirtioDevices,
            ),
            EpollDispatch::Debug => self.receive_debug(count),
            EpollDispatch::Unknown => self.dispatch(),
        }
    }

    /// Ends the loop, since the host failed.
    fn fail(&mut self, fault: String) -> (step: LoopStep)
        ensures
            (final(self)@, step) == ended(
                abandoned(old(self)@),
                stage_error(old(self)@.stage, fault),
            ),
            final(self)@.wf(),
    {
        let error = match self.stage {
            Stage::Waiting => Error::Epoll(fault),
            Stage::Activating => Error::ActivateVirtioDevices(VmError::Machine(fault)),
            Stage::ReceivingApi(_) => Error::ApiRequestRecv(fault),
            Stage::ReceivingDebug(_) => Error::GdbRequestRecv(fault),
            Stage::AnsweringDebug(_) => Error::GdbResponseSend(fault),
            Stage::Joining => {
                self.vmm.threads = 0;
                Error::ThreadCleanup(fault)
            },
            _ => Error::EventFdRead(fault),
        };
        self.end(error)
    }

    /// Hands a request of the debugger to the machine, where there is one.
    fn debug(&mut self, n: u64) -> (step: LoopStep)
        requires
            old(self)@.stage == Stage::ReceivingDebug(n),
            old(self)@.wf(),
        ensures
            (final(self)@, step) == completed(old(self)@),
            final(self)@.wf(),
    {
        if self.vmm.vm.is_some() {
            self.ask(Stage::Debugging(n), LoopAction::DebugMachine)
        } else {
            self.ask(
                Stage::AnsweringDebug(n),
                LoopAction::AnswerDebugger(Some(VmError::VmNotRunning)),
            )
        }
    }

    /// Goes on once the host has done what it was asked.
    fn complete(&mut self) -> (step: LoopStep)
        requires
            old(self)@.wf(),
            loop_fits(old(self)@, LoopOutcome::Done),
        ensures
            (final(self)@, step) == completed(old(self)@),
            final(self)@.wf(),
    {
        match self.stage {
            Stage::ReceivingApi(n) => self.ask(Stage::ServingApi(n), LoopAction::ServeApiRequest),
            Stage::ReceivingDebug(n) => self.debug(n),
            Stage::Debugging(n) => self.ask(
                Stage::AnsweringDebug(n),
                LoopAction::AnswerDebugger(None),
            ),
            Stage::AnsweringDebug(n) => self.receive_debug(n - 1),
            Stage::Closing => self.join(),
            Stage::Joining => self.join(),
            _ => self.dispatch(),
        }
    }

    /// Goes on with the request on the monitor.
    fn performed(&mut self, outcome: Outcome) -> (step: LoopStep)
        requires
            old(self)@.wf(),
            loop_fits(old(self)@, LoopOutcome::Performed(outcome)),
        ensures
            (final(self)@, step) == loop_next(old(self)@, LoopOutcome::Performed(outcome)),
            final(self)@.wf(),
    {
        proof {
            lemma_advanced_plainly(self@.monitor, outcome);
            law_end_leaves_no_request(self@.monitor, Seq::empty(), outcome);
        }
        let step = self.vmm.resume(outcome);
        self.follow(step)
    }

    /// Goes on after an API request was served.
    fn served(&mut self, exit: bool) -> (step: LoopStep)
        requires
            old(self)@.wf(),
            loop_fits(old(self)@, LoopOutcome::Served(exit)),
        ensures
            (final(self)@, step) == loop_next(old(self)@, LoopOutcome::Served(exit)),
            final(self)@.wf(),
    {
        match self.stage {
            Stage::ServingApi(n) => if exit {
                self.leave()
            } else {
                self.receive_api(n - 1)
            },
            _ => unreached(),
        }
    }

    /// Goes on with what the host hands back.
    pub fn advance(&mut self, outcome: LoopOutcome) -> (step: LoopStep)
        requires
            old(self)@.wf(),
            loop_fits(old(self)@, outcome),
        ensures
            (final(self)@, step) == loop_next(old(self)@, outcome),
            final(self)@.wf(),
    {
        match outcome {
            LoopOutcome::Events(events) => {
                self.events = events;
                self.dispatch()
            },
            LoopOutcome::Interrupted => self.ask(Stage::Waiting, LoopAction::Wait),
            LoopOutcome::Failed(fault) => self.fail(fault),
            LoopOutcome::Count(count) => match self.stage {
                Stage::Consuming(event) => self.consume(event, count),
                _ => unreached(),
            },
            LoopOutcome::Done => self.complete(),
            LoopOutcome::Performed(outcome) => self.performed(outcome),
            LoopOutcome::Served(exit) => self.served(exit),
            LoopOutcome::Fatal(error) => self.end(error),
        }
    }
}

} // verus!
