//! The engine: it runs the plan of a request, up to what the host is asked for,
//! and goes on with the outcome.

use vstd::prelude::*;
use crate::config::{RestoredNetConfig, VmConfig};
use crate::device::{encoded_reply, PciDeviceInfo};
use crate::endpoint::{endpoint, endpoint_of, Endpoint};
use crate::error::{Cause, Context, Failure, MigratableError, VmError};
use crate::lifecycle::{plan_delete, plan_restored};
use crate::migration::{
    add_file, at_endpoint, is_taken, plan_abort, plan_answer_error, plan_apic, plan_dirty, plan_length,
    plan_migrated, plan_not_taken, plan_paused, plan_send, plan_send_refusal, plan_table,
    plan_taken, read_slot_number, send_began, served, session_after, with_slot,
};
use crate::model::{
    advanced, after, applied, begun, failed, fits, recovery_plan, settled, Monitor,
    Waiting,
};
use crate::plan::{
    wrap_fault, Action, Change, Command, Expect, Outcome, Phase, Recovery, Reply, Step, StepView,
    VmSendMigrationData, VmState, Wrap,
};
use crate::vmm::Vmm;

verus! {

/// A bound on the phases that are run before the host is asked for anything:
/// the rest of the plan and, as long as the request has not failed, what may
/// follow a failure.
spec fn left(m: Monitor) -> nat {
    m.plan.len() + if m.pending is None {
        7nat
    } else {
        0nat
    }
}

/// A change leaves the plan as it is.
proof fn lemma_change_keeps_plan(m: Monitor, change: Change)
    ensures
        applied(m, change).plan == m.plan,
        applied(m, change).pending == m.pending,
{
}

impl Vmm {
    /// What is still to be done once the request has failed.
    fn plan_recovery(&self) -> (plan: Vec<Phase>)
        ensures
            plan@ == recovery_plan(self@),
    {
        match self.job.recovery {
            Recovery::Nothing => Vec::new(),
            Recovery::DeleteVm => plan_delete(self),
            Recovery::AnswerError => plan_answer_error(),
            Recovery::AbortSend { local } => plan_abort(local),
        }
    }

    /// Lets the request fail.
    fn fail(&mut self, failure: Failure)
        ensures
            final(self)@ == failed(old(self)@, failure),
    {
        let plan: Vec<Phase> = if self.job.pending.is_none() {
            self.plan_recovery()
        } else {
            Vec::new()
        };
        self.job.plan = plan;
        self.job.pending = Some(failure);
        self.job.recovery = Recovery::Nothing;
    }

    /// Puts some phases before those to come.
    fn then_do(&mut self, phases: Vec<Phase>)
        ensures
            final(self)@ == old(self)@.then_do(phases@),
    {
        let mut plan: Vec<Phase> = phases;
        plan.append(&mut self.job.plan);
        self.job.plan = plan;
    }

    /// Ends the request.
    fn finish(&mut self) -> (step: Step)
        requires
            old(self)@.plan.len() == 0,
        ensures
            (final(self)@, step@) == settled(old(self)@),
    {
        let pending = self.job.pending.take();
        let step = match pending {
            Some(failure) => Step::Done(Err(failure)),
            None => {
                let mut reply = Reply::Done;
                std::mem::swap(&mut reply, &mut self.job.reply);
                Step::Done(Ok(reply))
            },
        };
        self.rest();
        step
    }

    /// Takes the next phase off the plan.
    fn next_phase(&mut self) -> (phase: Phase)
        requires
            old(self)@.plan.len() > 0,
        ensures
            phase == old(self)@.plan[0],
            final(self)@ == (Monitor { plan: old(self)@.plan.drop_first(), ..old(self)@ }),
    {
        let phase = self.job.plan.remove(0);
        assert(self.job.plan@ =~= old(self).job.plan@.drop_first());
        phase
    }

    /// Awaits an outcome.
    fn await_outcome(&mut self, expect: Expect, wrap: Wrap)
        ensures
            final(self)@ == (Monitor {
                waiting: Some(Waiting { expect, wrap }),
                ..old(self)@
            }),
    {
        self.job.waiting = Some(Waiting { expect, wrap });
    }

    /// Runs the next phase, where there is one that the host is not asked for.
    fn run_phase(&mut self) -> (asked: Option<Action>)
        requires
            old(self)@.plan.len() > 0,
        ensures
            match asked {
                Some(action) => (final(self)@, StepView::Perform(action)) == settled(old(self)@),
                None => settled(final(self)@) == settled(old(self)@) && left(final(self)@) < left(
                    old(self)@,
                ),
            },
    {
        match self.next_phase() {
            Phase::Ask(action, expect, wrap) => {
                self.await_outcome(expect, wrap);
                Some(action)
            },
            Phase::Apply(change) => {
                proof {
                    lemma_change_keeps_plan(self@, change);
                }
                self.apply(change);
                None
            },
            Phase::Fail(failure) => {
                self.fail(failure);
                None
            },
        }
    }

    /// Runs the plan up to the next phase that the host is asked for, or to
    /// the end.
    fn settle(&mut self) -> (step: Step)
        ensures
            (final(self)@, step@) == settled(old(self)@),
    {
        while self.job.plan.len() > 0
            invariant
                settled(self@) == settled(old(self)@),
            decreases left(self@),
        {
            if let Some(action) = self.run_phase() {
                return Step::Perform(action);
            }
        }
        self.finish()
    }

    /// Takes up a plan.
    pub(crate) fn begin(&mut self, plan: Vec<Phase>) -> (step: Step)
        ensures
            (final(self)@, step@) == begun(old(self)@, plan@),
    {
        self.job.plan = plan;
        self.settle()
    }

    /// Fails, since the peer said no.
    fn refused(&mut self, context: Context)
        ensures
            final(self)@ == after(old(self)@, Expect::Answer(context), Outcome::Refused),
    {
        self.fail(
            Failure::Migration(MigratableError::MigrateSend(Cause { context, detail: None })),
        );
    }

    /// Considers a configuration to restore.
    fn restored_config(
        &mut self,
        config: VmConfig,
        url: String,
        prefault: bool,
        net_fds: Option<Vec<RestoredNetConfig>>,
    )
        ensures
            final(self)@ == after(
                old(self)@,
                Expect::RestoredConfig { url, prefault, net_fds },
                Outcome::Config(config),
            ),
    {
        let plan = plan_restored(&self.build, &config, url, prefault, net_fds);
        self.job.candidate = Some(config);
        self.then_do(plan);
    }

    /// Considers a configuration that a migration brought.
    fn migrated_config(&mut self, config: VmConfig)
        ensures
            final(self)@ == after(old(self)@, Expect::MigratedConfig, Outcome::Config(config)),
    {
        let plan = plan_migrated(&self.build, &config);
        self.job.candidate = Some(config);
        self.then_do(plan);
    }

    /// Reports the machine's state.
    fn state_read(&mut self, state: VmState)
        ensures
            final(self)@ == after(old(self)@, Expect::State, Outcome::State(state)),
    {
        self.job.draft.state = state;
    }

    /// Reports the configured memory.
    fn memory_measured(&mut self, size: u64)
        ensures
            final(self)@ == after(old(self)@, Expect::MemorySize, Outcome::Number(size)),
    {
        self.job.draft.size = size;
    }

    /// Takes the balloon off the memory that is reported.
    fn balloon_read(&mut self, size: u64)
        requires
            size <= old(self)@.draft.size,
        ensures
            final(self)@ == after(old(self)@, Expect::BalloonSize, Outcome::Number(size)),
    {
        self.job.draft.size = self.job.draft.size - size;
    }

    /// Reports the device tree.
    fn device_tree_read(&mut self, text: String)
        ensures
            final(self)@ == after(old(self)@, Expect::DeviceTree, Outcome::Text(text)),
    {
        self.job.draft.device_tree = Some(text);
    }

    /// Answers with bytes, or fails.
    fn answer_with(&mut self, encoded: Result<Vec<u8>, String>)
        ensures
            match encoded {
                Ok(bytes) => final(self)@ == after(
                    old(self)@,
                    Expect::Data,
                    Outcome::Bytes(bytes),
                ),
                Err(e) => final(self)@ == failed(
                    old(self)@,
                    Failure::Vm(VmError::SerializeJson(e)),
                ),
            },
    {
        match encoded_reply(encoded) {
            Ok(data) => {
                self.job.reply = Reply::Data(data);
            },
            Err(e) => self.fail(Failure::Vm(e)),
        }
    }

    /// Answers with the device that was added.
    fn device_added(&mut self, info: PciDeviceInfo)
        ensures
            final(self)@ == after(old(self)@, Expect::Device, Outcome::Device(info)),
    {
        self.answer_with(info.to_json());
    }

    /// Takes the configuration without the device that was removed.
    fn device_removed(&mut self, id: String, config: VmConfig)
        ensures
            final(self)@ == after(old(self)@, Expect::Removal(id), Outcome::Removed(config)),
    {
        self.vm_config = Some(config);
    }

    /// Fails, since there is no such device.
    fn device_missing(&mut self, id: String)
        ensures
            final(self)@ == after(old(self)@, Expect::Removal(id), Outcome::Missing),
    {
        self.fail(Failure::Vm(VmError::NoDeviceToRemove(id)));
    }

    /// The configuration that the machine has.
    pub fn machine_config(&self) -> (config: Option<&VmConfig>)
        ensures
            match config {
                Some(config) => self@.machine_config() == Some(config@),
                None => self@.machine_config() is None,
            },
    {
        match &self.vm {
            Some(machine) => match &machine.config {
                Some(config) => Some(config),
                None => self.vm_config.as_ref(),
            },
            None => self.vm_config.as_ref(),
        }
    }

    /// Sets the session's socket.
    pub(crate) fn set_endpoint(&mut self, url: &String) -> (socket: Result<Endpoint, MigratableError>)
        ensures
            match socket {
                Ok(endpoint) => endpoint_of(url@) == Some(endpoint@),
                Err(_) => endpoint_of(url@) is None,
            },
            final(self)@ == at_endpoint(old(self)@, url@),
    {
        let socket = endpoint(url);
        self.job.session.endpoint = match &socket {
            Ok(endpoint) => Some(endpoint.clone()),
            Err(_) => None,
        };
        socket
    }

    /// Sends the machine away, once it is known whether its memory can be
    /// shared.
    fn begin_send(&mut self, data: VmSendMigrationData, shared: bool)
        ensures
            final(self)@ == send_began(old(self)@, data, shared),
    {
        proof {
            reveal(send_began);
        }
        if !shared && data.local {
            self.then_do(plan_send_refusal(Context::LocalNeedsSharedMemory));
        } else if self.vm.is_none() || self.machine_config().is_none() {
            self.then_do(plan_send_refusal(Context::NotRunning));
        } else {
            let socket = self.set_endpoint(&data.destination_url);
            if let Some(config) = self.machine_config() {
                let plan = plan_send(&self.build, config, &socket, data);
                self.then_do(plan);
            }
        }
    }

    /// Notes in the session that it takes a request of the peer.
    fn advance_session(&mut self, command: Command)
        ensures
            final(self)@ == (Monitor {
                session: session_after(old(self)@.session, command),
                ..old(self)@
            }),
    {
        match command {
            Command::Start => {
                self.job.session.started = true;
            },
            Command::Config => {
                self.job.session.granted_files = self.job.session.memory_files.take();
            },
            Command::State => {
                self.job.session.memory_manager = false;
            },
            _ => {},
        }
    }

    /// Serves a request of the peer.
    fn serve(&mut self, command: Command, length: u64)
        ensures
            final(self)@ == served(old(self)@, command, length),
    {
        proof {
            reveal(served);
        }
        if is_taken(&self.job.session, command) {
            let plan = plan_taken(self, command, length);
            self.advance_session(command);
            self.then_do(plan);
        } else {
            self.then_do(plan_not_taken());
        }
    }

    /// Takes the file of a memory slot.
    fn file_received(&mut self, bytes: [u8; 4], fd: i32)
        ensures
            final(self)@ == with_slot(old(self)@, bytes@, fd),
    {
        add_file(&mut self.job.session.memory_files, read_slot_number(&bytes), fd);
    }

    /// Goes on with a configuration that the host has read.
    fn take_config(&mut self, expect: Expect, config: VmConfig)
        ensures
            final(self)@ == after(old(self)@, expect, Outcome::Config(config)),
    {
        match expect {
            Expect::RestoredConfig { url, prefault, net_fds } => self.restored_config(
                config,
                url,
                prefault,
                net_fds,
            ),
            Expect::MigratedConfig => self.migrated_config(config),
            _ => {},
        }
    }

    /// Goes on with a number.
    fn take_number(&mut self, expect: Expect, number: u64)
        requires
            expect is BalloonSize ==> number <= old(self)@.draft.size,
        ensures
            final(self)@ == after(old(self)@, expect, Outcome::Number(number)),
    {
        match expect {
            Expect::MemorySize => self.memory_measured(number),
            Expect::BalloonSize => self.balloon_read(number),
            Expect::ApicId => self.then_do(plan_apic(number)),
            Expect::Length(command) => self.then_do(plan_length(command, number)),
            _ => {},
        }
    }

    /// Goes on with a state of the machine.
    fn take_state(&mut self, expect: Expect, state: VmState)
        ensures
            final(self)@ == after(old(self)@, expect, Outcome::State(state)),
    {
        match expect {
            Expect::State => self.state_read(state),
            Expect::Paused => self.then_do(plan_paused(state)),
            _ => {},
        }
    }

    /// Goes on with a table of memory.
    fn take_table(&mut self, expect: Expect, regions: u64, length: u64)
        ensures
            final(self)@ == after(old(self)@, expect, Outcome::Table(regions, length)),
    {
        match expect {
            Expect::Table => self.then_do(plan_table(length)),
            Expect::Dirty(passes) => self.then_do(plan_dirty(passes, regions, length)),
            _ => {},
        }
    }

    /// Goes on with an outcome that is no failure.
    fn take_outcome(&mut self, expect: Expect, outcome: Outcome)
        requires
            expect is BalloonSize && outcome is Number ==> outcome->Number_0 <= old(
                self,
            )@.draft.size,
        ensures
            final(self)@ == after(old(self)@, expect, outcome),
    {
        match outcome {
            Outcome::Config(config) => self.take_config(expect, config),
            Outcome::Number(number) => self.take_number(expect, number),
            Outcome::State(state) => self.take_state(expect, state),
            Outcome::Table(regions, length) => self.take_table(expect, regions, length),
            outcome => match (expect, outcome) {
                (Expect::Answer(context), Outcome::Refused) => self.refused(context),
                (Expect::DeviceTree, Outcome::Text(text)) => self.device_tree_read(text),
                (Expect::Device, Outcome::Device(info)) => self.device_added(info),
                (Expect::Data, Outcome::Bytes(bytes)) => self.answer_with(Ok(bytes)),
                (Expect::Removal(id), Outcome::Removed(config)) => self.device_removed(id, config),
                (Expect::Removal(id), Outcome::Missing) => self.device_missing(id),
                (Expect::SharedMemory(data), Outcome::Flag(shared)) => self.begin_send(
                    data,
                    shared,
                ),
                (Expect::Request, Outcome::Request(command, length)) => self.serve(command, length),
                (Expect::MemoryFile, Outcome::File(bytes, fd)) => self.file_received(bytes, fd),
                _ => {},
            },
        }
    }

    /// Whether an outcome is one that the awaited action can have.
    pub fn accepts(&self, outcome: &Outcome) -> (accepted: bool)
        ensures
            accepted == fits(self@, *outcome),
    {
        match &self.job.waiting {
            None => false,
            Some(waiting) => match (&waiting.expect, outcome) {
                (_, Outcome::Failed(_)) => waiting.wrap != Wrap::Never,
                (Expect::Done, Outcome::Done) => true,
                (Expect::Answer(_), Outcome::Done) => true,
                (Expect::Answer(_), Outcome::Refused) => true,
                (Expect::RestoredConfig { .. }, Outcome::Config(_)) => true,
                (Expect::MigratedConfig, Outcome::Config(_)) => true,
                (Expect::State, Outcome::State(_)) => true,
                (Expect::MemorySize, Outcome::Number(_)) => true,
                (Expect::BalloonSize, Outcome::Number(size)) => *size <= self.job.draft.size,
                (Expect::DeviceTree, Outcome::Text(_)) => true,
                (Expect::Device, Outcome::Device(_)) => true,
                (Expect::Data, Outcome::Bytes(_)) => true,
                (Expect::Removal(_), Outcome::Removed(_)) => true,
                (Expect::Removal(_), Outcome::Missing) => true,
                (Expect::SharedMemory(_), Outcome::Flag(_)) => true,
                (Expect::Request, Outcome::Request(_, _)) => true,
                (Expect::ApicId, Outcome::Number(_)) => true,
                (Expect::MemoryFile, Outcome::File(_, _)) => true,
                (Expect::Length(_), Outcome::Number(_)) => true,
                (Expect::Table, Outcome::Table(_, _)) => true,
                (Expect::Dirty(_), Outcome::Table(_, _)) => true,
                (Expect::Paused, Outcome::State(_)) => true,
                _ => false,
            },
        }
    }

    /// Stops awaiting an outcome.
    fn awaited(&mut self) -> (waiting: Option<Waiting>)
        ensures
            waiting == old(self)@.waiting,
            final(self)@ == (Monitor { waiting: None, ..old(self)@ }),
    {
        self.job.waiting.take()
    }

    /// Goes on with the request, now that the outcome of what the host was
    /// asked for is there.
    pub fn resume(&mut self, outcome: Outcome) -> (step: Step)
        requires
            fits(old(self)@, outcome),
        ensures
            (final(self)@, step@) == advanced(old(self)@, outcome),
    {
        if let Some(waiting) = self.awaited() {
            match outcome {
                Outcome::Failed(fault) => {
                    if waiting.wrap != Wrap::Ignore {
                        self.fail(wrap_fault(waiting.wrap, fault));
                    }
                },
                outcome => self.take_outcome(waiting.expect, outcome),
            }
        }
        self.settle()
    }
}

} // verus!
