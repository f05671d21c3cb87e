//! The model of the monitor: what it knows, and how its requests unfold.

use vstd::prelude::*;
use crate::config::{
    items, resized, with_device, with_net_fds, zone_resized, VmConfigView,
};
use crate::device::json_of_device;
use crate::endpoint::EndpointView;
use crate::error::{Failure, VmError};
use crate::features::{Build, VmmVersionInfo};
use crate::lifecycle::{delete_plan, restored_plan};
use crate::migration::{
    abort_plan, answer_error_plan, apic_plan, dirty_plan, length_plan, migrated_plan, paused_plan,
    send_began, served, table_plan, with_slot,
};
use crate::plan::{
    send_error, wrapped, Action, Change, Expect, Notice, Outcome, Phase, Recovery, ReplyView,
    StepView, VmSource, VmState, Wrap,
};

verus! {

/// A report that is being drawn up.
#[derive(Debug, PartialEq, Eq)]
pub struct Draft {
    /// The state of the machine.
    pub state: VmState,
    /// The size of the memory.
    pub size: u64,
    /// The device tree.
    pub device_tree: Option<String>,
}

/// An outcome that is awaited.
#[derive(Debug, PartialEq, Eq)]
pub struct Waiting {
    /// What is done with it.
    pub expect: Expect,
    /// What a failure is reported as.
    pub wrap: Wrap,
}

/// The model of a migration's session.
pub struct SessionView {
    /// The socket.
    pub endpoint: Option<EndpointView>,
    /// Whether the peer has started the migration.
    pub started: bool,
    /// Whether there is a memory manager for the machine to come.
    pub memory_manager: bool,
    /// The files that have come, by their memory slots, where any have.
    pub memory_files: Option<Map<u32, i32>>,
    /// The files that the memory manager is made from.
    pub granted_files: Option<Map<u32, i32>>,
}

/// The model of the monitor.
pub struct Monitor {
    /// The version.
    pub version: VmmVersionInfo,
    /// What the monitor was built for.
    pub build: Build,
    /// The machine, with its configuration where that is no longer the
    /// monitor's.
    pub vm: Option<Option<VmConfigView>>,
    /// The configuration.
    pub vm_config: Option<VmConfigView>,
    /// Whether there are console devices.
    pub console_info: bool,
    /// Whether signals are handled.
    pub signals: bool,
    /// How many threads are to be waited for at the end.
    pub threads: nat,
    /// What was announced.
    pub notices: Seq<Notice>,
    /// A configuration that the request in progress considers.
    pub candidate: Option<VmConfigView>,
    /// A machine that the request in progress has let go of.
    pub retired: Option<Option<VmConfigView>>,
    /// The phases to come.
    pub plan: Seq<Phase>,
    /// The outcome that is awaited.
    pub waiting: Option<Waiting>,
    /// What follows a failure.
    pub recovery: Recovery,
    /// The failure, where the request has failed.
    pub pending: Option<Failure>,
    /// What the request answers where it succeeds.
    pub reply: ReplyView,
    /// The report that the request draws up.
    pub draft: Draft,
    /// The migration that the request serves.
    pub session: SessionView,
}

/// No session.
pub open spec fn no_session() -> SessionView {
    SessionView {
        endpoint: None,
        started: false,
        memory_manager: false,
        memory_files: None,
        granted_files: None,
    }
}

/// A report that nothing is known of yet.
pub open spec fn blank() -> Draft {
    Draft { state: VmState::Created, size: 0, device_tree: None }
}

impl Monitor {
    /// The monitor without the request in progress.
    pub open spec fn at_rest(self) -> Monitor {
        Monitor {
            candidate: None,
            retired: None,
            plan: Seq::empty(),
            waiting: None,
            recovery: Recovery::Nothing,
            pending: None,
            reply: ReplyView::Done,
            draft: blank(),
            session: no_session(),
            ..self
        }
    }

    /// Whether no request is in progress.
    pub open spec fn idle(self) -> bool {
        self == self.at_rest()
    }

    /// The configuration that the machine has.
    pub open spec fn machine_config(self) -> Option<VmConfigView> {
        match self.vm {
            Some(Some(config)) => Some(config),
            _ => self.vm_config,
        }
    }

    /// The configuration of the machine that the request in progress creates.
    pub open spec fn creation_config(self) -> Option<VmConfigView> {
        match self.retired {
            Some(Some(config)) => Some(config),
            _ => self.vm_config,
        }
    }

    /// The monitor with some phases before those to come.
    pub open spec fn then_do(self, phases: Seq<Phase>) -> Monitor {
        Monitor { plan: phases + self.plan, ..self }
    }
}

/// Whether an action works on the monitor's configuration, whatever machine
/// there is: those that prepare a machine to come.
pub open spec fn works_on_config(action: Action) -> bool {
    match action {
        Action::CreateConsole => true,
        Action::ApplyLandlock => true,
        Action::CreateVm(VmSource::Migration) => true,
        Action::RestoreVm => true,
        _ => false,
    }
}

/// The monitor with another configuration in place of its own.
pub open spec fn with_stored_config(m: Monitor, config: VmConfigView) -> Monitor {
    Monitor {
        vm_config: match m.vm_config {
            Some(_) => Some(config),
            None => None,
        },
        ..m
    }
}

/// The monitor once an action of the host has changed the configuration that
/// it worked on: that of the machine, or of the machine that the request has
/// let go of, where it has one of its own, and otherwise the monitor's.
pub open spec fn with_changed_config(m: Monitor, action: Action, config: VmConfigView) -> Monitor {
    if works_on_config(action) {
        with_stored_config(m, config)
    } else {
        match (m.vm, m.retired) {
            (Some(Some(_)), _) => Monitor { vm: Some(Some(config)), ..m },
            (None, Some(Some(_))) => Monitor { retired: Some(Some(config)), ..m },
            _ => with_stored_config(m, config),
        }
    }
}

/// The monitor after a change.
pub open spec fn applied(m: Monitor, change: Change) -> Monitor {
    match change {
        Change::Note(notice) => Monitor { notices: m.notices.push(notice), ..m },
        Change::StoreConfig(config) => Monitor { vm_config: Some(config@), ..m },
        Change::ClearConfig => Monitor { vm_config: None, ..m },
        Change::InstallCandidate => Monitor {
            vm: match m.vm {
                Some(None) => Some(m.vm_config),
                _ => m.vm,
            },
            vm_config: m.candidate,
            candidate: None,
            ..m
        },
        Change::AdoptNetFds(restored) => Monitor {
            candidate: match m.candidate {
                Some(config) => Some(with_net_fds(config, items(restored))),
                None => None,
            },
            ..m
        },
        Change::ConsoleReady => Monitor { console_info: true, ..m },
        Change::DrainConsole => Monitor { console_info: false, ..m },
        Change::InstallVm => Monitor { vm: Some(None), ..m },
        Change::RetireVm => Monitor { vm: None, retired: m.vm, ..m },
        Change::ReinstallVm => Monitor { vm: m.retired, retired: None, ..m },
        Change::Forget => Monitor { vm: None, vm_config: None, ..m },
        Change::AddDevice(device) => Monitor {
            vm_config: match m.vm_config {
                Some(config) => Some(with_device(config, device)),
                None => None,
            },
            ..m
        },
        Change::Resize(sizes) => Monitor {
            vm_config: match m.vm_config {
                Some(config) => Some(resized(config, sizes.vcpus, sizes.ram, sizes.balloon)),
                None => None,
            },
            ..m
        },
        Change::ResizeZone(id, ram) => Monitor {
            vm_config: match m.vm_config {
                Some(config) => Some(zone_resized(config, id@, ram)),
                None => None,
            },
            ..m
        },
        Change::NoData => Monitor { reply: ReplyView::Data(None), ..m },
        Change::Report => match m.vm_config {
            Some(config) => Monitor {
                reply: ReplyView::Info {
                    config,
                    state: m.draft.state,
                    memory_actual_size: m.draft.size,
                    device_tree: m.draft.device_tree,
                },
                ..m
            },
            None => m,
        },
        Change::MemoryManagerReady => Monitor {
            session: SessionView { memory_manager: true, ..m.session },
            ..m
        },
        Change::OnFailure(recovery) => Monitor { recovery, ..m },
    }
}

/// What is still to be done once a request has failed.
pub open spec fn recovery_plan(m: Monitor) -> Seq<Phase> {
    match m.recovery {
        Recovery::Nothing => Seq::empty(),
        Recovery::DeleteVm => delete_plan(m),
        Recovery::AnswerError => answer_error_plan(),
        Recovery::AbortSend { local } => abort_plan(local),
    }
}

/// The monitor after a failure: what was planned is dropped for what follows a
/// failure. A failure of that is reported in place of the first, and ends it.
pub open spec fn failed(m: Monitor, failure: Failure) -> Monitor {
    Monitor {
        plan: if m.pending is None {
            recovery_plan(m)
        } else {
            Seq::empty()
        },
        pending: Some(failure),
        recovery: Recovery::Nothing,
        ..m
    }
}

/// The monitor, and what comes next, once it has done what it can do itself:
/// up to the next phase that the host is asked for, or to the end.
pub open spec fn settled(m: Monitor) -> (Monitor, StepView)
    decreases
            (if m.pending is None {
                1nat
            } else {
                0nat
            }),
            m.plan.len(),
{
    if m.plan.len() == 0 {
        (
            m.at_rest(),
            match m.pending {
                Some(failure) => StepView::Done(Err(failure)),
                None => StepView::Done(Ok(m.reply)),
            },
        )
    } else {
        let rest = Monitor { plan: m.plan.drop_first(), ..m };
        match m.plan[0] {
            Phase::Ask(action, expect, wrap) => (
                Monitor { waiting: Some(Waiting { expect, wrap }), ..rest },
                StepView::Perform(action),
            ),
            Phase::Apply(change) => settled(applied(rest, change)),
            Phase::Fail(failure) => settled(failed(rest, failure)),
        }
    }
}

/// The monitor, and what comes next, once it has taken up a plan.
pub open spec fn begun(m: Monitor, plan: Seq<Phase>) -> (Monitor, StepView) {
    settled(Monitor { plan, ..m })
}

/// How a request on the machine ends that fails with an error.
pub open spec fn refusal(error: VmError) -> StepView {
    StepView::Done(Err(Failure::Vm(error)))
}

/// Whether an outcome is one that the awaited action can have.
pub open spec fn fits(m: Monitor, outcome: Outcome) -> bool {
    m.waiting matches Some(waiting) && match (waiting.expect, outcome) {
        (_, Outcome::Failed(_)) => waiting.wrap != Wrap::Never,
        (Expect::Done, Outcome::Done) => true,
        (Expect::Answer(_), Outcome::Done) => true,
        (Expect::Answer(_), Outcome::Refused) => true,
        (Expect::RestoredConfig { .. }, Outcome::Config(_)) => true,
        (Expect::MigratedConfig, Outcome::Config(_)) => true,
        (Expect::State, Outcome::State(_)) => true,
        (Expect::MemorySize, Outcome::Number(_)) => true,
        (Expect::BalloonSize, Outcome::Number(size)) => size <= m.draft.size,
        (Expect::DeviceTree, Outcome::Text(_)) => true,
        (Expect::Device, Outcome::Device(_)) => true,
        (Expect::Data, Outcome::Bytes(_)) => true,
        (Expect::Removal(_), Outcome::Removed(_)) => true,
        (Expect::Removal(_), Outcome::Missing) => true,
        (Expect::SharedMemory(_), Outcome::Flag(_)) => true,
        (Expect::Request, Outcome::Request(_, _)) => true,
        (Expect::ApicId, Outcome::Number(_)) => true,
        (Expect::MemoryFile, Outcome::File(_, _)) => true,
        (Expect::Length(_), Outcome::Number(_)) => true,
        (Expect::Table, Outcome::Table(_, _)) => true,
        (Expect::Dirty(_), Outcome::Table(_, _)) => true,
        (Expect::Paused, Outcome::State(_)) => true,
        _ => false,
    }
}

/// The monitor after an outcome that is no failure.
pub open spec fn after(m: Monitor, expect: Expect, outcome: Outcome) -> Monitor {
    match (expect, outcome) {
        (Expect::Answer(context), Outcome::Refused) => failed(
            m,
            Failure::Migration(send_error(context, None)),
        ),
        (Expect::RestoredConfig { url, prefault, net_fds }, Outcome::Config(config)) => Monitor {
            candidate: Some(config@),
            ..m
        }.then_do(restored_plan(m.build, config@, url, prefault, net_fds)),
        (Expect::MigratedConfig, Outcome::Config(config)) => Monitor {
            candidate: Some(config@),
            ..m
        }.then_do(migrated_plan(m.build, config@)),
        (Expect::State, Outcome::State(state)) => Monitor {
            draft: Draft { state, ..m.draft },
            ..m
        },
        (Expect::MemorySize, Outcome::Number(size)) => Monitor {
            draft: Draft { size, ..m.draft },
            ..m
        },
        (Expect::BalloonSize, Outcome::Number(size)) => Monitor {
            draft: Draft { size: (m.draft.size - size) as u64, ..m.draft },
            ..m
        },
        (Expect::DeviceTree, Outcome::Text(text)) => Monitor {
            draft: Draft { device_tree: Some(text), ..m.draft },
            ..m
        },
        (Expect::Device, Outcome::Device(info)) => Monitor {
            reply: ReplyView::Data(Some(json_of_device(info))),
            ..m
        },
        (Expect::Data, Outcome::Bytes(bytes)) => Monitor {
            reply: ReplyView::Data(Some(bytes@)),
            ..m
        },
        (Expect::Removal(_), Outcome::Removed(config)) => Monitor {
            vm_config: Some(config@),
            ..m
        },
        (Expect::Removal(id), Outcome::Missing) => failed(
            m,
            Failure::Vm(VmError::NoDeviceToRemove(id)),
        ),
        (Expect::SharedMemory(data), Outcome::Flag(shared)) => send_began(m, data, shared),
        (Expect::Request, Outcome::Request(command, length)) => served(m, command, length),
        (Expect::ApicId, Outcome::Number(id)) => m.then_do(apic_plan(id)),
        (Expect::MemoryFile, Outcome::File(bytes, fd)) => with_slot(m, bytes@, fd),
        (Expect::Length(command), Outcome::Number(length)) => m.then_do(
            length_plan(command, length),
        ),
        (Expect::Table, Outcome::Table(_, length)) => m.then_do(table_plan(length)),
        (Expect::Dirty(passes), Outcome::Table(regions, length)) => m.then_do(
            dirty_plan(passes, regions, length),
        ),
        (Expect::Paused, Outcome::State(state)) => m.then_do(paused_plan(state)),
        _ => m,
    }
}

/// The monitor, and what comes next, once the awaited outcome is there.
pub open spec fn advanced(m: Monitor, outcome: Outcome) -> (Monitor, StepView) {
    let waiting = m.waiting->0;
    let rest = Monitor { waiting: None, ..m };
    match outcome {
        Outcome::Failed(fault) => if waiting.wrap == Wrap::Ignore {
            settled(rest)
        } else {
            settled(failed(rest, wrapped(waiting.wrap, fault)))
        },
        _ => settled(after(rest, waiting.expect, outcome)),
    }
}

} // verus!
