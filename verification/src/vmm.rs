//! The monitor itself, and what it changes of itself.

use std::collections::HashMap;
use vstd::prelude::*;
use crate::config::{same_device, Device, RestoredNetConfig, VmConfig, VmConfigView};
use crate::devices::considering;
use crate::endpoint::{Endpoint, EndpointView};
use crate::error::Failure;
use crate::features::{Build, VmmVersionInfo};
use crate::model::{
    applied, blank, no_session, with_changed_config, with_stored_config, works_on_config,
    Draft, Monitor, SessionView, Waiting,
};
use crate::plan::{
    Action, Change, Notice, Phase, Recovery, Reply, ReplyView, Sizes, VmInfoResponse, VmSource,
    VmState,
};

verus! {

/// A machine of the monitor.
#[derive(Debug, PartialEq, Eq)]
pub struct Machine {
    /// Its configuration, where that is no longer the monitor's.
    pub config: Option<VmConfig>,
}

/// A migration's session.
#[derive(Debug, PartialEq, Eq)]
pub struct Session {
    /// The socket.
    pub endpoint: Option<Endpoint>,
    /// Whether the peer has started the migration.
    pub started: bool,
    /// Whether there is a memory manager for the machine to come.
    pub memory_manager: bool,
    /// The files that have come, by their memory slots, where any have. A file
    /// is known by its descriptor.
    pub memory_files: Option<HashMap<u32, i32>>,
    /// The files that the memory manager is made from.
    pub granted_files: Option<HashMap<u32, i32>>,
}

/// A request in progress.
#[derive(Debug, PartialEq, Eq)]
pub struct Job {
    /// A configuration that it considers.
    pub candidate: Option<VmConfig>,
    /// A machine that it has let go of.
    pub retired: Option<Machine>,
    /// The phases to come.
    pub plan: Vec<Phase>,
    /// The outcome that is awaited.
    pub waiting: Option<Waiting>,
    /// What follows a failure.
    pub recovery: Recovery,
    /// The failure, where the request has failed.
    pub pending: Option<Failure>,
    /// What the request answers where it succeeds.
    pub reply: Reply,
    /// The report that it draws up.
    pub draft: Draft,
    /// The migration that it serves.
    pub session: Session,
}

/// The monitor.
#[derive(Debug, PartialEq, Eq)]
pub struct Vmm {
    /// The version.
    pub version: VmmVersionInfo,
    /// What the monitor was built for.
    pub build: Build,
    /// The machine.
    pub vm: Option<Machine>,
    /// The configuration. A machine shares it, unless it has one of its own.
    pub vm_config: Option<VmConfig>,
    /// Whether there are console devices.
    pub console_info: bool,
    /// Whether signals are handled.
    pub signals: bool,
    /// How many threads are to be waited for at the end.
    pub threads: u64,
    /// What was announced.
    pub notices: Vec<Notice>,
    /// The request in progress.
    pub job: Job,
}

/// The model of a configuration that may be missing.
pub open spec fn config_view(config: Option<VmConfig>) -> Option<VmConfigView> {
    match config {
        Some(config) => Some(config@),
        None => None,
    }
}

/// The model of a machine that may be missing.
pub open spec fn machine_view(machine: Option<Machine>) -> Option<Option<VmConfigView>> {
    match machine {
        Some(machine) => Some(config_view(machine.config)),
        None => None,
    }
}

/// The model of a socket that may be missing.
pub open spec fn endpoint_view(endpoint: Option<Endpoint>) -> Option<EndpointView> {
    match endpoint {
        Some(endpoint) => Some(endpoint@),
        None => None,
    }
}

/// The model of some files that may be missing.
pub open spec fn files(files: Option<HashMap<u32, i32>>) -> Option<Map<u32, i32>> {
    match files {
        Some(files) => Some(files@),
        None => None,
    }
}

impl View for Session {
    type V = SessionView;

    open spec fn view(&self) -> SessionView {
        SessionView {
            endpoint: endpoint_view(self.endpoint),
            started: self.started,
            memory_manager: self.memory_manager,
            memory_files: files(self.memory_files),
            granted_files: files(self.granted_files),
        }
    }
}

impl View for Vmm {
    type V = Monitor;

    open spec fn view(&self) -> Monitor {
        Monitor {
            version: self.version,
            build: self.build,
            vm: machine_view(self.vm),
            vm_config: config_view(self.vm_config),
            console_info: self.console_info,
            signals: self.signals,
            threads: self.threads as nat,
            notices: self.notices@,
            candidate: config_view(self.job.candidate),
            retired: machine_view(self.job.retired),
            plan: self.job.plan@,
            waiting: self.job.waiting,
            recovery: self.job.recovery,
            pending: self.job.pending,
            reply: self.job.reply@,
            draft: self.job.draft,
            session: self.job.session@,
        }
    }
}

impl Job {
    /// No request.
    pub fn none() -> (job: Job)
        ensures
            job.candidate is None,
            job.retired is None,
            job.plan@ == Seq::<Phase>::empty(),
            job.waiting is None,
            job.recovery == Recovery::Nothing,
            job.pending is None,
            job.reply == Reply::Done,
            job.draft == blank(),
            job.session@ == no_session(),
    {
        Job {
            candidate: None,
            retired: None,
            plan: Vec::new(),
            waiting: None,
            recovery: Recovery::Nothing,
            pending: None,
            reply: Reply::Done,
            draft: Draft { state: VmState::Created, size: 0, device_tree: None },
            session: Session {
                endpoint: None,
                started: false,
                memory_manager: false,
                memory_files: None,
                granted_files: None,
            },
        }
    }
}

impl Session {
    /// Whether there is no session.
    fn is_none(&self) -> (none: bool)
        ensures
            none == (self@ == no_session()),
    {
        self.endpoint.is_none() && !self.started && !self.memory_manager
            && self.memory_files.is_none() && self.granted_files.is_none()
    }
}

impl Job {
    /// Whether nothing is known yet for a report, and nothing is to be
    /// answered.
    fn is_blank(&self) -> (empty: bool)
        ensures
            empty == (self.reply@ == ReplyView::Done && self.draft == blank()),
    {
        let nothing = match self.reply {
            Reply::Done => true,
            _ => false,
        };
        nothing && self.draft.state == VmState::Created && self.draft.size == 0
            && self.draft.device_tree.is_none()
    }
}

/// Whether an action works on the monitor's configuration, whatever machine
/// there is.
fn prepares_machine(action: &Action) -> (r: bool)
    ensures
        r == works_on_config(*action),
{
    match action {
        Action::CreateConsole => true,
        Action::ApplyLandlock => true,
        Action::CreateVm(VmSource::Migration) => true,
        Action::RestoreVm => true,
        _ => false,
    }
}

/// Whether there is a machine with a configuration of its own.
fn is_detached(machine: &Option<Machine>) -> (r: bool)
    ensures
        r == (machine_view(*machine) matches Some(Some(_))),
{
    match machine {
        Some(machine) => machine.config.is_some(),
        None => false,
    }
}

impl Vmm {
    /// Whether no request is in progress.
    pub fn is_idle(&self) -> (idle: bool)
        ensures
            idle == self@.idle(),
    {
        let idle = self.job.candidate.is_none() && self.job.retired.is_none()
            && self.job.plan.len() == 0 && self.job.waiting.is_none() && self.job.recovery
            == Recovery::Nothing && self.job.pending.is_none() && self.job.is_blank()
            && self.job.session.is_none();
        assert(self.job.plan@.len() == 0 ==> self.job.plan@ =~= Seq::<Phase>::empty());
        idle
    }

    /// Replaces the configuration, where there is one.
    fn replace_config(&mut self, config: VmConfig)
        ensures
            final(self)@ == with_stored_config(old(self)@, config@),
    {
        if self.vm_config.is_some() {
            self.vm_config = Some(config);
        }
    }

    /// Replaces the configuration of the machine.
    fn replace_machine_config(&mut self, config: VmConfig)
        ensures
            final(self)@ == (Monitor { vm: Some(Some(config@)), ..old(self)@ }),
    {
        self.vm = Some(Machine { config: Some(config) });
    }

    /// Replaces the configuration of the machine that the request has let go
    /// of.
    fn replace_retired_config(&mut self, config: VmConfig)
        ensures
            final(self)@ == (Monitor { retired: Some(Some(config@)), ..old(self)@ }),
    {
        self.job.retired = Some(Machine { config: Some(config) });
    }

    /// Notes that an action of the host has changed the configuration that it
    /// worked on.
    pub fn reconfigured(&mut self, action: &Action, config: VmConfig)
        ensures
            final(self)@ == with_changed_config(old(self)@, *action, config@),
    {
        if prepares_machine(action) {
            self.replace_config(config);
        } else if is_detached(&self.vm) {
            self.replace_machine_config(config);
        } else if self.vm.is_none() && is_detached(&self.job.retired) {
            self.replace_retired_config(config);
        } else {
            self.replace_config(config);
        }
    }

    /// The configuration of the machine that the request in progress creates:
    /// of the machine that it has let go of, where there is one, and otherwise
    /// the monitor's.
    pub fn creation_config(&self) -> (config: Option<&VmConfig>)
        ensures
            match config {
                Some(config) => self@.creation_config() == Some(config@),
                None => self@.creation_config() is None,
            },
    {
        match &self.job.retired {
            Some(machine) => match &machine.config {
                Some(config) => Some(config),
                None => self.vm_config.as_ref(),
            },
            None => self.vm_config.as_ref(),
        }
    }

    /// Ends the request in progress.
    pub(crate) fn rest(&mut self)
        ensures
            final(self)@ == old(self)@.at_rest(),
    {
        self.job = Job::none();
        assert(self@ == old(self)@.at_rest());
    }

    /// Makes a change.
    pub(crate) fn apply(&mut self, change: Change)
        ensures
            final(self)@ == applied(old(self)@, change),
    {
        match change {
            Change::Note(notice) => self.note(notice),
            Change::StoreConfig(config) => self.store_config(config),
            Change::ClearConfig => self.clear_config(),
            Change::InstallCandidate => self.install_candidate(),
            Change::AdoptNetFds(restored) => self.adopt_net_fds(restored),
            Change::ConsoleReady => self.console_ready(),
            Change::DrainConsole => self.drain_console(),
            Change::InstallVm => self.install_vm(),
            Change::RetireVm => self.retire_vm(),
            Change::ReinstallVm => self.reinstall_vm(),
            Change::Forget => self.forget(),
            Change::AddDevice(device) => self.add_device(device),
            Change::Resize(sizes) => self.resize(sizes),
            Change::ResizeZone(id, ram) => self.resize_zone(id, ram),
            Change::NoData => self.no_data(),
            Change::Report => self.report(),
            Change::MemoryManagerReady => self.memory_manager_ready(),
            Change::OnFailure(recovery) => self.on_failure(recovery),
        }
    }

    /// Announces something.
    fn note(&mut self, notice: Notice)
        ensures
            final(self)@ == applied(old(self)@, Change::Note(notice)),
    {
        self.notices.push(notice);
    }

    /// Stores a configuration.
    fn store_config(&mut self, config: VmConfig)
        ensures
            final(self)@ == applied(old(self)@, Change::StoreConfig(config)),
    {
        self.vm_config = Some(config);
    }

    /// Forgets the configuration.
    fn clear_config(&mut self)
        ensures
            final(self)@ == applied(old(self)@, Change::ClearConfig),
    {
        self.vm_config = None;
    }

    /// Notes that there are console devices.
    fn console_ready(&mut self)
        ensures
            final(self)@ == applied(old(self)@, Change::ConsoleReady),
    {
        self.console_info = true;
    }

    /// Lets go of the console devices.
    fn drain_console(&mut self)
        ensures
            final(self)@ == applied(old(self)@, Change::DrainConsole),
    {
        self.console_info = false;
    }

    /// Takes a machine of the configuration.
    fn install_vm(&mut self)
        ensures
            final(self)@ == applied(old(self)@, Change::InstallVm),
    {
        self.vm = Some(Machine { config: None });
    }

    /// Lets go of the machine.
    fn retire_vm(&mut self)
        ensures
            final(self)@ == applied(old(self)@, Change::RetireVm),
    {
        self.job.retired = self.vm.take();
    }

    /// Takes the machine that the request knows.
    fn reinstall_vm(&mut self)
        ensures
            final(self)@ == applied(old(self)@, Change::ReinstallVm),
    {
        self.vm = self.job.retired.take();
    }

    /// Forgets machine and configuration.
    fn forget(&mut self)
        ensures
            final(self)@ == applied(old(self)@, Change::Forget),
    {
        self.vm = None;
        self.vm_config = None;
    }

    /// Answers without data.
    fn no_data(&mut self)
        ensures
            final(self)@ == applied(old(self)@, Change::NoData),
    {
        self.job.reply = Reply::Data(None);
    }

    /// Notes that there is a memory manager.
    fn memory_manager_ready(&mut self)
        ensures
            final(self)@ == applied(old(self)@, Change::MemoryManagerReady),
    {
        self.job.session.memory_manager = true;
    }

    /// Sets what follows a failure.
    fn on_failure(&mut self, recovery: Recovery)
        ensures
            final(self)@ == applied(old(self)@, Change::OnFailure(recovery)),
    {
        self.job.recovery = recovery;
    }

    /// Makes the candidate the configuration. A machine that shared the old
    /// one keeps it.
    fn install_candidate(&mut self)
        ensures
            final(self)@ == applied(old(self)@, Change::InstallCandidate),
    {
        let shared = match &self.vm {
            Some(machine) => machine.config.is_none(),
            None => false,
        };
        let outdated = self.vm_config.take();
        if shared {
            self.vm = Some(Machine { config: outdated });
        }
        self.vm_config = self.job.candidate.take();
    }

    /// Gives the candidate new descriptors of network devices.
    fn adopt_net_fds(&mut self, restored: Option<Vec<RestoredNetConfig>>)
        ensures
            final(self)@ == applied(old(self)@, Change::AdoptNetFds(restored)),
    {
        if let Some(mut config) = self.job.candidate.take() {
            config.adopt_net_fds(&restored);
            self.job.candidate = Some(config);
        }
    }

    /// Adds a device to the configuration.
    fn add_device(&mut self, device: Device)
        ensures
            final(self)@ == applied(old(self)@, Change::AddDevice(device)),
    {
        if let Some(mut config) = self.vm_config.take() {
            config.add_device(device);
            self.vm_config = Some(config);
        }
    }

    /// Considers the configuration with one more device.
    pub(crate) fn consider(&mut self, device: Device)
        ensures
            forall|d: Device| same_device(device, d) ==> final(self)@ == considering(old(self)@, d),
    {
        self.job.candidate = match &self.vm_config {
            Some(config) => {
                let mut candidate = config.clone();
                candidate.add_device(device);
                Some(candidate)
            },
            None => None,
        };
    }

    /// Resizes the configuration.
    fn resize(&mut self, sizes: Sizes)
        ensures
            final(self)@ == applied(old(self)@, Change::Resize(sizes)),
    {
        if let Some(mut config) = self.vm_config.take() {
            config.resize(sizes.vcpus, sizes.ram, sizes.balloon);
            self.vm_config = Some(config);
        }
    }

    /// Resizes a memory zone of the configuration.
    fn resize_zone(&mut self, id: String, ram: u64)
        ensures
            final(self)@ == applied(old(self)@, Change::ResizeZone(id, ram)),
    {
        if let Some(mut config) = self.vm_config.take() {
            let found = config.resize_zone(&id, ram);
            self.vm_config = Some(config);
        }
    }

    /// Answers with the report.
    fn report(&mut self)
        ensures
            final(self)@ == applied(old(self)@, Change::Report),
    {
        let device_tree = match &self.job.draft.device_tree {
            Some(text) => Some(text.clone()),
            None => None,
        };
        if let Some(config) = &self.vm_config {
            self.job.reply = Reply::Info(
                VmInfoResponse {
                    config: config.clone(),
                    state: self.job.draft.state,
                    memory_actual_size: self.job.draft.size,
                    device_tree,
                },
            );
        }
    }
}

} // verus!
