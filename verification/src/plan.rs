//! The vocabulary of the monitor: what a request asks the host to do, what
//! the host answers, and what the monitor changes in between.
//!
//! A request on the monitor is a plan, a list of phases. Most phases ask
//! something of the host, which owns the sockets, the event descriptors and
//! the hypervisor's machine. The host performs it and hands the outcome back.

use vstd::prelude::*;
use crate::config::{
    CpuTopology, Device, RestoredNetConfig, VmConfig, VmConfigView,
};
use crate::device::PciDeviceInfo;
use crate::error::{Cause, Context, Failure, MigratableError, VmError};

verus! {

/// A command of the migration protocol.
#[derive(Debug, Clone, Copy, PartialEq, Eq, Structural)]
pub enum Command {
    /// No command.
    Invalid,
    /// A migration starts.
    Start,
    /// The configuration follows.
    Config,
    /// The machine's state follows.
    State,
    /// A table of memory ranges and the memory itself follow.
    Memory,
    /// The descriptor of a memory region follows.
    MemoryFd,
    /// The migration is complete.
    Complete,
    /// The migration is given up.
    Abandon,
}

/// The state of a machine.
#[derive(Debug, Clone, Copy, PartialEq, Eq, Structural)]
pub enum VmState {
    /// It was not booted yet.
    Created,
    /// It runs.
    Running,
    /// It was shut down.
    Shutdown,
    /// It is paused.
    Paused,
    /// It stands at a breakpoint.
    BreakPoint,
}

/// What the monitor announces.
#[derive(Debug, Clone, Copy, PartialEq, Eq, Structural)]
pub enum Notice {
    /// The machine is about to boot.
    Booting,
    /// The machine has booted.
    Booted,
    /// The machine was shut down.
    Shutdown,
    /// The machine is about to reboot.
    Rebooting,
    /// The machine has rebooted.
    Rebooted,
    /// The machine was deleted.
    Deleted,
    /// The monitor was shut down.
    MonitorShutdown,
}

impl Notice {
    /// The source and the name under which a notice is announced.
    pub open spec fn spec_text(self) -> (Seq<char>, Seq<char>) {
        match self {
            Notice::Booting => ("vm"@, "booting"@),
            Notice::Booted => ("vm"@, "booted"@),
            Notice::Shutdown => ("vm"@, "shutdown"@),
            Notice::Rebooting => ("vm"@, "rebooting"@),
            Notice::Rebooted => ("vm"@, "rebooted"@),
            Notice::Deleted => ("vm"@, "deleted"@),
            Notice::MonitorShutdown => ("vmm"@, "shutdown"@),
        }
    }

    /// The source and the name under which this notice is announced.
    pub fn text(self) -> (text: (&'static str, &'static str))
        ensures
            (text.0@, text.1@) == self.spec_text(),
    {
        match self {
            Notice::Booting => ("vm", "booting"),
            Notice::Booted => ("vm", "booted"),
            Notice::Shutdown => ("vm", "shutdown"),
            Notice::Rebooting => ("vm", "rebooting"),
            Notice::Rebooted => ("vm", "rebooted"),
            Notice::Deleted => ("vm", "deleted"),
            Notice::MonitorShutdown => ("vmm", "shutdown"),
        }
    }
}

/// An event descriptor of the monitor that a machine gets a clone of.
#[derive(Debug, Clone, Copy, PartialEq, Eq, Structural)]
pub enum MonitorEvent {
    /// The machine asks for the monitor's exit.
    Exit,
    /// The machine asks for its reset.
    Reset,
    /// The machine reports to the debugger.
    Debug,
    /// The machine asks for the activation of virtio devices.
    Activate,
}

/// What a machine is made from.
#[derive(Debug, PartialEq, Eq)]
pub enum VmSource {
    /// From its configuration alone.
    Fresh,
    /// From a stored snapshot.
    Snapshot {
        /// Where the snapshot is stored.
        url: String,
        /// Whether memory is read before it is needed.
        prefault: bool,
    },
    /// From a snapshot that a migration brought, over the memory that it
    /// brought.
    Migration,
}

/// What the hypervisor's CPUID is generated for.
#[derive(Debug, Clone, Copy, PartialEq, Eq, Structural)]
pub struct CpuidRequest {
    /// The widest physical address.
    pub max_phys_bits: u8,
    /// Whether Hyper-V is emulated.
    pub kvm_hyperv: bool,
    /// Whether matrix extensions are on.
    pub amx: bool,
}

/// What a running machine is resized to.
#[derive(Debug, Clone, Copy, PartialEq, Eq, Structural)]
pub struct Sizes {
    /// The processors.
    pub vcpus: Option<u32>,
    /// The memory.
    pub ram: Option<u64>,
    /// The balloon.
    pub balloon: Option<u64>,
}

/// A migration to another host.
#[derive(Debug, PartialEq, Eq)]
pub struct VmSendMigrationData {
    /// Where the machine goes.
    pub destination_url: String,
    /// Whether the other monitor runs on this host.
    pub local: bool,
}

/// A migration from another host.
#[derive(Debug, PartialEq, Eq)]
pub struct VmReceiveMigrationData {
    /// Where the machine comes in.
    pub receiver_url: String,
}

/// What the host is asked to do.
#[derive(Debug, PartialEq, Eq)]
pub enum Action {
    /// Create the console devices of the monitor's configuration.
    CreateConsole,
    /// Confine the monitor by the Landlock rules of its configuration.
    ApplyLandlock,
    /// Clone an event descriptor for the machine.
    CloneEvent(MonitorEvent),
    /// Create the machine.
    CreateVm(VmSource),
    /// Boot the machine.
    BootVm,
    /// Pause the machine.
    PauseVm,
    /// Resume the machine.
    ResumeVm,
    /// Take a snapshot of the machine.
    SnapshotVm,
    /// Store the snapshot.
    SendSnapshot(String),
    /// Bring the machine to the state of its snapshot.
    RestoreVm,
    /// Dump the machine's memory.
    Coredump(String),
    /// Shut the machine down, and let go of it.
    ShutdownVm,
    /// Take a reset that is pending off the reset event.
    DrainReset,
    /// Read the configuration of a stored snapshot.
    FetchConfig(String),
    /// Read the state of a stored snapshot.
    FetchState(String),
    /// Read the machine's part of the snapshot.
    ReadVmSnapshot,
    /// Validate the candidate against what it is restored with.
    ValidateRestore,
    /// Validate the candidate.
    Validate,
    /// Generate the CPUID of this host.
    GenerateCpuid(CpuidRequest),
    /// Compare the CPUID of the snapshot with that of this host.
    CheckCpuid,
    /// Read the machine's state.
    ReadState,
    /// Add up the memory of the configuration.
    MeasureMemory,
    /// Read the size of the machine's balloon.
    ReadBalloon,
    /// Read the machine's device tree.
    ReadDeviceTree,
    /// Resize the machine.
    ResizeVm(Sizes),
    /// Resize a memory zone of the machine.
    ResizeZone(String, u64),
    /// Add a device to the machine.
    AddDevice(Device),
    /// Remove a device from the machine.
    RemoveDevice(String),
    /// Remove a device from the monitor's configuration.
    RemoveFromConfig(String),
    /// Read the machine's counters.
    ReadCounters,
    /// Put the counters in JSON.
    EncodeCounters,
    /// Press the machine's power button.
    PowerButton,
    /// Send the machine a non-maskable interrupt.
    Nmi,
    /// Listen at the session's endpoint.
    Bind,
    /// Accept a connection there.
    Accept,
    /// Remove the file of the session's UNIX socket.
    RemoveSocketFile,
    /// Connect to the session's endpoint.
    Connect,
    /// Read the peer's next request.
    ReadRequest,
    /// Answer the peer, that its request succeeded or that it failed.
    Answer(bool),
    /// Read this many bytes that follow the peer's request.
    ReadPayload(u64),
    /// Decode a configuration, and what belongs to it, from those bytes.
    DecodeConfig,
    /// Decode a snapshot from those bytes.
    DecodeSnapshot,
    /// Create the hypervisor's machine.
    CreateHypervisorVm,
    /// Find the highest APIC number of a processor layout.
    MaxApicId(CpuTopology),
    /// Switch the hypervisor's machine to wide APIC numbers.
    EnableX2Apic,
    /// Create the memory manager, from the session's memory files where there
    /// are any, for physical addresses of at most that width.
    CreateMemoryManager(u8),
    /// Read a memory table of this many bytes.
    ReadTable(u64),
    /// Read the memory of that table.
    ReceiveRegions,
    /// Receive a memory slot and its file.
    ReceiveFile,
    /// Send the peer a request with this many bytes to follow.
    SendRequest(Command, u64),
    /// Read the peer's answer, and give the migration up where it is no.
    AwaitAnswer,
    /// Send the memory's descriptors.
    SendMemoryFds,
    /// Encode the machine's configuration, and what belongs to it.
    EncodeConfig,
    /// Encode the machine's snapshot.
    EncodeSnapshot,
    /// Send the bytes that were encoded.
    SendPayload,
    /// Tell the machine that its migration starts.
    StartMigration,
    /// Tell the machine that its migration is complete.
    CompleteMigration,
    /// Start logging dirty pages.
    StartDirtyLog,
    /// Stop logging dirty pages.
    StopDirtyLog,
    /// Read the table of the machine's memory.
    ReadMemoryTable,
    /// Read the table of the pages that were written since the last time.
    ReadDirtyLog,
    /// Send the table that was read.
    SendTable,
    /// Send the memory of that table.
    SendRegions,
    /// Release the machine's disk locks.
    ReleaseDiskLocks,
    /// Find out whether the configured memory can be shared.
    ReadSharedMemory,
    /// Signal the monitor's exit.
    SignalExit,
}

/// What the host answers.
#[derive(Debug, PartialEq, Eq)]
pub enum Outcome {
    /// It is done.
    Done,
    /// It failed, for this reason.
    Failed(String),
    /// The peer said no.
    Refused,
    /// A configuration.
    Config(VmConfig),
    /// The state of the machine.
    State(VmState),
    /// A number.
    Number(u64),
    /// A text.
    Text(String),
    /// Yes or no.
    Flag(bool),
    /// A device.
    Device(PciDeviceInfo),
    /// Some bytes.
    Bytes(Vec<u8>),
    /// A request of the peer, and how many bytes follow it.
    Request(Command, u64),
    /// A table of memory: how many ranges it has, and how many bytes.
    Table(u64, u64),
    /// The number of a memory slot, as it came, and the descriptor of its file.
    File([u8; 4], i32),
    /// The configuration without the device.
    Removed(VmConfig),
    /// There was no such device.
    Missing,
}

/// What is done with an outcome.
#[derive(Debug, PartialEq, Eq)]
pub enum Expect {
    /// Nothing: it is done.
    Done,
    /// The peer's answer in a context of the migration.
    Answer(Context),
    /// The configuration to restore.
    RestoredConfig {
        /// Where the machine's state is stored.
        url: String,
        /// Whether memory is read before it is needed.
        prefault: bool,
        /// The new descriptors of network devices.
        net_fds: Option<Vec<RestoredNetConfig>>,
    },
    /// The configuration that a migration brought.
    MigratedConfig,
    /// The machine's state, for a report.
    State,
    /// The configured memory, for a report.
    MemorySize,
    /// The balloon's part of it.
    BalloonSize,
    /// The device tree, for a report.
    DeviceTree,
    /// The device that was added.
    Device,
    /// Bytes to answer with.
    Data,
    /// Whether a device of this name was removed.
    Removal(String),
    /// Whether memory can be shared, for this migration.
    SharedMemory(VmSendMigrationData),
    /// The peer's next request.
    Request,
    /// The highest APIC number.
    ApicId,
    /// A memory slot with its file.
    MemoryFile,
    /// How many bytes follow this command.
    Length(Command),
    /// The table of the machine's memory.
    Table,
    /// The table of dirty pages, with so many passes to follow.
    Dirty(u8),
    /// The machine's state, to resume it where it is paused.
    Paused,
}

/// What a failure is reported as.
#[derive(Debug, Clone, Copy, PartialEq, Eq, Structural)]
pub enum Wrap {
    /// Not at all: the request goes on.
    Ignore,
    /// It cannot fail.
    Never,
    /// `VmError::CreateConsoleDevices`.
    CreateConsoleDevices,
    /// `VmError::ApplyLandlock`.
    ApplyLandlock,
    /// `VmError::EventFdClone`.
    EventFdClone,
    /// `VmError::Machine`.
    Machine,
    /// `VmError::Pause`.
    Pause,
    /// `VmError::Resume`.
    Resume,
    /// `VmError::Snapshot`.
    Snapshot,
    /// `VmError::SnapshotSend`.
    SnapshotSend,
    /// `VmError::Restore` of what was reported.
    Restore,
    /// `VmError::Restore` of a failure to receive.
    RestoreReceive(Context),
    /// `VmError::ConfigValidation`.
    ConfigValidation,
    /// `VmError::Coredump`.
    Coredump,
    /// `VmError::SerializeJson`.
    SerializeJson,
    /// `MigratableError::MigrateSocket`.
    Socket,
    /// `MigratableError::MigrateReceive`.
    Receive(Context),
    /// `MigratableError::MigrateSend`.
    Send(Context),
    /// `MigratableError::UnlockError`.
    Unlock,
    /// `MigratableError::Machine`.
    Migration,
}

/// A migration error of the receiving side.
pub open spec fn receive_error(context: Context, detail: Option<String>) -> MigratableError {
    MigratableError::MigrateReceive(Cause { context, detail })
}

/// A migration error of the sending side.
pub open spec fn send_error(context: Context, detail: Option<String>) -> MigratableError {
    MigratableError::MigrateSend(Cause { context, detail })
}

/// What a failure is reported as.
pub open spec fn wrapped(wrap: Wrap, fault: String) -> Failure {
    match wrap {
        Wrap::CreateConsoleDevices => Failure::Vm(VmError::CreateConsoleDevices(fault)),
        Wrap::ApplyLandlock => Failure::Vm(VmError::ApplyLandlock(fault)),
        Wrap::EventFdClone => Failure::Vm(VmError::EventFdClone(fault)),
        Wrap::Ignore => Failure::Vm(VmError::Machine(fault)),
        Wrap::Never => Failure::Vm(VmError::Machine(fault)),
        Wrap::Machine => Failure::Vm(VmError::Machine(fault)),
        Wrap::Pause => Failure::Vm(VmError::Pause(MigratableError::Machine(fault))),
        Wrap::Resume => Failure::Vm(VmError::Resume(MigratableError::Machine(fault))),
        Wrap::Snapshot => Failure::Vm(VmError::Snapshot(MigratableError::Machine(fault))),
        Wrap::SnapshotSend => Failure::Vm(VmError::SnapshotSend(MigratableError::Machine(fault))),
        Wrap::Restore => Failure::Vm(VmError::Restore(MigratableError::Machine(fault))),
        Wrap::RestoreReceive(context) => Failure::Vm(
            VmError::Restore(receive_error(context, Some(fault))),
        ),
        Wrap::ConfigValidation => Failure::Vm(VmError::ConfigValidation(fault)),
        Wrap::Coredump => Failure::Vm(VmError::Coredump(fault)),
        Wrap::SerializeJson => Failure::Vm(VmError::SerializeJson(fault)),
        Wrap::Socket => Failure::Migration(MigratableError::MigrateSocket(fault)),
        Wrap::Receive(context) => Failure::Migration(receive_error(context, Some(fault))),
        Wrap::Send(context) => Failure::Migration(send_error(context, Some(fault))),
        Wrap::Unlock => Failure::Migration(MigratableError::UnlockError(fault)),
        Wrap::Migration => Failure::Migration(MigratableError::Machine(fault)),
    }
}

/// What a failure is reported as.
pub fn wrap_fault(wrap: Wrap, fault: String) -> (failure: Failure)
    ensures
        failure == wrapped(wrap, fault),
{
    match wrap {
        Wrap::CreateConsoleDevices => Failure::Vm(VmError::CreateConsoleDevices(fault)),
        Wrap::ApplyLandlock => Failure::Vm(VmError::ApplyLandlock(fault)),
        Wrap::EventFdClone => Failure::Vm(VmError::EventFdClone(fault)),
        Wrap::Ignore | Wrap::Never | Wrap::Machine => Failure::Vm(VmError::Machine(fault)),
        Wrap::Pause => Failure::Vm(VmError::Pause(MigratableError::Machine(fault))),
        Wrap::Resume => Failure::Vm(VmError::Resume(MigratableError::Machine(fault))),
        Wrap::Snapshot => Failure::Vm(VmError::Snapshot(MigratableError::Machine(fault))),
        Wrap::SnapshotSend => Failure::Vm(VmError::SnapshotSend(MigratableError::Machine(fault))),
        Wrap::Restore => Failure::Vm(VmError::Restore(MigratableError::Machine(fault))),
        Wrap::RestoreReceive(context) => Failure::Vm(
            VmError::Restore(
                MigratableError::MigrateReceive(Cause { context, detail: Some(fault) }),
            ),
        ),
        Wrap::ConfigValidation => Failure::Vm(VmError::ConfigValidation(fault)),
        Wrap::Coredump => Failure::Vm(VmError::Coredump(fault)),
        Wrap::SerializeJson => Failure::Vm(VmError::SerializeJson(fault)),
        Wrap::Socket => Failure::Migration(MigratableError::MigrateSocket(fault)),
        Wrap::Receive(context) => Failure::Migration(
            MigratableError::MigrateReceive(Cause { context, detail: Some(fault) }),
        ),
        Wrap::Send(context) => Failure::Migration(
            MigratableError::MigrateSend(Cause { context, detail: Some(fault) }),
        ),
        Wrap::Unlock => Failure::Migration(MigratableError::UnlockError(fault)),
        Wrap::Migration => Failure::Migration(MigratableError::Machine(fault)),
    }
}

/// What is still done once a request has failed.
#[derive(Debug, Clone, Copy, PartialEq, Eq, Structural)]
pub enum Recovery {
    /// Nothing.
    Nothing,
    /// The machine is deleted.
    DeleteVm,
    /// The peer is told that its request failed.
    AnswerError,
    /// Dirty pages are no longer logged, unless the migration is local, and
    /// the machine is resumed where it is paused.
    AbortSend {
        /// Whether the migration is local.
        local: bool,
    },
}

/// What the monitor changes of itself.
#[derive(Debug, PartialEq, Eq)]
pub enum Change {
    /// It announces something.
    Note(Notice),
    /// It stores a configuration.
    StoreConfig(VmConfig),
    /// It forgets its configuration.
    ClearConfig,
    /// The candidate becomes its configuration.
    InstallCandidate,
    /// The candidate takes new descriptors of network devices.
    AdoptNetFds(Option<Vec<RestoredNetConfig>>),
    /// It has console devices.
    ConsoleReady,
    /// It lets go of the console devices, so that nothing uses them again.
    DrainConsole,
    /// It has a machine, of its configuration.
    InstallVm,
    /// It has no machine any more; the request still knows it.
    RetireVm,
    /// It has the machine that the request knows.
    ReinstallVm,
    /// It has neither machine nor configuration.
    Forget,
    /// A device joins its configuration.
    AddDevice(Device),
    /// Its configuration gets other sizes.
    Resize(Sizes),
    /// A memory zone of its configuration gets another size.
    ResizeZone(String, u64),
    /// The request answers without data.
    NoData,
    /// The request answers with its report.
    Report,
    /// The migration has a memory manager.
    MemoryManagerReady,
    /// From here on, this follows a failure.
    OnFailure(Recovery),
}

/// A phase of a request.
#[derive(Debug, PartialEq, Eq)]
pub enum Phase {
    /// The host is asked to do something.
    Ask(Action, Expect, Wrap),
    /// The monitor changes.
    Apply(Change),
    /// The request fails.
    Fail(Failure),
}

/// A report on the machine.
#[derive(Debug, PartialEq, Eq)]
pub struct VmInfoResponse {
    /// The configuration.
    pub config: VmConfig,
    /// The state of the machine.
    pub state: VmState,
    /// The memory that the machine has, without its balloon.
    pub memory_actual_size: u64,
    /// The machine's device tree.
    pub device_tree: Option<String>,
}

/// What a request answers.
#[derive(Debug, PartialEq, Eq)]
pub enum Reply {
    /// That it is done.
    Done,
    /// With data, where there is any.
    Data(Option<Vec<u8>>),
    /// With a report.
    Info(VmInfoResponse),
}

/// The model of an answer.
#[verifier::ext_equal]
pub enum ReplyView {
    /// That it is done.
    Done,
    /// With data, where there is any.
    Data(Option<Seq<u8>>),
    /// With a report.
    Info {
        config: VmConfigView,
        state: VmState,
        memory_actual_size: u64,
        device_tree: Option<String>,
    },
}

impl View for Reply {
    type V = ReplyView;

    open spec fn view(&self) -> ReplyView {
        match self {
            Reply::Done => ReplyView::Done,
            Reply::Data(None) => ReplyView::Data(None),
            Reply::Data(Some(bytes)) => ReplyView::Data(Some(bytes@)),
            Reply::Info(info) => ReplyView::Info {
                config: info.config@,
                state: info.state,
                memory_actual_size: info.memory_actual_size,
                device_tree: info.device_tree,
            },
        }
    }
}

/// How a request goes on.
#[derive(Debug, PartialEq, Eq)]
pub enum Step {
    /// The host is to do this, and to hand back the outcome.
    Perform(Action),
    /// The request is over.
    Done(Result<Reply, Failure>),
}

/// The model of a step.
#[verifier::ext_equal]
pub enum StepView {
    /// The host is to do this.
    Perform(Action),
    /// The request is over.
    Done(Result<ReplyView, Failure>),
}

impl View for Step {
    type V = StepView;

    open spec fn view(&self) -> StepView {
        match self {
            Step::Perform(action) => StepView::Perform(*action),
            Step::Done(Ok(reply)) => StepView::Done(Ok(reply@)),
            Step::Done(Err(failure)) => StepView::Done(Err(*failure)),
        }
    }
}

} // verus!
