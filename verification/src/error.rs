//! The errors that the monitor reports.

use vstd::prelude::*;

verus! {

/// What a migration was doing when it failed.
#[derive(Debug, Clone, Copy, PartialEq, Eq, Structural)]
pub enum Context {
    /// Finding the socket path in a URL.
    ExtractPath,
    /// Connecting to a TCP socket.
    ConnectTcp,
    /// Connecting to a UNIX socket.
    ConnectUnix,
    /// Binding a TCP socket.
    BindTcp,
    /// Accepting a connection on a TCP socket.
    AcceptTcp,
    /// Binding a UNIX socket.
    BindUnix,
    /// Accepting a connection on a UNIX socket.
    AcceptUnix,
    /// Removing the file of a UNIX socket.
    RemoveSocketFile,
    /// Opening the migration.
    Start,
    /// Sending the configuration.
    Config,
    /// Sending memory.
    Memory,
    /// Sending the machine's state.
    State,
    /// Closing the migration.
    Complete,
    /// Refusing to migrate a TDX machine.
    Tdx,
    /// Generating the CPUID of the source.
    SourceCpuid,
    /// Generating the CPUID of the destination.
    DestinationCpuid,
    /// Comparing the CPUID of source and destination.
    CompareCpuid,
    /// Refusing to hand memory descriptors over TCP.
    LocalOverTcp,
    /// Refusing a local migration of private memory.
    LocalNeedsSharedMemory,
    /// Signalling the exit of the migrated monitor.
    SignalExit,
    /// Looking for the machine to send.
    NotRunning,
    /// Decoding the received configuration.
    DecodeConfig,
    /// Creating the console devices.
    CreateConsole,
    /// Applying Landlock.
    ApplyLandlock,
    /// Creating the hypervisor's machine.
    CreateHypervisorVm,
    /// Creating the memory manager.
    CreateMemoryManager,
    /// Decoding the received snapshot.
    DecodeSnapshot,
    /// Cloning the exit event.
    CloneExit,
    /// Cloning the reset event.
    CloneReset,
    /// Cloning the debug event.
    CloneDebug,
    /// Cloning the activation event.
    CloneActivate,
    /// Creating the machine.
    CreateVm,
    /// Restoring the machine.
    RestoreVm,
    /// Receiving a memory slot.
    ReceiveSlot,
}

impl Context {
    /// The sentence that opens the message of an error in this context.
    pub open spec fn spec_text(self) -> Seq<char> {
        match self {
            Context::ExtractPath => "Could not extract path from URL"@,
            Context::ConnectTcp => "Error connecting to TCP socket"@,
            Context::ConnectUnix => "Error connecting to UNIX socket"@,
            Context::BindTcp => "Error binding to TCP socket"@,
            Context::AcceptTcp => "Error accepting connection on TCP socket"@,
            Context::BindUnix => "Error binding to UNIX socket"@,
            Context::AcceptUnix => "Error accepting connection on UNIX socket"@,
            Context::RemoveSocketFile => "Error removing UNIX socket file"@,
            Context::Start => "Error starting migration"@,
            Context::Config => "Error during config migration"@,
            Context::Memory => "Error during dirty memory migration"@,
            Context::State => "Error during state migration"@,
            Context::Complete => "Error completing migration"@,
            Context::Tdx => "Live Migration is not supported when TDX is enabled"@,
            Context::SourceCpuid => "Error generating common cpuid'"@,
            Context::DestinationCpuid => "Error generating common cpuid"@,
            Context::CompareCpuid => "Error checking cpu feature compatibility'"@,
            Context::LocalOverTcp => "--local option is not supported with TCP sockets"@,
            Context::LocalNeedsSharedMemory =>
                "Local migration requires shared memory or hugepages enabled"@,
            Context::SignalExit => "Failed shutting down the VM after migration"@,
            Context::NotRunning => "VM is not running"@,
            Context::DecodeConfig => "Error deserialising config"@,
            Context::CreateConsole => "Error creating console devices"@,
            Context::ApplyLandlock => "Error applying landlock"@,
            Context::CreateHypervisorVm => "Error creating hypervisor VM from snapshot"@,
            Context::CreateMemoryManager => "Error creating MemoryManager from snapshot"@,
            Context::DecodeSnapshot => "Error deserialising snapshot"@,
            Context::CloneExit => "Error cloning exit EventFd"@,
            Context::CloneReset => "Error cloning reset EventFd"@,
            Context::CloneDebug => "Error cloning debug EventFd"@,
            Context::CloneActivate => "Error cloning activate EventFd"@,
            Context::CreateVm => "Error creating VM from snapshot"@,
            Context::RestoreVm => "Failed restoring the Vm"@,
            Context::ReceiveSlot => "Error receiving slot from socket"@,
        }
    }

    /// The sentence that opens the message of an error in this context.
    pub fn text(self) -> (text: &'static str)
        ensures
            text@ == self.spec_text(),
    {
        match self {
            Context::ExtractPath => "Could not extract path from URL",
            Context::ConnectTcp => "Error connecting to TCP socket",
            Context::ConnectUnix => "Error connecting to UNIX socket",
            Context::BindTcp => "Error binding to TCP socket",
            Context::AcceptTcp => "Error accepting connection on TCP socket",
            Context::BindUnix => "Error binding to UNIX socket",
            Context::AcceptUnix => "Error accepting connection on UNIX socket",
            Context::RemoveSocketFile => "Error removing UNIX socket file",
            Context::Start => "Error starting migration",
            Context::Config => "Error during config migration",
            Context::Memory => "Error during dirty memory migration",
            Context::State => "Error during state migration",
            Context::Complete => "Error completing migration",
            Context::Tdx => "Live Migration is not supported when TDX is enabled",
            Context::SourceCpuid => "Error generating common cpuid'",
            Context::DestinationCpuid => "Error generating common cpuid",
            Context::CompareCpuid => "Error checking cpu feature compatibility'",
            Context::LocalOverTcp => "--local option is not supported with TCP sockets",
            Context::LocalNeedsSharedMemory =>
                "Local migration requires shared memory or hugepages enabled",
            Context::SignalExit => "Failed shutting down the VM after migration",
            Context::NotRunning => "VM is not running",
            Context::DecodeConfig => "Error deserialising config",
            Context::CreateConsole => "Error creating console devices",
            Context::ApplyLandlock => "Error applying landlock",
            Context::CreateHypervisorVm => "Error creating hypervisor VM from snapshot",
            Context::CreateMemoryManager => "Error creating MemoryManager from snapshot",
            Context::DecodeSnapshot => "Error deserialising snapshot",
            Context::CloneExit => "Error cloning exit EventFd",
            Context::CloneReset => "Error cloning reset EventFd",
            Context::CloneDebug => "Error cloning debug EventFd",
            Context::CloneActivate => "Error cloning activate EventFd",
            Context::CreateVm => "Error creating VM from snapshot",
            Context::RestoreVm => "Failed restoring the Vm",
            Context::ReceiveSlot => "Error receiving slot from socket",
        }
    }
}

/// Why a migration failed: what it was doing, and what was reported there.
#[derive(Debug, PartialEq, Eq)]
pub struct Cause {
    /// What the migration was doing.
    pub context: Context,
    /// What was reported, where anything was.
    pub detail: Option<String>,
}

impl Cause {
    /// The message: the context's sentence, then a colon and the detail.
    pub open spec fn spec_message(self) -> Seq<char> {
        match self.detail {
            Some(detail) => self.context.spec_text() + ": "@ + detail@,
            None => self.context.spec_text(),
        }
    }

    /// The message of this cause.
    pub fn message(&self) -> (message: String)
        ensures
            message@ == self.spec_message(),
    {
        let text = self.context.text().to_owned();
        match &self.detail {
            Some(detail) => text.concat(": ").concat(detail.as_str()),
            None => text,
        }
    }
}

/// An error of a migration.
#[derive(Debug, PartialEq, Eq)]
pub enum MigratableError {
    /// The migration socket could not be read or written.
    MigrateSocket(String),
    /// The receiving side failed.
    MigrateReceive(Cause),
    /// The sending side failed.
    MigrateSend(Cause),
    /// The disk locks could not be released.
    UnlockError(String),
    /// The machine, or the peer's protocol, reported an error of its own.
    Machine(String),
}

/// An error of a request on the virtual machine.
#[derive(Debug, PartialEq, Eq)]
pub enum VmError {
    /// There is a machine already, or the configuration of one.
    VmAlreadyCreated,
    /// There is no configuration to boot from.
    VmMissingConfig,
    /// There is no machine and no configuration of one.
    VmNotCreated,
    /// There is no machine.
    VmNotRunning,
    /// The console devices could not be created.
    CreateConsoleDevices(String),
    /// Landlock could not be applied.
    ApplyLandlock(String),
    /// An event descriptor could not be cloned.
    EventFdClone(String),
    /// The machine could not be paused.
    Pause(MigratableError),
    /// The machine could not be resumed.
    Resume(MigratableError),
    /// The snapshot could not be taken.
    Snapshot(MigratableError),
    /// The snapshot could not be sent.
    SnapshotSend(MigratableError),
    /// The machine could not be restored.
    Restore(MigratableError),
    /// The URL to restore from is no text.
    InvalidRestoreSourceUrl,
    /// The configuration is not valid.
    ConfigValidation(String),
    /// The core dump failed.
    Coredump(String),
    /// The memory zone could not be resized.
    ResizeZone,
    /// There is no device of that name to remove.
    NoDeviceToRemove(String),
    /// There is a vsock device already.
    TooManyVsockDevices,
    /// A reply could not be put in JSON.
    SerializeJson(String),
    /// The machine reported an error of its own.
    Machine(String),
}

/// The error of a request: of the machine's life cycle, or of a migration.
#[derive(Debug, PartialEq, Eq)]
pub enum Failure {
    /// A request on the machine failed.
    Vm(VmError),
    /// A migration failed.
    Migration(MigratableError),
}

/// Errors associated with VMM management.
#[derive(Debug, PartialEq, Eq)]
pub enum Error {
    /// API request receive error.
    ApiRequestRecv(String),
    /// API response send error.
    ApiResponseSend(String),
    /// Cannot bind to the UNIX domain socket path.
    Bind(String),
    /// Cannot clone EventFd.
    EventFdClone(String),
    /// Cannot create EventFd.
    EventFdCreate(String),
    /// Cannot read from EventFd.
    EventFdRead(String),
    /// Cannot create epoll context.
    Epoll(String),
    /// Cannot create HTTP thread.
    HttpThreadSpawn(String),
    /// Cannot create D-Bus thread.
    DBusThreadSpawn(String),
    /// Cannot start D-Bus session.
    CreateDBusSession(String),
    /// Cannot create `event-monitor` thread.
    EventMonitorThreadSpawn(String),
    /// Cannot handle the VM STDIN stream.
    Stdin(VmError),
    /// Cannot handle the VM pty stream.
    Pty(VmError),
    /// Cannot reboot the VM.
    VmReboot(VmError),
    /// Cannot create VMM thread.
    VmmThreadSpawn(String),
    /// Cannot shut the VMM down.
    VmmShutdown(VmError),
    /// Cannot create seccomp filter.
    CreateSeccompFilter(String),
    /// Cannot apply seccomp filter.
    ApplySeccompFilter(String),
    /// Error activating virtio devices.
    ActivateVirtioDevices(VmError),
    /// Error creating API server.
    CreateApiServer(String),
    /// Error binding API server socket.
    CreateApiServerSocket(String),
    /// Cannot create the GDB thread.
    GdbThreadSpawn(String),
    /// GDB request receive error.
    GdbRequestRecv(String),
    /// GDB response send error.
    GdbResponseSend(String),
    /// Cannot create the signal handler thread.
    SignalHandlerSpawn(String),
    /// A thread panicked.
    ThreadCleanup(String),
    /// Cannot create Landlock object.
    CreateLandlock(String),
    /// Cannot apply landlock based sandboxing.
    ApplyLandlock(String),
}

impl Error {
    /// The message of this error.
    pub open spec fn spec_message(self) -> Seq<char> {
        match self {
            Error::ApiRequestRecv(_) => "Error receiving API request"@,
            Error::ApiResponseSend(_) => "Error sending API request"@,
            Error::Bind(_) => "Error binding to UNIX domain socket"@,
            Error::EventFdClone(_) => "Error cloning EventFd"@,
            Error::EventFdCreate(_) => "Error creating EventFd"@,
            Error::EventFdRead(_) => "Error reading from EventFd"@,
            Error::Epoll(_) => "Error creating epoll context"@,
            Error::HttpThreadSpawn(_) => "Error spawning HTTP thread"@,
            Error::DBusThreadSpawn(_) => "Error spawning D-Bus thread"@,
            Error::CreateDBusSession(_) => "Error starting D-Bus session"@,
            Error::EventMonitorThreadSpawn(_) => "Error spawning `event-monitor` thread"@,
            Error::Stdin(_) => "Error handling VM stdin"@,
            Error::Pty(_) => "Error handling VM pty"@,
            Error::VmReboot(_) => "Error rebooting VM"@,
            Error::VmmThreadSpawn(_) => "Error spawning VMM thread"@,
            Error::VmmShutdown(_) => "Error shutting down VMM"@,
            Error::CreateSeccompFilter(_) => "Error creating seccomp filter"@,
            Error::ApplySeccompFilter(_) => "Error applying seccomp filter"@,
            Error::ActivateVirtioDevices(_) => "Error activating virtio devices"@,
            Error::CreateApiServer(detail) => "Error creating API server: "@ + detail@,
            Error::CreateApiServerSocket(_) => "Error creation API server's socket"@,
            Error::GdbThreadSpawn(_) => "Failed to start the GDB thread"@,
            Error::GdbRequestRecv(_) => "Error receiving GDB request"@,
            Error::GdbResponseSend(_) => "Error sending GDB request"@,
            Error::SignalHandlerSpawn(_) => "Cannot spawn a signal handler thread"@,
            Error::ThreadCleanup(detail) => "Failed to join on threads: "@ + detail@,
            Error::CreateLandlock(_) => "Error creating landlock object"@,
            Error::ApplyLandlock(_) => "Error applying landlock"@,
        }
    }

    /// The message of this error. Only an error of the API server or of a
    /// thread's end quotes its detail: the others leave it to their source.
    pub fn message(&self) -> (message: String)
        ensures
            message@ == self.spec_message(),
    {
        match self {
            Error::ApiRequestRecv(_) => "Error receiving API request".to_owned(),
            Error::ApiResponseSend(_) => "Error sending API request".to_owned(),
            Error::Bind(_) => "Error binding to UNIX domain socket".to_owned(),
            Error::EventFdClone(_) => "Error cloning EventFd".to_owned(),
            Error::EventFdCreate(_) => "Error creating EventFd".to_owned(),
            Error::EventFdRead(_) => "Error reading from EventFd".to_owned(),
            Error::Epoll(_) => "Error creating epoll context".to_owned(),
            Error::HttpThreadSpawn(_) => "Error spawning HTTP thread".to_owned(),
            Error::DBusThreadSpawn(_) => "Error spawning D-Bus thread".to_owned(),
            Error::CreateDBusSession(_) => "Error starting D-Bus session".to_owned(),
            Error::EventMonitorThreadSpawn(_) => {
                "Error spawning `event-monitor` thread".to_owned()
            },
            Error::Stdin(_) => "Error handling VM stdin".to_owned(),
            Error::Pty(_) => "Error handling VM pty".to_owned(),
            Error::VmReboot(_) => "Error rebooting VM".to_owned(),
            Error::VmmThreadSpawn(_) => "Error spawning VMM thread".to_owned(),
            Error::VmmShutdown(_) => "Error shutting down VMM".to_owned(),
            Error::CreateSeccompFilter(_) => "Error creating seccomp filter".to_owned(),
            Error::ApplySeccompFilter(_) => "Error applying seccomp filter".to_owned(),
            Error::ActivateVirtioDevices(_) => "Error activating virtio devices".to_owned(),
            Error::CreateApiServer(detail) => {
                "Error creating API server: ".to_owned().concat(detail.as_str())
            },
            Error::CreateApiServerSocket(_) => "Error creation API server's socket".to_owned(),
            Error::GdbThreadSpawn(_) => "Failed to start the GDB thread".to_owned(),
            Error::GdbRequestRecv(_) => "Error receiving GDB request".to_owned(),
            Error::GdbResponseSend(_) => "Error sending GDB request".to_owned(),
            Error::SignalHandlerSpawn(_) => "Cannot spawn a signal handler thread".to_owned(),
            Error::ThreadCleanup(detail) => {
                "Failed to join on threads: ".to_owned().concat(detail.as_str())
            },
            Error::CreateLandlock(_) => "Error creating landlock object".to_owned(),
            Error::ApplyLandlock(_) => "Error applying landlock".to_owned(),
        }
    }
}

} // verus!
