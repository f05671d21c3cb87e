//! What holds of the start of the monitor, and of what it reports.

use vstd::prelude::*;
use crate::dispatch::EpollDispatch;
use crate::endpoint::{endpoint_of, EndpointView};
use crate::error::{Cause, Context, Error};
use crate::features::{feature_names, Build, Features};
use crate::plan::MonitorEvent;
use crate::signals::{handled, last_resort, LastResort, Terminal};
use crate::startup::{
    confinements, event_monitor_steps, monitor_steps, signal_handler_steps, start_failure, verdict,
    vmm_thread_steps, Confinement, HttpServer, SharedEvent, StartAction, StartStep, StartWrap,
    Thread,
};

verus! {

/// Whether some steps are these, with a failure of each reported as what it is:
/// the descriptors of events that cannot be shared or created, a filter that
/// cannot be created, a thread that cannot be spawned, and the control loop's
/// set of descriptors. The API servers report for themselves.
pub open spec fn are_steps(steps: Seq<StartStep>, actions: Seq<StartAction>) -> bool {
    &&& steps.len() == actions.len()
    &&& forall|i: int|
        0 <= i < steps.len() ==> {
            &&& (#[trigger] steps[i]).action == actions[i]
            &&& steps[i].wrap == (match actions[i] {
                StartAction::CreateEpoll => Some(StartWrap::Epoll),
                StartAction::Register(_) => Some(StartWrap::Epoll),
                StartAction::CreateEvent(_) => Some(StartWrap::EventFdCreate),
                StartAction::Share(_) => Some(StartWrap::EventFdClone),
                StartAction::CreateFilter(_) => Some(StartWrap::CreateSeccompFilter),
                StartAction::Spawn(Thread::Vmm) => Some(StartWrap::VmmThreadSpawn),
                StartAction::Spawn(Thread::SignalHandler) => Some(StartWrap::SignalHandlerSpawn),
                StartAction::Spawn(Thread::EventMonitor) => Some(
                    StartWrap::EventMonitorThreadSpawn,
                ),
                StartAction::SpawnDebugger => Some(StartWrap::GdbThreadSpawn),
                StartAction::StartDbus => None,
                StartAction::StartHttp(_) => None,
            })
        }
}

/// The monitor's thread is spawned once, behind everything that it needs: the
/// events of the debugger where there is debugging, those of the API and the
/// exit, and its filter. The API servers start behind it: that of D-Bus where
/// it is built in and asked for, and that of HTTP where a path or a descriptor
/// is given, at the path where there are both. The debugger's thread comes
/// last, where there is debugging and it is asked for.
#[verifier::rlimit(30)]
pub proof fn law_start_of_the_monitor_thread(
    build: Build,
    dbus: bool,
    http_path: Option<String>,
    http_fd: Option<i32>,
    debugger: bool,
)
    ensures
        are_steps(
            vmm_thread_steps(build, dbus, http_path, http_fd, debugger),
            (if build.features.guest_debug {
                seq![
                    StartAction::Share(SharedEvent::Debug),
                    StartAction::Share(SharedEvent::VmDebug),
                ]
            } else {
                Seq::empty()
            }) + seq![
                StartAction::Share(SharedEvent::Api),
                StartAction::CreateFilter(Thread::Vmm),
                StartAction::Share(SharedEvent::Exit),
                StartAction::Spawn(Thread::Vmm),
            ] + (if build.features.dbus_api && dbus {
                seq![
                    StartAction::Share(SharedEvent::Api),
                    StartAction::Share(SharedEvent::Exit),
                    StartAction::StartDbus,
                ]
            } else {
                Seq::empty()
            }) + (if let Some(path) = http_path {
                seq![StartAction::StartHttp(HttpServer::Path(path))]
            } else if let Some(fd) = http_fd {
                seq![StartAction::StartHttp(HttpServer::Fd(fd))]
            } else {
                Seq::empty()
            }) + (if build.features.guest_debug && debugger {
                seq![StartAction::SpawnDebugger]
            } else {
                Seq::empty()
            }),
        ),
{
}

/// The monitor creates its set of descriptors and its own events, and then
/// waits for the exit, a reset, an activation, the API, and the debugger where
/// there is debugging.
pub proof fn law_start_of_the_monitor(build: Build)
    ensures
        are_steps(
            monitor_steps(build),
            seq![
                StartAction::CreateEpoll,
                StartAction::CreateEvent(MonitorEvent::Reset),
                StartAction::CreateEvent(MonitorEvent::Activate),
                StartAction::Register(EpollDispatch::Exit),
                StartAction::Register(EpollDispatch::Reset),
                StartAction::Register(EpollDispatch::ActivateVirtioDevices),
                StartAction::Register(EpollDispatch::Api),
            ] + (if build.features.guest_debug {
                seq![StartAction::Register(EpollDispatch::Debug)]
            } else {
                Seq::empty()
            }),
        ),
{
}

/// The threads that handle signals and hand out events have their filters
/// before they are spawned, and the first can ask for the exit.
pub proof fn law_start_of_the_other_threads()
    ensures
        are_steps(
            signal_handler_steps(),
            seq![
                StartAction::Share(SharedEvent::Exit),
                StartAction::CreateFilter(Thread::SignalHandler),
                StartAction::Spawn(Thread::SignalHandler),
            ],
        ),
        are_steps(
            event_monitor_steps(),
            seq![
                StartAction::CreateFilter(Thread::EventMonitor),
                StartAction::Spawn(Thread::EventMonitor),
            ],
        ),
{
}

/// A failure at the start is reported under its own name, with its reason.
pub proof fn law_failures_at_the_start(fault: String)
    ensures
        start_failure(StartWrap::Epoll, fault) == Error::Epoll(fault),
        start_failure(StartWrap::EventFdCreate, fault) == Error::EventFdCreate(fault),
        start_failure(StartWrap::EventFdClone, fault) == Error::EventFdClone(fault),
        start_failure(StartWrap::CreateSeccompFilter, fault) == Error::CreateSeccompFilter(fault),
        start_failure(StartWrap::EventMonitorThreadSpawn, fault) == Error::EventMonitorThreadSpawn(
            fault,
        ),
        start_failure(StartWrap::SignalHandlerSpawn, fault) == Error::SignalHandlerSpawn(fault),
        start_failure(StartWrap::VmmThreadSpawn, fault) == Error::VmmThreadSpawn(fault),
        start_failure(StartWrap::GdbThreadSpawn, fault) == Error::GdbThreadSpawn(fault),
{
}

/// A thread confines itself by its filter where it has one, and then, unless
/// it is the monitor's, which is confined with its machine, by Landlock rules
/// where they are wanted: first they are made, then they are applied.
pub proof fn law_confinement(thread: Thread, filtered: bool, landlock: bool)
    ensures
        ({
            let steps = confinements(thread, filtered, landlock);
            let rules = landlock && (thread is EventMonitor || thread is SignalHandler);
            &&& steps.contains(Confinement::ApplyFilter) <==> filtered
            &&& filtered ==> steps[0] == Confinement::ApplyFilter
            &&& rules ==> steps.len() >= 2 && steps[steps.len() - 2] == Confinement::CreateLandlock
                && steps.last() == Confinement::RestrictSelf
            &&& steps.len() == (if filtered {
                1int
            } else {
                0int
            }) + (if rules {
                2int
            } else {
                0int
            })
        }),
{
    let steps = confinements(thread, filtered, landlock);
    if filtered {
        assert(steps[0] == Confinement::ApplyFilter);
    }
}

/// What follows where a thread cannot be confined. The monitor's own thread
/// only reports it. The other two ask for the exit, but for the thread that
/// hands out events where rules cannot be made. The thread that handles signals
/// runs on without the rules, and no thread runs without its filter.
pub proof fn law_failed_confinement(thread: Thread, step: Confinement, fault: String)
    ensures
        ({
            let r = verdict(thread, step, fault);
            &&& r.exit <==> thread is SignalHandler || thread is EventMonitor && !(
            step is CreateLandlock)
            &&& r.runs <==> thread is SignalHandler && !(step is ApplyFilter)
            &&& step is ApplyFilter ==> r.error == Error::ApplySeccompFilter(fault)
            &&& step is CreateLandlock ==> r.error == Error::CreateLandlock(fault)
            &&& step is RestrictSelf ==> r.error == Error::ApplyLandlock(fault)
        }),
{
}

/// The names of the features that are built in, and of no others, in
/// alphabetical order.
pub proof fn law_feature_names(f: Features)
    ensures
        feature_names(f) == (if f.dbus_api {
            seq!["dbus_api"@]
        } else {
            Seq::empty()
        }) + (if f.dhat_heap {
            seq!["dhat-heap"@]
        } else {
            Seq::empty()
        }) + (if f.guest_debug {
            seq!["guest_debug"@]
        } else {
            Seq::empty()
        }) + (if f.igvm {
            seq!["igvm"@]
        } else {
            Seq::empty()
        }) + (if f.io_uring {
            seq!["io_uring"@]
        } else {
            Seq::empty()
        }) + (if f.kvm {
            seq!["kvm"@]
        } else {
            Seq::empty()
        }) + (if f.mshv {
            seq!["mshv"@]
        } else {
            Seq::empty()
        }) + (if f.sev_snp {
            seq!["sev_snp"@]
        } else {
            Seq::empty()
        }) + (if f.tdx {
            seq!["tdx"@]
        } else {
            Seq::empty()
        }) + (if f.tracing {
            seq!["tracing"@]
        } else {
            Seq::empty()
        }),
{
}

/// A URL names an endpoint by what follows its scheme, and none where it has
/// neither scheme.
pub proof fn law_endpoints(url: Seq<char>)
    ensures
        "tcp:"@.is_prefix_of(url) ==> endpoint_of(url) == Some(
            EndpointView::Tcp(url.skip("tcp:"@.len() as int)),
        ),
        !"tcp:"@.is_prefix_of(url) && "unix:"@.is_prefix_of(url) ==> endpoint_of(url) == Some(
            EndpointView::Unix(url.skip("unix:"@.len() as int)),
        ),
        !"tcp:"@.is_prefix_of(url) && !"unix:"@.is_prefix_of(url) ==> endpoint_of(url) is None,
{
}

/// Where the monitor cannot be asked to exit, the process ends with a failure,
/// and the terminal gets its settings back before that, where they are known.
pub proof fn law_last_resort(terminal: Terminal)
    ensures
        last_resort(terminal).last() == LastResort::Terminate(1),
        last_resort(terminal).contains(LastResort::RestoreTerminal) <==> terminal is Saved,
        last_resort(terminal).contains(LastResort::WarnTerminal) <==> terminal is Unavailable,
        last_resort(terminal).len() == if terminal is Untouched {
            1int
        } else {
            2
        },
        forall|signal: i32| #[trigger] handled().contains(signal) <==> signal == 15 || signal == 2,
{
    let steps = last_resort(terminal);
    assert(terminal is Saved ==> steps[0] == LastResort::RestoreTerminal);
    assert(terminal is Unavailable ==> steps[0] == LastResort::WarnTerminal);
    assert(handled()[0] == 15 && handled()[1] == 2);
}

/// What is said of each context of a migration.
pub proof fn law_context_texts(context: Context)
    ensures
        context.spec_text() == (
        match context {
            Context::ExtractPath => "Could not extract path from URL"@,
            Context::ConnectTcp => "Error connecting to TCP socket"@,
            Context::ConnectUnix => "Error connecting to UNIX socket"@,
            Context::BindTcp => "Error binding to TCP socket"@,
            Context::AcceptTcp => "Error accepting connection on TCP socket"@,
            Context::BindUnix => "Error binding to UNIX socket"@,
            Context::AcceptUnix => "Error accepting connection on UNIX socket"@,
            Context::RemoveSocketFile => "Error removing UNIX socket file"@,
            Context::Start => "Error starting migration"@,
            Context::Config => "Error during config migration"@,
            Context::Memory => "Error during dirty memory migration"@,
            Context::State => "Error during state migration"@,
            Context::Complete => "Error completing migration"@,
            Context::Tdx => "Live Migration is not supported when TDX is enabled"@,
            Context::SourceCpuid => "Error generating common cpuid'"@,
            Context::DestinationCpuid => "Error generating common cpuid"@,
            Context::CompareCpuid => "Error checking cpu feature compatibility'"@,
            Context::LocalOverTcp => "--local option is not supported with TCP sockets"@,
            Context::LocalNeedsSharedMemory =>
                "Local migration requires shared memory or hugepages enabled"@,
            Context::SignalExit => "Failed shutting down the VM after migration"@,
            Context::NotRunning => "VM is not running"@,
            Context::DecodeConfig => "Error deserialising config"@,
            Context::CreateConsole => "Error creating console devices"@,
            Context::ApplyLandlock => "Error applying landlock"@,
            Context::CreateHypervisorVm => "Error creating hypervisor VM from snapshot"@,
            Context::CreateMemoryManager => "Error creating MemoryManager from snapshot"@,
            Context::DecodeSnapshot => "Error deserialising snapshot"@,
            Context::CloneExit => "Error cloning exit EventFd"@,
            Context::CloneReset => "Error cloning reset EventFd"@,
            Context::CloneDebug => "Error cloning debug EventFd"@,
            Context::CloneActivate => "Error cloning activate EventFd"@,
            Context::CreateVm => "Error creating VM from snapshot"@,
            Context::RestoreVm => "Failed restoring the Vm"@,
            Context::ReceiveSlot => "Error receiving slot from socket"@,
        }),
{
}

/// What went wrong in a migration is told by its context, and then by what was
/// reported, where anything was.
pub proof fn law_causes(cause: Cause)
    ensures
        cause.detail is None ==> cause.spec_message() == cause.context.spec_text(),
        cause.detail matches Some(detail) ==> cause.spec_message() == cause.context.spec_text()
            + ": "@ + detail@,
{
}

/// What is said of each error of the monitor.
pub proof fn law_error_messages(error: Error)
    ensures
        error.spec_message() == (
        match error {
            Error::ApiRequestRecv(_) => "Error receiving API request"@,
            Error::ApiResponseSend(_) => "Error sending API request"@,
            Error::Bind(_) => "Error binding to UNIX domain socket"@,
            Error::EventFdClone(_) => "Error cloning EventFd"@,
            Error::EventFdCreate(_) => "Error creating EventFd"@,
            Error::EventFdRead(_) => "Error reading from EventFd"@,
            Error::Epoll(_) => "Error creating epoll context"@,
            Error::HttpThreadSpawn(_) => "Error spawning HTTP thread"@,
            Error::DBusThreadSpawn(_) => "Error spawning D-Bus thread"@,
            Error::CreateDBusSession(_) => "Error starting D-Bus session"@,
            Error::EventMonitorThreadSpawn(_) => "Error spawning `event-monitor` thread"@,
            Error::Stdin(_) => "Error handling VM stdin"@,
            Error::Pty(_) => "Error handling VM pty"@,
            Error::VmReboot(_) => "Error rebooting VM"@,
            Error::VmmThreadSpawn(_) => "Error spawning VMM thread"@,
            Error::VmmShutdown(_) => "Error shutting down VMM"@,
            Error::CreateSeccompFilter(_) => "Error creating seccomp filter"@,
            Error::ApplySeccompFilter(_) => "Error applying seccomp filter"@,
            Error::ActivateVirtioDevices(_) => "Error activating virtio devices"@,
            Error::CreateApiServer(detail) => "Error creating API server: "@ + detail@,
            Error::CreateApiServerSocket(_) => "Error creation API server's socket"@,
            Error::GdbThreadSpawn(_) => "Failed to start the GDB thread"@,
            Error::GdbRequestRecv(_) => "Error receiving GDB request"@,
            Error::GdbResponseSend(_) => "Error sending GDB request"@,
            Error::SignalHandlerSpawn(_) => "Cannot spawn a signal handler thread"@,
            Error::ThreadCleanup(detail) => "Failed to join on threads: "@ + detail@,
            Error::CreateLandlock(_) => "Error creating landlock object"@,
            Error::ApplyLandlock(_) => "Error applying landlock"@,
        }),
{
}

} // verus!
