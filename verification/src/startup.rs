//! How the monitor and its threads start.
//!
//! To start something is to go through a list of steps. The host performs
//! them in their order, and the first that fails ends the start with its
//! error.

use vstd::prelude::*;
use crate::dispatch::EpollDispatch;
use crate::error::Error;
use crate::features::Build;
use crate::plan::MonitorEvent;
use crate::vmm::Vmm;

verus! {

/// A thread of the monitor.
#[derive(Debug, Clone, Copy, PartialEq, Eq, Structural)]
pub enum Thread {
    /// It hands out what the monitor announces.
    EventMonitor,
    /// It waits for signals.
    SignalHandler,
    /// It runs the control loop.
    Vmm,
}

/// An event descriptor that is cloned for another thread.
#[derive(Debug, Clone, Copy, PartialEq, Eq, Structural)]
pub enum SharedEvent {
    /// A debugger's request waits.
    Debug,
    /// The machine reports to the debugger.
    VmDebug,
    /// An API request waits.
    Api,
    /// The monitor is to exit.
    Exit,
}

/// Where the HTTP API is served.
#[derive(Debug, PartialEq, Eq)]
pub enum HttpServer {
    /// At a socket of this path.
    Path(String),
    /// At this descriptor.
    Fd(i32),
}

/// A step of a start.
#[derive(Debug, PartialEq, Eq)]
pub enum StartAction {
    /// Create the set of descriptors that the control loop waits for.
    CreateEpoll,
    /// Create an event descriptor.
    CreateEvent(MonitorEvent),
    /// Let the control loop wait for an event.
    Register(EpollDispatch),
    /// Clone an event descriptor for another thread.
    Share(SharedEvent),
    /// Create the seccomp filter of a thread.
    CreateFilter(Thread),
    /// Spawn a thread.
    Spawn(Thread),
    /// Serve the D-Bus API.
    StartDbus,
    /// Serve the HTTP API.
    StartHttp(HttpServer),
    /// Spawn the thread that a debugger connects to.
    SpawnDebugger,
}

/// What a failed step is reported as.
#[derive(Debug, Clone, Copy, PartialEq, Eq, Structural)]
pub enum StartWrap {
    /// `Error::Epoll`.
    Epoll,
    /// `Error::EventFdCreate`.
    EventFdCreate,
    /// `Error::EventFdClone`.
    EventFdClone,
    /// `Error::CreateSeccompFilter`.
    CreateSeccompFilter,
    /// `Error::EventMonitorThreadSpawn`.
    EventMonitorThreadSpawn,
    /// `Error::SignalHandlerSpawn`.
    SignalHandlerSpawn,
    /// `Error::VmmThreadSpawn`.
    VmmThreadSpawn,
    /// `Error::GdbThreadSpawn`.
    GdbThreadSpawn,
}

/// A step of a start, and what its failure is reported as. Without that, the
/// step reports an error of its own.
#[derive(Debug, PartialEq, Eq)]
pub struct StartStep {
    /// The step.
    pub action: StartAction,
    /// What its failure is reported as.
    pub wrap: Option<StartWrap>,
}

/// The error that ends a start.
pub open spec fn start_failure(wrap: StartWrap, fault: String) -> Error {
    match wrap {
        StartWrap::Epoll => Error::Epoll(fault),
        StartWrap::EventFdCreate => Error::EventFdCreate(fault),
        StartWrap::EventFdClone => Error::EventFdClone(fault),
        StartWrap::CreateSeccompFilter => Error::CreateSeccompFilter(fault),
        StartWrap::EventMonitorThreadSpawn => Error::EventMonitorThreadSpawn(fault),
        StartWrap::SignalHandlerSpawn => Error::SignalHandlerSpawn(fault),
        StartWrap::VmmThreadSpawn => Error::VmmThreadSpawn(fault),
        StartWrap::GdbThreadSpawn => Error::GdbThreadSpawn(fault),
    }
}

/// The error that ends a start.
pub fn start_error(wrap: StartWrap, fault: String) -> (error: Error)
    ensures
        error == start_failure(wrap, fault),
{
    match wrap {
        StartWrap::Epoll => Error::Epoll(fault),
        StartWrap::EventFdCreate => Error::EventFdCreate(fault),
        StartWrap::EventFdClone => Error::EventFdClone(fault),
        StartWrap::CreateSeccompFilter => Error::CreateSeccompFilter(fault),
        StartWrap::EventMonitorThreadSpawn => Error::EventMonitorThreadSpawn(fault),
        StartWrap::SignalHandlerSpawn => Error::SignalHandlerSpawn(fault),
        StartWrap::VmmThreadSpawn => Error::VmmThreadSpawn(fault),
        StartWrap::GdbThreadSpawn => Error::GdbThreadSpawn(fault),
    }
}

/// A step whose failure is reported as `wrap`.
pub open spec fn start_step(action: StartAction, wrap: StartWrap) -> StartStep {
    StartStep { action, wrap: Some(wrap) }
}

/// A step that reports an error of its own.
pub open spec fn own_step(action: StartAction) -> StartStep {
    StartStep { action, wrap: None }
}

/// Some steps, under a condition.
pub open spec fn steps_if(condition: bool, steps: Seq<StartStep>) -> Seq<StartStep> {
    if condition {
        steps
    } else {
        Seq::empty()
    }
}

/// An event descriptor is cloned for another thread.
pub open spec fn share(event: SharedEvent) -> StartStep {
    start_step(StartAction::Share(event), StartWrap::EventFdClone)
}

/// The control loop waits for an event.
pub open spec fn register(event: EpollDispatch) -> StartStep {
    start_step(StartAction::Register(event), StartWrap::Epoll)
}

/// The thread that hands out what the monitor announces starts.
pub open spec fn event_monitor_steps() -> Seq<StartStep> {
    seq![
        start_step(
            StartAction::CreateFilter(Thread::EventMonitor),
            StartWrap::CreateSeccompFilter,
        ),
        start_step(StartAction::Spawn(Thread::EventMonitor), StartWrap::EventMonitorThreadSpawn),
    ]
}

/// Where the HTTP API is served: a path is preferred to a descriptor.
pub open spec fn http_server(path: Option<String>, fd: Option<i32>) -> Option<HttpServer> {
    match (path, fd) {
        (Some(path), _) => Some(HttpServer::Path(path)),
        (None, Some(fd)) => Some(HttpServer::Fd(fd)),
        (None, None) => None,
    }
}

/// The HTTP API is served, where it is asked for.
pub open spec fn http_steps(path: Option<String>, fd: Option<i32>) -> Seq<StartStep> {
    match http_server(path, fd) {
        Some(server) => seq![own_step(StartAction::StartHttp(server))],
        None => Seq::empty(),
    }
}

/// The monitor's thread starts and, once it runs, the APIs and the debugger's
/// thread.
pub open spec fn vmm_thread_steps(
    build: Build,
    dbus: bool,
    http_path: Option<String>,
    http_fd: Option<i32>,
    debugger: bool,
) -> Seq<StartStep> {
    steps_if(
        build.features.guest_debug,
        seq![share(SharedEvent::Debug), share(SharedEvent::VmDebug)],
    ) + seq![
        share(SharedEvent::Api),
        start_step(StartAction::CreateFilter(Thread::Vmm), StartWrap::CreateSeccompFilter),
        share(SharedEvent::Exit),
        start_step(StartAction::Spawn(Thread::Vmm), StartWrap::VmmThreadSpawn),
    ] + steps_if(
        build.features.dbus_api && dbus,
        seq![
            share(SharedEvent::Api),
            share(SharedEvent::Exit),
            own_step(StartAction::StartDbus),
        ],
    ) + http_steps(http_path, http_fd) + steps_if(
        build.features.guest_debug && debugger,
        seq![start_step(StartAction::SpawnDebugger, StartWrap::GdbThreadSpawn)],
    )
}

/// What the monitor waits with is created, and it waits for its events. The
/// debugger's is among them where guests can be debugged.
pub open spec fn monitor_steps(build: Build) -> Seq<StartStep> {
    seq![
        start_step(StartAction::CreateEpoll, StartWrap::Epoll),
        start_step(StartAction::CreateEvent(MonitorEvent::Reset), StartWrap::EventFdCreate),
        start_step(StartAction::CreateEvent(MonitorEvent::Activate), StartWrap::EventFdCreate),
        register(EpollDispatch::Exit),
        register(EpollDispatch::Reset),
        register(EpollDispatch::ActivateVirtioDevices),
        register(EpollDispatch::Api),
    ] + steps_if(build.features.guest_debug, seq![register(EpollDispatch::Debug)])
}

/// The thread that waits for signals starts.
pub open spec fn signal_handler_steps() -> Seq<StartStep> {
    seq![
        share(SharedEvent::Exit),
        start_step(
            StartAction::CreateFilter(Thread::SignalHandler),
            StartWrap::CreateSeccompFilter,
        ),
        start_step(StartAction::Spawn(Thread::SignalHandler), StartWrap::SignalHandlerSpawn),
    ]
}

/// A step whose failure is reported as `wrap`.
fn step(action: StartAction, wrap: StartWrap) -> (step: StartStep)
    ensures
        step == start_step(action, wrap),
{
    StartStep { action, wrap: Some(wrap) }
}

/// Some steps, and some more.
fn join_steps(head: Vec<StartStep>, tail: Vec<StartStep>) -> (steps: Vec<StartStep>)
    ensures
        steps@ == head@ + tail@,
{
    let mut steps: Vec<StartStep> = head;
    let mut rest: Vec<StartStep> = tail;
    steps.append(&mut rest);
    steps
}

/// The steps of the thread that hands out what the monitor announces.
pub fn plan_event_monitor() -> (steps: Vec<StartStep>)
    ensures
        steps@ == event_monitor_steps(),
{
    let steps: Vec<StartStep> = vec![
        step(StartAction::CreateFilter(Thread::EventMonitor), StartWrap::CreateSeccompFilter),
        step(StartAction::Spawn(Thread::EventMonitor), StartWrap::EventMonitorThreadSpawn),
    ];
    assert(steps@ =~= event_monitor_steps());
    steps
}

/// An event descriptor is cloned for another thread.
fn sharing(event: SharedEvent) -> (r: StartStep)
    ensures
        r == share(event),
{
    step(StartAction::Share(event), StartWrap::EventFdClone)
}

/// The control loop waits for an event.
fn registering(event: EpollDispatch) -> (r: StartStep)
    ensures
        r == register(event),
{
    step(StartAction::Register(event), StartWrap::Epoll)
}

/// What is cloned for the debugger's thread.
fn plan_debug_events(build: &Build) -> (steps: Vec<StartStep>)
    ensures
        steps@ == steps_if(
            build.features.guest_debug,
            seq![share(SharedEvent::Debug), share(SharedEvent::VmDebug)],
        ),
{
    let mut steps: Vec<StartStep> = Vec::new();
    if build.features.guest_debug {
        steps.push(sharing(SharedEvent::Debug));
        steps.push(sharing(SharedEvent::VmDebug));
    }
    assert(steps@ =~= steps_if(
        build.features.guest_debug,
        seq![share(SharedEvent::Debug), share(SharedEvent::VmDebug)],
    ));
    steps
}

/// The monitor's thread starts.
fn plan_spawn() -> (steps: Vec<StartStep>)
    ensures
        steps@ == seq![
            share(SharedEvent::Api),
            start_step(StartAction::CreateFilter(Thread::Vmm), StartWrap::CreateSeccompFilter),
            share(SharedEvent::Exit),
            start_step(StartAction::Spawn(Thread::Vmm), StartWrap::VmmThreadSpawn),
        ],
{
    let steps: Vec<StartStep> = vec![
        sharing(SharedEvent::Api),
        step(StartAction::CreateFilter(Thread::Vmm), StartWrap::CreateSeccompFilter),
        sharing(SharedEvent::Exit),
        step(StartAction::Spawn(Thread::Vmm), StartWrap::VmmThreadSpawn),
    ];
    assert(steps@ =~= seq![
        share(SharedEvent::Api),
        start_step(StartAction::CreateFilter(Thread::Vmm), StartWrap::CreateSeccompFilter),
        share(SharedEvent::Exit),
        start_step(StartAction::Spawn(Thread::Vmm), StartWrap::VmmThreadSpawn),
    ]);
    steps
}

/// The D-Bus API is served, where it is built in and asked for.
fn plan_dbus(build: &Build, dbus: bool) -> (steps: Vec<StartStep>)
    ensures
        steps@ == steps_if(
            build.features.dbus_api && dbus,
            seq![
                share(SharedEvent::Api),
                share(SharedEvent::Exit),
                own_step(StartAction::StartDbus),
            ],
        ),
{
    let mut steps: Vec<StartStep> = Vec::new();
    if build.features.dbus_api && dbus {
        steps.push(sharing(SharedEvent::Api));
        steps.push(sharing(SharedEvent::Exit));
        steps.push(StartStep { action: StartAction::StartDbus, wrap: None });
    }
    assert(steps@ =~= steps_if(
        build.features.dbus_api && dbus,
        seq![
            share(SharedEvent::Api),
            share(SharedEvent::Exit),
            own_step(StartAction::StartDbus),
        ],
    ));
    steps
}

/// The HTTP API is served, where it is asked for.
fn plan_http(http_path: Option<String>, http_fd: Option<i32>) -> (steps: Vec<StartStep>)
    ensures
        steps@ == http_steps(http_path, http_fd),
{
    let mut steps: Vec<StartStep> = Vec::new();
    match (http_path, http_fd) {
        (Some(path), _) => {
            let action = StartAction::StartHttp(HttpServer::Path(path));
            steps.push(StartStep { action, wrap: None });
        },
        (None, Some(fd)) => {
            let action = StartAction::StartHttp(HttpServer::Fd(fd));
            steps.push(StartStep { action, wrap: None });
        },
        (None, None) => {},
    }
    assert(steps@ =~= http_steps(http_path, http_fd));
    steps
}

/// The debugger's thread starts, where it is built in and asked for.
fn plan_debugger(build: &Build, debugger: bool) -> (steps: Vec<StartStep>)
    ensures
        steps@ == steps_if(
            build.features.guest_debug && debugger,
            seq![start_step(StartAction::SpawnDebugger, StartWrap::GdbThreadSpawn)],
        ),
{
    let mut steps: Vec<StartStep> = Vec::new();
    if build.features.guest_debug && debugger {
        steps.push(step(StartAction::SpawnDebugger, StartWrap::GdbThreadSpawn));
    }
    assert(steps@ =~= steps_if(
        build.features.guest_debug && debugger,
        seq![start_step(StartAction::SpawnDebugger, StartWrap::GdbThreadSpawn)],
    ));
    steps
}

/// The steps of the monitor's thread, of the APIs and of the debugger's thread.
pub fn plan_vmm_thread(
    build: &Build,
    dbus: bool,
    http_path: Option<String>,
    http_fd: Option<i32>,
    debugger: bool,
) -> (steps: Vec<StartStep>)
    ensures
        steps@ == vmm_thread_steps(*build, dbus, http_path, http_fd, debugger),
{
    let running = join_steps(plan_debug_events(build), plan_spawn());
    let served = join_steps(
        join_steps(running, plan_dbus(build, dbus)),
        plan_http(http_path, http_fd),
    );
    join_steps(served, plan_debugger(build, debugger))
}

/// The steps of the monitor itself.
pub fn plan_monitor(build: &Build) -> (steps: Vec<StartStep>)
    ensures
        steps@ == monitor_steps(*build),
{
    let mut steps: Vec<StartStep> = vec![
        step(StartAction::CreateEpoll, StartWrap::Epoll),
        step(StartAction::CreateEvent(MonitorEvent::Reset), StartWrap::EventFdCreate),
        step(StartAction::CreateEvent(MonitorEvent::Activate), StartWrap::EventFdCreate),
        registering(EpollDispatch::Exit),
        registering(EpollDispatch::Reset),
        registering(EpollDispatch::ActivateVirtioDevices),
        registering(EpollDispatch::Api),
    ];
    if build.features.guest_debug {
        steps.push(registering(EpollDispatch::Debug));
    }
    assert(steps@ =~= monitor_steps(*build));
    steps
}

/// The steps of the thread that waits for signals.
fn plan_signal_handler() -> (steps: Vec<StartStep>)
    ensures
        steps@ == signal_handler_steps(),
{
    let steps: Vec<StartStep> = vec![
        sharing(SharedEvent::Exit),
        step(StartAction::CreateFilter(Thread::SignalHandler), StartWrap::CreateSeccompFilter),
        step(StartAction::Spawn(Thread::SignalHandler), StartWrap::SignalHandlerSpawn),
    ];
    assert(steps@ =~= signal_handler_steps());
    steps
}

impl Vmm {
    /// Notes whether signals could be registered, and says how their thread
    /// starts. Where they could not, the monitor runs without: that is no
    /// error.
    pub fn setup_signal_handler(&mut self, registered: bool) -> (steps: Vec<StartStep>)
        ensures
            *final(self) == (Vmm { signals: old(self).signals || registered, ..*old(self) }),
            steps@ == steps_if(registered, signal_handler_steps()),
    {
        if registered {
            self.signals = true;
            plan_signal_handler()
        } else {
            Vec::new()
        }
    }

    /// Notes that a thread runs that is to be waited for at the end.
    pub fn thread_spawned(&mut self)
        requires
            old(self).threads < u64::MAX,
        ensures
            *final(self) == (Vmm { threads: (old(self).threads + 1) as u64, ..*old(self) }),
    {
        self.threads = self.threads + 1;
    }
}

/// A step by which a thread confines itself.
#[derive(Debug, Clone, Copy, PartialEq, Eq, Structural)]
pub enum Confinement {
    /// Apply the seccomp filter.
    ApplyFilter,
    /// Create a Landlock ruleset.
    CreateLandlock,
    /// Restrict the thread by it.
    RestrictSelf,
}

/// What follows a failed confinement.
#[derive(Debug, PartialEq, Eq)]
pub struct Verdict {
    /// Whether the monitor is asked to exit.
    pub exit: bool,
    /// Whether the thread runs all the same, without the rest of its
    /// confinement.
    pub runs: bool,
    /// The error that is reported.
    pub error: Error,
}

/// Some confinements, under a condition.
pub open spec fn confined_if(condition: bool, steps: Seq<Confinement>) -> Seq<Confinement> {
    if condition {
        steps
    } else {
        Seq::empty()
    }
}

/// How a thread confines itself: by its seccomp filter, unless that is empty,
/// and by Landlock, where that is on. The monitor's own thread leaves Landlock
/// to its requests.
pub open spec fn confinements(
    thread: Thread,
    filtered: bool,
    landlock: bool,
) -> Seq<Confinement> {
    confined_if(filtered, seq![Confinement::ApplyFilter]) + confined_if(
        landlock && thread != Thread::Vmm,
        seq![Confinement::CreateLandlock, Confinement::RestrictSelf],
    )
}

/// How a thread confines itself.
pub fn plan_confinement(thread: Thread, filtered: bool, landlock: bool) -> (steps: Vec<Confinement>)
    ensures
        steps@ == confinements(thread, filtered, landlock),
{
    let mut steps: Vec<Confinement> = Vec::new();
    if filtered {
        steps.push(Confinement::ApplyFilter);
    }
    if landlock && thread != Thread::Vmm {
        steps.push(Confinement::CreateLandlock);
        steps.push(Confinement::RestrictSelf);
    }
    assert(steps@ =~= confinements(thread, filtered, landlock));
    steps
}

/// The error of a failed confinement.
pub open spec fn confinement_error(step: Confinement, fault: String) -> Error {
    match step {
        Confinement::ApplyFilter => Error::ApplySeccompFilter(fault),
        Confinement::CreateLandlock => Error::CreateLandlock(fault),
        Confinement::RestrictSelf => Error::ApplyLandlock(fault),
    }
}

/// What follows a failed confinement. The thread does not run, but for the one
/// that waits for signals, which does without Landlock. The monitor is asked
/// to exit, but not by its own thread, whose error ends it anyway, nor by the
/// event monitor where it cannot create a Landlock ruleset.
pub open spec fn verdict(thread: Thread, step: Confinement, fault: String) -> Verdict {
    Verdict {
        exit: match thread {
            Thread::EventMonitor => step != Confinement::CreateLandlock,
            Thread::SignalHandler => true,
            Thread::Vmm => false,
        },
        runs: thread == Thread::SignalHandler && step != Confinement::ApplyFilter,
        error: confinement_error(step, fault),
    }
}

/// What follows a failed confinement.
pub fn confinement_failed(thread: Thread, step: Confinement, fault: String) -> (r: Verdict)
    ensures
        r == verdict(thread, step, fault),
{
    let exit = match thread {
        Thread::EventMonitor => step != Confinement::CreateLandlock,
        Thread::SignalHandler => true,
        Thread::Vmm => false,
    };
    let runs = thread == Thread::SignalHandler && step != Confinement::ApplyFilter;
    let error = match step {
        Confinement::ApplyFilter => Error::ApplySeccompFilter(fault),
        Confinement::CreateLandlock => Error::CreateLandlock(fault),
        Confinement::RestrictSelf => Error::ApplyLandlock(fault),
    };
    Verdict { exit, runs, error }
}

} // verus!
