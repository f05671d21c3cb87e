use vmm::delivery::{plan_delivery, Delivery};
use vmm::dispatch::EpollDispatch;
use vmm::error::Error;
use vmm::features::{Build, Features, VmmVersionInfo};
use vmm::plan::MonitorEvent;
use vmm::startup::{
    confinement_failed, plan_confinement, plan_event_monitor, plan_monitor, plan_vmm_thread,
    start_error, Confinement, HttpServer, SharedEvent, StartAction, StartStep, StartWrap, Thread,
    Verdict,
};
use vmm::vmm::Vmm;

fn build(guest_debug: bool, dbus_api: bool) -> Build {
    Build {
        features: Features {
            dbus_api,
            dhat_heap: false,
            guest_debug,
            igvm: false,
            io_uring: false,
            kvm: true,
            mshv: false,
            sev_snp: false,
            tdx: false,
            tracing: false,
        },
        x86_64: true,
    }
}

fn step(action: StartAction, wrap: StartWrap) -> StartStep {
    StartStep { action, wrap: Some(wrap) }
}

fn share(event: SharedEvent) -> StartStep {
    step(StartAction::Share(event), StartWrap::EventFdClone)
}

fn register(event: EpollDispatch) -> StartStep {
    step(StartAction::Register(event), StartWrap::Epoll)
}

#[test]
fn the_event_monitor_needs_its_filter_first() {
    assert_eq!(
        plan_event_monitor(),
        vec![
            step(
                StartAction::CreateFilter(Thread::EventMonitor),
                StartWrap::CreateSeccompFilter
            ),
            step(
                StartAction::Spawn(Thread::EventMonitor),
                StartWrap::EventMonitorThreadSpawn
            ),
        ]
    );
}

#[test]
fn a_bare_monitor_starts_its_thread_alone() {
    assert_eq!(
        plan_vmm_thread(&build(false, false), true, None, None, true),
        vec![
            share(SharedEvent::Api),
            step(StartAction::CreateFilter(Thread::Vmm), StartWrap::CreateSeccompFilter),
            share(SharedEvent::Exit),
            step(StartAction::Spawn(Thread::Vmm), StartWrap::VmmThreadSpawn),
        ]
    );
}

#[test]
fn apis_and_debugger_follow_the_thread() {
    assert_eq!(
        plan_vmm_thread(&build(true, true), true, Some("/run/api".to_string()), Some(5), true),
        vec![
            share(SharedEvent::Debug),
            share(SharedEvent::VmDebug),
            share(SharedEvent::Api),
            step(StartAction::CreateFilter(Thread::Vmm), StartWrap::CreateSeccompFilter),
            share(SharedEvent::Exit),
            step(StartAction::Spawn(Thread::Vmm), StartWrap::VmmThreadSpawn),
            share(SharedEvent::Api),
            share(SharedEvent::Exit),
            StartStep { action: StartAction::StartDbus, wrap: None },
            StartStep {
                action: StartAction::StartHttp(HttpServer::Path("/run/api".to_string())),
                wrap: None,
            },
            step(StartAction::SpawnDebugger, StartWrap::GdbThreadSpawn),
        ]
    );
}

#[test]
fn a_descriptor_serves_http_without_a_path() {
    let steps = plan_vmm_thread(&build(true, false), true, None, Some(5), false);
    assert_eq!(
        steps.last(),
        Some(&StartStep {
            action: StartAction::StartHttp(HttpServer::Fd(5)),
            wrap: None,
        })
    );
    assert_eq!(steps.len(), 7);
}

#[test]
fn the_monitor_waits_for_its_events() {
    let plain = plan_monitor(&build(false, false));
    assert_eq!(
        plain,
        vec![
            step(StartAction::CreateEpoll, StartWrap::Epoll),
            step(
                StartAction::CreateEvent(MonitorEvent::Reset),
                StartWrap::EventFdCreate
            ),
            step(
                StartAction::CreateEvent(MonitorEvent::Activate),
                StartWrap::EventFdCreate
            ),
            register(EpollDispatch::Exit),
            register(EpollDispatch::Reset),
            register(EpollDispatch::ActivateVirtioDevices),
            register(EpollDispatch::Api),
        ]
    );
    let debugged = plan_monitor(&build(true, false));
    assert_eq!(debugged.len(), 8);
    assert_eq!(debugged.last(), Some(&register(EpollDispatch::Debug)));
}

#[test]
fn failed_steps_end_the_start_with_their_error() {
    let f = || "fault".to_string();
    let all = [
        (StartWrap::Epoll, Error::Epoll(f())),
        (StartWrap::EventFdCreate, Error::EventFdCreate(f())),
        (StartWrap::EventFdClone, Error::EventFdClone(f())),
        (StartWrap::CreateSeccompFilter, Error::CreateSeccompFilter(f())),
        (StartWrap::EventMonitorThreadSpawn, Error::EventMonitorThreadSpawn(f())),
        (StartWrap::SignalHandlerSpawn, Error::SignalHandlerSpawn(f())),
        (StartWrap::VmmThreadSpawn, Error::VmmThreadSpawn(f())),
        (StartWrap::GdbThreadSpawn, Error::GdbThreadSpawn(f())),
    ];
    for (wrap, error) in all {
        assert_eq!(start_error(wrap, f()), error);
    }
}

#[test]
fn signals_are_handled_by_a_thread() {
    let mut vmm = Vmm::new(VmmVersionInfo::new("b", "v"), build(false, false));
    assert_eq!(
        vmm.setup_signal_handler(true),
        vec![
            share(SharedEvent::Exit),
            step(
                StartAction::CreateFilter(Thread::SignalHandler),
                StartWrap::CreateSeccompFilter
            ),
            step(
                StartAction::Spawn(Thread::SignalHandler),
                StartWrap::SignalHandlerSpawn
            ),
        ]
    );
    assert!(vmm.signals);
    assert_eq!(vmm.threads, 0);
    vmm.thread_spawned();
    assert_eq!(vmm.threads, 1);
}

#[test]
fn the_monitor_runs_without_signals() {
    let mut vmm = Vmm::new(VmmVersionInfo::new("b", "v"), build(false, false));
    assert_eq!(vmm.setup_signal_handler(false), Vec::new());
    assert!(!vmm.signals);
}

#[test]
fn threads_confine_themselves() {
    assert_eq!(
        plan_confinement(Thread::EventMonitor, true, true),
        vec![
            Confinement::ApplyFilter,
            Confinement::CreateLandlock,
            Confinement::RestrictSelf
        ]
    );
    assert_eq!(
        plan_confinement(Thread::SignalHandler, false, true),
        vec![Confinement::CreateLandlock, Confinement::RestrictSelf]
    );
    assert_eq!(
        plan_confinement(Thread::Vmm, true, true),
        vec![Confinement::ApplyFilter]
    );
    assert_eq!(plan_confinement(Thread::EventMonitor, false, false), Vec::new());
}

#[test]
fn failed_confinements_have_their_verdict() {
    let f = || "fault".to_string();
    let filter = || Error::ApplySeccompFilter(f());
    let create = || Error::CreateLandlock(f());
    let apply = || Error::ApplyLandlock(f());
    let all = [
        (Thread::EventMonitor, Confinement::ApplyFilter, true, false, filter()),
        (Thread::EventMonitor, Confinement::CreateLandlock, false, false, create()),
        (Thread::EventMonitor, Confinement::RestrictSelf, true, false, apply()),
        (Thread::SignalHandler, Confinement::ApplyFilter, true, false, filter()),
        (Thread::SignalHandler, Confinement::CreateLandlock, true, true, create()),
        (Thread::SignalHandler, Confinement::RestrictSelf, true, true, apply()),
        (Thread::Vmm, Confinement::ApplyFilter, false, false, filter()),
    ];
    for (thread, step, exit, runs, error) in all {
        assert_eq!(
            confinement_failed(thread, step, f()),
            Verdict { exit, runs, error }
        );
    }
}

#[test]
fn events_are_written_and_sent() {
    let event = "{\"event\":\"booted\"}".to_string();
    let write = |text: &str| Delivery::Write(text.to_string());
    assert_eq!(
        plan_delivery(&event, true, 2),
        vec![write(&event), write("\n\n"), Delivery::Send(0), Delivery::Send(1)]
    );
    assert_eq!(plan_delivery(&event, false, 1), vec![Delivery::Send(0)]);
    assert_eq!(plan_delivery(&event, false, 0), vec![]);
}
