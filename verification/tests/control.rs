use vmm::config::{
    ConsoleConfig, ConsoleOutputMode, CpuFeatures, CpusConfig, HotplugMethod, MemoryConfig,
    RngConfig, VmConfig,
};
use vmm::control::{ControlLoop, LoopAction, LoopOutcome, LoopStep, Stage};
use vmm::dispatch::EpollDispatch;
use vmm::error::{Error, VmError};
use vmm::features::{Build, Features, VmmVersionInfo};
use vmm::plan::{Action, Notice, Outcome};
use vmm::vmm::{Machine, Vmm};

fn monitor(guest_debug: bool) -> Vmm {
    let features = Features {
        dbus_api: false,
        dhat_heap: false,
        guest_debug,
        igvm: false,
        io_uring: false,
        kvm: false,
        mshv: false,
        sev_snp: false,
        tdx: false,
        tracing: false,
    };
    Vmm::new(VmmVersionInfo::new("b", "v"), Build { features, x86_64: true })
}

fn config() -> VmConfig {
    VmConfig {
        cpus: CpusConfig {
            boot_vcpus: 1,
            max_vcpus: 4,
            topology: None,
            kvm_hyperv: false,
            max_phys_bits: 46,
            features: CpuFeatures { amx: true },
        },
        memory: MemoryConfig {
            size: 1 << 29,
            mergeable: false,
            hotplug_method: HotplugMethod::Acpi,
            hotplug_size: None,
            hotplugged_size: None,
            shared: true,
            hugepages: false,
            hugepage_size: None,
            prefault: false,
            zones: None,
            thp: true,
        },
        payload: None,
        disks: None,
        net: None,
        rng: RngConfig { src: "/dev/urandom".to_string(), iommu: false },
        balloon: None,
        fs: None,
        pmem: None,
        serial: ConsoleConfig {
            file: None,
            mode: ConsoleOutputMode::Null,
            iommu: false,
            socket: None,
        },
        console: ConsoleConfig {
            file: None,
            mode: ConsoleOutputMode::Tty,
            iommu: false,
            socket: None,
        },
        devices: None,
        user_devices: None,
        vdpa: None,
        vsock: None,
        pvpanic: false,
        iommu: false,
        watchdog: false,
        tdx: false,
        landlock_enable: false,
        options: String::new(),
    }
}

fn waiting(vmm: Vmm) -> ControlLoop {
    let (control, step) = ControlLoop::start(vmm);
    assert_eq!(step, LoopStep::Perform(LoopAction::Wait));
    control
}

fn asks(action: LoopAction) -> LoopStep {
    LoopStep::Perform(action)
}

fn fails(control: &mut ControlLoop) -> LoopStep {
    control.advance(LoopOutcome::Failed("f".to_string()))
}

fn ends(error: Error) -> LoopStep {
    LoopStep::Done(Err(error))
}

fn fault() -> String {
    "f".to_string()
}

#[test]
fn an_interrupted_wait_is_repeated() {
    let mut control = waiting(monitor(false));
    assert_eq!(control.advance(LoopOutcome::Interrupted), asks(LoopAction::Wait));
    assert_eq!(fails(&mut control), ends(Error::Epoll(fault())));
    assert_eq!(control.stage, Stage::Over);
}

#[test]
fn events_that_nobody_serves_are_passed_over() {
    let mut control = waiting(monitor(false));
    assert_eq!(
        control.advance(LoopOutcome::Events(vec![9, 3, 4])),
        asks(LoopAction::Wait)
    );
    assert_eq!(
        control.advance(LoopOutcome::Events(vec![9, 3, 4, 2, 0])),
        asks(LoopAction::Consume(EpollDispatch::Api))
    );
    assert_eq!(control.events, vec![0]);
}

#[test]
fn the_exit_event_ends_the_loop() {
    let mut vmm = monitor(false);
    vmm.signals = true;
    vmm.threads = 2;
    let mut control = waiting(vmm);
    control.advance(LoopOutcome::Events(vec![0, 1, 2]));
    assert_eq!(
        control.advance(LoopOutcome::Count(1)),
        asks(LoopAction::CloseSignals)
    );
    assert_eq!(control.vmm.notices, vec![Notice::MonitorShutdown]);
    assert_eq!(control.advance(LoopOutcome::Done), asks(LoopAction::JoinThread));
    assert_eq!(control.advance(LoopOutcome::Done), asks(LoopAction::JoinThread));
    assert_eq!(control.advance(LoopOutcome::Done), LoopStep::Done(Ok(())));
    assert!(!control.vmm.signals);
    assert_eq!(control.vmm.threads, 0);
    assert_eq!(control.events, vec![1, 2]);
}

#[test]
fn a_thread_that_panicked_ends_the_joining() {
    let mut vmm = monitor(false);
    vmm.threads = 3;
    let mut control = waiting(vmm);
    control.advance(LoopOutcome::Events(vec![0]));
    assert_eq!(
        control.advance(LoopOutcome::Count(1)),
        asks(LoopAction::JoinThread)
    );
    assert_eq!(fails(&mut control), ends(Error::ThreadCleanup(fault())));
    assert_eq!(control.vmm.threads, 0);
}

#[test]
fn an_exit_that_cannot_be_read_is_an_error() {
    let mut vmm = monitor(false);
    vmm.signals = true;
    let mut control = waiting(vmm);
    control.advance(LoopOutcome::Events(vec![0]));
    assert_eq!(fails(&mut control), ends(Error::EventFdRead(fault())));
    assert!(control.vmm.signals);
}

fn running() -> Vmm {
    let mut vmm = monitor(false);
    vmm.vm = Some(Machine { config: None });
    vmm
}

#[test]
fn a_reset_reboots_the_machine() {
    let mut control = waiting(running());
    control.advance(LoopOutcome::Events(vec![1]));
    let mut step = control.advance(LoopOutcome::Count(1));
    assert_eq!(step, asks(LoopAction::Perform(Action::ShutdownVm)));
    while control.stage == Stage::Rebooting {
        step = control.advance(LoopOutcome::Performed(Outcome::Done));
    }
    assert_eq!(step, asks(LoopAction::Wait));
    assert!(control.vmm.vm.is_some());
    assert_eq!(control.vmm.notices, vec![Notice::Rebooting, Notice::Rebooted]);
}

#[test]
fn a_failed_reboot_ends_the_loop() {
    let mut control = waiting(running());
    control.advance(LoopOutcome::Events(vec![1]));
    control.advance(LoopOutcome::Count(1));
    assert_eq!(
        control.advance(LoopOutcome::Performed(Outcome::Failed(fault()))),
        ends(Error::VmReboot(VmError::Machine(fault())))
    );
    let mut control = waiting(monitor(false));
    control.advance(LoopOutcome::Events(vec![1]));
    assert_eq!(
        control.advance(LoopOutcome::Count(1)),
        ends(Error::VmReboot(VmError::VmNotCreated))
    );
}

#[test]
fn a_failed_shutdown_ends_the_loop_with_an_error() {
    let mut vmm = running();
    vmm.vm_config = Some(config());
    let mut control = waiting(vmm);
    control.advance(LoopOutcome::Events(vec![0]));
    assert_eq!(
        control.advance(LoopOutcome::Count(1)),
        asks(LoopAction::Perform(Action::ShutdownVm))
    );
    assert_eq!(
        control.advance(LoopOutcome::Performed(Outcome::Failed(fault()))),
        ends(Error::VmmShutdown(VmError::Machine(fault())))
    );
}

#[test]
fn devices_are_activated_on_a_machine() {
    let mut control = waiting(running());
    assert_eq!(
        control.advance(LoopOutcome::Events(vec![3])),
        asks(LoopAction::Consume(EpollDispatch::ActivateVirtioDevices))
    );
    assert_eq!(
        control.advance(LoopOutcome::Count(2)),
        asks(LoopAction::ActivateVirtioDevices)
    );
    assert_eq!(control.advance(LoopOutcome::Done), asks(LoopAction::Wait));
    control.advance(LoopOutcome::Events(vec![3]));
    control.advance(LoopOutcome::Count(2));
    assert_eq!(
        fails(&mut control),
        ends(Error::ActivateVirtioDevices(VmError::Machine(fault())))
    );
}

#[test]
fn as_many_api_requests_are_served_as_were_counted() {
    let mut control = waiting(monitor(false));
    control.advance(LoopOutcome::Events(vec![2]));
    assert_eq!(
        control.advance(LoopOutcome::Count(2)),
        asks(LoopAction::ReceiveApiRequest)
    );
    assert_eq!(control.advance(LoopOutcome::Done), asks(LoopAction::ServeApiRequest));
    assert_eq!(
        control.advance(LoopOutcome::Served(false)),
        asks(LoopAction::ReceiveApiRequest)
    );
    control.advance(LoopOutcome::Done);
    assert_eq!(control.advance(LoopOutcome::Served(false)), asks(LoopAction::Wait));
    control.advance(LoopOutcome::Events(vec![2]));
    assert_eq!(control.advance(LoopOutcome::Count(0)), asks(LoopAction::Wait));
}

#[test]
fn an_api_request_can_end_the_loop() {
    let mut control = waiting(monitor(false));
    control.advance(LoopOutcome::Events(vec![2]));
    control.advance(LoopOutcome::Count(5));
    control.advance(LoopOutcome::Done);
    assert_eq!(control.advance(LoopOutcome::Served(true)), LoopStep::Done(Ok(())));
    let mut control = waiting(monitor(false));
    control.advance(LoopOutcome::Events(vec![2]));
    control.advance(LoopOutcome::Count(5));
    control.advance(LoopOutcome::Done);
    assert_eq!(
        control.advance(LoopOutcome::Fatal(Error::ApiResponseSend(fault()))),
        ends(Error::ApiResponseSend(fault()))
    );
    let mut control = waiting(monitor(false));
    control.advance(LoopOutcome::Events(vec![2]));
    control.advance(LoopOutcome::Count(1));
    assert_eq!(fails(&mut control), ends(Error::ApiRequestRecv(fault())));
}

#[test]
fn a_debugger_is_answered() {
    let mut vmm = monitor(true);
    vmm.vm = Some(Machine { config: None });
    let mut control = waiting(vmm);
    assert_eq!(
        control.advance(LoopOutcome::Events(vec![4])),
        asks(LoopAction::Consume(EpollDispatch::Debug))
    );
    assert_eq!(
        control.advance(LoopOutcome::Count(2)),
        asks(LoopAction::ReceiveDebugRequest)
    );
    assert_eq!(control.advance(LoopOutcome::Done), asks(LoopAction::DebugMachine));
    assert_eq!(
        control.advance(LoopOutcome::Done),
        asks(LoopAction::AnswerDebugger(None))
    );
    assert_eq!(
        control.advance(LoopOutcome::Done),
        asks(LoopAction::ReceiveDebugRequest)
    );
    assert_eq!(fails(&mut control), ends(Error::GdbRequestRecv(fault())));
}

#[test]
fn a_debugger_without_a_machine_is_refused() {
    let mut control = waiting(monitor(true));
    control.advance(LoopOutcome::Events(vec![4]));
    control.advance(LoopOutcome::Count(1));
    assert_eq!(
        control.advance(LoopOutcome::Done),
        asks(LoopAction::AnswerDebugger(Some(VmError::VmNotRunning)))
    );
    assert_eq!(fails(&mut control), ends(Error::GdbResponseSend(fault())));
}

#[test]
fn a_loop_that_exits_leaves_nothing() {
    let mut vmm = running();
    vmm.vm_config = Some(config());
    vmm.signals = true;
    vmm.threads = 1;
    let mut control = waiting(vmm);
    assert_eq!(
        control.advance(LoopOutcome::Events(vec![0])),
        asks(LoopAction::Consume(EpollDispatch::Exit))
    );
    assert_eq!(
        control.advance(LoopOutcome::Count(1)),
        asks(LoopAction::Perform(Action::ShutdownVm))
    );
    assert_eq!(
        control.advance(LoopOutcome::Performed(Outcome::Done)),
        asks(LoopAction::CloseSignals)
    );
    assert_eq!(control.advance(LoopOutcome::Done), asks(LoopAction::JoinThread));
    assert_eq!(control.advance(LoopOutcome::Done), LoopStep::Done(Ok(())));
    assert_eq!((&control.vmm.vm, &control.vmm.vm_config), (&None, &None));
    assert_eq!((control.vmm.signals, control.vmm.threads), (false, 0));
}
