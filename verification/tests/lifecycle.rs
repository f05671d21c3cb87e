use vmm::config::{
    ConsoleConfig, ConsoleOutputMode, CpuFeatures, CpusConfig, DiskConfig, HotplugMethod,
    MemoryConfig, MemoryZoneConfig, NetConfig, RestoreConfig, RestoredNetConfig, RngConfig,
    VmConfig, VsockConfig,
};
use vmm::device::PciDeviceInfo;
use vmm::error::{Cause, Context, Failure, MigratableError, VmError};
use vmm::features::{Build, Features, VmmVersionInfo};
use vmm::plan::{
    Action, Notice, Outcome, Reply, Sizes, Step, VmInfoResponse, VmSource, VmState,
};
use vmm::vmm::{Machine, Vmm};

fn features() -> Features {
    Features {
        dbus_api: false,
        dhat_heap: false,
        guest_debug: false,
        igvm: false,
        io_uring: false,
        kvm: false,
        mshv: false,
        sev_snp: false,
        tdx: false,
        tracing: false,
    }
}

fn monitor(features: Features) -> Vmm {
    let build = Build { features, x86_64: true };
    Vmm::new(VmmVersionInfo::new("build", "version"), build)
}

fn config() -> VmConfig {
    VmConfig {
        cpus: CpusConfig {
            boot_vcpus: 1,
            max_vcpus: 4,
            topology: None,
            kvm_hyperv: false,
            max_phys_bits: 46,
            features: CpuFeatures { amx: true },
        },
        memory: MemoryConfig {
            size: 1 << 29,
            mergeable: false,
            hotplug_method: HotplugMethod::Acpi,
            hotplug_size: None,
            hotplugged_size: None,
            shared: true,
            hugepages: false,
            hugepage_size: None,
            prefault: false,
            zones: None,
            thp: true,
        },
        payload: None,
        disks: None,
        net: None,
        rng: RngConfig { src: "/dev/urandom".to_string(), iommu: false },
        balloon: None,
        fs: None,
        pmem: None,
        serial: ConsoleConfig {
            file: None,
            mode: ConsoleOutputMode::Null,
            iommu: false,
            socket: None,
        },
        console: ConsoleConfig {
            file: None,
            mode: ConsoleOutputMode::Tty,
            iommu: false,
            socket: None,
        },
        devices: None,
        user_devices: None,
        vdpa: None,
        vsock: None,
        pvpanic: false,
        iommu: false,
        watchdog: false,
        tdx: false,
        landlock_enable: false,
        options: String::new(),
    }
}

fn failed(fault: &str) -> Outcome {
    Outcome::Failed(fault.to_string())
}

/// Hands over outcomes one after the other. Returns what was asked for, and
/// what comes next.
fn play(vmm: &mut Vmm, first: Step, outcomes: Vec<Outcome>) -> (Vec<String>, Step) {
    let mut asked = Vec::new();
    let mut step = first;
    for outcome in outcomes {
        match step {
            Step::Perform(action) => asked.push(format!("{:?}", action)),
            Step::Done(_) => panic!("over before {:?}", outcome),
        }
        assert!(vmm.accepts(&outcome));
        step = vmm.resume(outcome);
    }
    (asked, step)
}

/// Lets the host succeed until the request is over.
fn succeed(vmm: &mut Vmm, first: Step) -> (Vec<String>, Result<Reply, Failure>) {
    let mut asked = Vec::new();
    let mut step = first;
    loop {
        match step {
            Step::Perform(action) => {
                asked.push(format!("{:?}", action));
                assert!(vmm.accepts(&Outcome::Done));
                step = vmm.resume(Outcome::Done);
            }
            Step::Done(result) => return (asked, result),
        }
    }
}

fn created(features: Features) -> Vmm {
    let mut vmm = monitor(features);
    let step = vmm.vm_create(config());
    assert_eq!(succeed(&mut vmm, step).1, Ok(Reply::Done));
    vmm
}

fn running(features: Features) -> Vmm {
    let mut vmm = created(features);
    let step = vmm.vm_boot();
    assert_eq!(succeed(&mut vmm, step).1, Ok(Reply::Done));
    vmm
}

fn refusal(error: VmError) -> Step {
    Step::Done(Err(Failure::Vm(error)))
}

#[test]
fn creation_stores_the_configuration_before_the_consoles() {
    let mut vmm = monitor(features());
    let step = vmm.vm_create(config());
    assert_eq!(step, Step::Perform(Action::CreateConsole));
    assert_eq!(vmm.vm_config, Some(config()));
    let (_, step) = play(&mut vmm, step, vec![failed("no tty")]);
    assert_eq!(step, refusal(VmError::CreateConsoleDevices("no tty".to_string())));
    assert_eq!(vmm.vm_config, Some(config()));
    assert!(!vmm.console_info);
    assert!(vmm.vm.is_none());
    assert!(vmm.is_idle());
    assert_eq!(vmm.vm_create(config()), refusal(VmError::VmAlreadyCreated));
}

#[test]
fn creation_confines_the_monitor_where_asked() {
    let mut vmm = monitor(features());
    let step = vmm.vm_create(VmConfig { landlock_enable: true, ..config() });
    let (asked, step) = play(&mut vmm, step, vec![Outcome::Done, failed("EPERM")]);
    assert_eq!(asked, vec!["CreateConsole", "ApplyLandlock"]);
    assert_eq!(step, refusal(VmError::ApplyLandlock("EPERM".to_string())));
    assert!(vmm.console_info);
}

#[test]
fn boot_needs_a_configuration() {
    let mut vmm = monitor(features());
    assert_eq!(vmm.vm_boot(), refusal(VmError::VmMissingConfig));
    assert_eq!(vmm.notices, vec![Notice::Booting]);
}

#[test]
fn boot_creates_the_machine() {
    let mut vmm = created(Features { guest_debug: true, ..features() });
    let step = vmm.vm_boot();
    let (asked, result) = succeed(&mut vmm, step);
    assert_eq!(
        asked,
        vec![
            "CloneEvent(Exit)",
            "CloneEvent(Reset)",
            "CloneEvent(Debug)",
            "CloneEvent(Activate)",
            "CreateVm(Fresh)",
            "BootVm",
        ]
    );
    assert_eq!(result, Ok(Reply::Done));
    assert_eq!(vmm.vm, Some(Machine { config: None }));
    assert_eq!(vmm.notices, vec![Notice::Booting, Notice::Booted]);
}

#[test]
fn a_failed_boot_is_not_announced_as_done() {
    let mut vmm = created(features());
    let step = vmm.vm_boot();
    let (_, step) = play(&mut vmm, step, vec![failed("EMFILE")]);
    assert_eq!(step, refusal(VmError::EventFdClone("EMFILE".to_string())));
    assert!(vmm.vm.is_none());
    let step = vmm.vm_boot();
    let (_, step) = play(
        &mut vmm,
        step,
        vec![Outcome::Done, Outcome::Done, Outcome::Done, Outcome::Done, failed("no kernel")],
    );
    assert_eq!(step, refusal(VmError::Machine("no kernel".to_string())));
    assert!(vmm.vm.is_some());
    assert_eq!(vmm.notices, vec![Notice::Booting, Notice::Booting]);
    let step = vmm.vm_boot();
    assert_eq!(step, Step::Perform(Action::BootVm));
    assert_eq!(succeed(&mut vmm, step).1, Ok(Reply::Done));
    assert_eq!(vmm.notices.last(), Some(&Notice::Booted));
}

#[test]
fn boot_recreates_the_consoles_that_a_shutdown_took() {
    let mut vmm = running(features());
    let step = vmm.vm_shutdown();
    assert_eq!(succeed(&mut vmm, step).0, vec!["ShutdownVm"]);
    assert!(!vmm.console_info);
    let step = vmm.vm_boot();
    let (asked, _) = succeed(&mut vmm, step);
    assert_eq!(asked[0], "CreateConsole");
    assert!(vmm.console_info);
}

#[test]
fn requests_on_a_machine_need_one() {
    let mut vmm = created(features());
    let before = vmm.notices.len();
    let url = || "file:///tmp/x".to_string();
    assert_eq!(vmm.vm_pause(), refusal(VmError::VmNotRunning));
    assert_eq!(vmm.vm_resume(), refusal(VmError::VmNotRunning));
    assert_eq!(vmm.vm_snapshot(url()), refusal(VmError::VmNotRunning));
    assert_eq!(vmm.vm_coredump(url()), refusal(VmError::VmNotRunning));
    assert_eq!(vmm.vm_shutdown(), refusal(VmError::VmNotRunning));
    assert_eq!(vmm.vm_counters(), refusal(VmError::VmNotRunning));
    assert_eq!(vmm.vm_power_button(), refusal(VmError::VmNotRunning));
    assert_eq!(vmm.vm_nmi(), refusal(VmError::VmNotRunning));
    assert!(vmm.console_info);
    assert_eq!(vmm.notices.len(), before);
    assert_eq!(vmm.vm_reboot(), refusal(VmError::VmNotCreated));
    assert_eq!(vmm.notices, vec![Notice::Rebooting]);
}

#[test]
fn pause_and_resume_report_what_the_machine_says() {
    let mut vmm = running(features());
    let step = vmm.vm_pause();
    assert_eq!(succeed(&mut vmm, step), (vec!["PauseVm".to_string()], Ok(Reply::Done)));
    let step = vmm.vm_pause();
    let (_, step) = play(&mut vmm, step, vec![failed("busy")]);
    assert_eq!(
        step,
        refusal(VmError::Pause(MigratableError::Machine("busy".to_string())))
    );
    let step = vmm.vm_resume();
    let (_, step) = play(&mut vmm, step, vec![failed("gone")]);
    assert_eq!(
        step,
        refusal(VmError::Resume(MigratableError::Machine("gone".to_string())))
    );
}

#[test]
fn snapshots_let_go_of_the_consoles() {
    let mut vmm = running(features());
    let step = vmm.vm_snapshot("file:///tmp/s".to_string());
    assert!(!vmm.console_info);
    let (asked, step) = play(&mut vmm, step, vec![Outcome::Done, failed("full")]);
    assert_eq!(asked, vec!["SnapshotVm", "SendSnapshot(\"file:///tmp/s\")"]);
    assert_eq!(
        step,
        refusal(VmError::SnapshotSend(MigratableError::Machine("full".to_string())))
    );
    assert!(!vmm.console_info);
    let step = vmm.vm_snapshot("file:///tmp/s".to_string());
    let (_, step) = play(&mut vmm, step, vec![failed("busy")]);
    assert_eq!(
        step,
        refusal(VmError::Snapshot(MigratableError::Machine("busy".to_string())))
    );
}

#[test]
fn other_machine_requests_are_passed_on() {
    let mut vmm = running(features());
    let step = vmm.vm_coredump("file:///tmp/c".to_string());
    let (asked, step) = play(&mut vmm, step, vec![failed("ENOSPC")]);
    assert_eq!(asked, vec!["Coredump(\"file:///tmp/c\")"]);
    assert_eq!(step, refusal(VmError::Coredump("ENOSPC".to_string())));
    let step = vmm.vm_power_button();
    assert_eq!(succeed(&mut vmm, step).0, vec!["PowerButton"]);
    let step = vmm.vm_nmi();
    assert_eq!(succeed(&mut vmm, step).0, vec!["Nmi"]);
}

#[test]
fn a_failed_shutdown_takes_the_machine_all_the_same() {
    let mut vmm = running(features());
    let notices = vmm.notices.len();
    let step = vmm.vm_shutdown();
    let (_, step) = play(&mut vmm, step, vec![failed("stuck")]);
    assert_eq!(step, refusal(VmError::Machine("stuck".to_string())));
    assert!(vmm.vm.is_none());
    assert!(!vmm.console_info);
    assert_eq!(vmm.vm_config, Some(config()));
    assert_eq!(vmm.notices.len(), notices);
}

#[test]
fn deletion_takes_machine_and_configuration() {
    let mut vmm = monitor(features());
    assert_eq!(vmm.vm_delete(), Step::Done(Ok(Reply::Done)));
    assert!(vmm.notices.is_empty());
    let mut vmm = running(features());
    let step = vmm.vm_delete();
    assert_eq!(succeed(&mut vmm, step), (vec!["ShutdownVm".to_string()], Ok(Reply::Done)));
    assert!(vmm.vm.is_none());
    assert!(vmm.vm_config.is_none());
    assert_eq!(vmm.notices[2..], [Notice::Shutdown, Notice::Deleted]);
    let step = vmm.vm_create(config());
    assert_eq!(succeed(&mut vmm, step).1, Ok(Reply::Done));
}

#[test]
fn deletion_keeps_the_configuration_of_a_stuck_machine() {
    let mut vmm = running(features());
    let step = vmm.vm_delete();
    let (_, step) = play(&mut vmm, step, vec![failed("stuck")]);
    assert_eq!(step, refusal(VmError::Machine("stuck".to_string())));
    assert!(vmm.vm.is_none());
    assert_eq!(vmm.vm_config, Some(config()));
}

#[test]
fn the_shutdown_of_the_monitor_deletes_first() {
    let mut vmm = created(features());
    assert_eq!(vmm.vmm_shutdown(), Step::Done(Ok(Reply::Done)));
    assert!(vmm.vm_config.is_none());
    assert_eq!(vmm.notices, vec![Notice::Deleted, Notice::MonitorShutdown]);
    let mut vmm = running(features());
    let step = vmm.vmm_shutdown();
    let (_, step) = play(&mut vmm, step, vec![failed("stuck")]);
    assert_eq!(step, refusal(VmError::Machine("stuck".to_string())));
    assert!(!vmm.notices.contains(&Notice::MonitorShutdown));
}

#[test]
fn reboot_makes_another_machine_of_the_same_configuration() {
    let mut vmm = running(features());
    vmm.notices.clear();
    let step = vmm.vm_reboot();
    assert!(vmm.vm.is_none());
    let (asked, result) = succeed(&mut vmm, step);
    assert_eq!(
        asked,
        vec![
            "ShutdownVm",
            "CloneEvent(Exit)",
            "CloneEvent(Reset)",
            "CloneEvent(Activate)",
            "DrainReset",
            "CreateConsole",
            "CreateVm(Fresh)",
            "BootVm",
        ]
    );
    assert_eq!(result, Ok(Reply::Done));
    assert_eq!(vmm.vm, Some(Machine { config: None }));
    assert_eq!(vmm.vm_config, Some(config()));
    assert_eq!(vmm.notices, vec![Notice::Rebooting, Notice::Rebooted]);
}

#[test]
fn a_failed_reboot_leaves_no_machine() {
    let mut vmm = running(features());
    let step = vmm.vm_reboot();
    let (asked, step) = play(
        &mut vmm,
        step,
        vec![
            Outcome::Done,
            Outcome::Done,
            Outcome::Done,
            Outcome::Done,
            failed("no spurious reset"),
            Outcome::Done,
            failed("no memory"),
        ],
    );
    assert_eq!(asked.last().unwrap(), "CreateVm(Fresh)");
    assert_eq!(step, refusal(VmError::Machine("no memory".to_string())));
    assert!(vmm.vm.is_none());
    assert!(vmm.console_info);
    assert_eq!(vmm.vm_config, Some(config()));
    assert_eq!(vmm.notices.last(), Some(&Notice::Rebooting));
}

#[test]
fn reboot_uses_the_configuration_of_its_machine() {
    let mut vmm = running(features());
    let own = VmConfig { watchdog: true, ..config() };
    vmm.vm = Some(Machine { config: Some(own.clone()) });
    let step = vmm.vm_reboot();
    assert_eq!(vmm.creation_config(), Some(&own));
    let (_, result) = succeed(&mut vmm, step);
    assert_eq!(result, Ok(Reply::Done));
    assert_eq!(vmm.machine_config(), Some(&own));
    assert_eq!(vmm.vm_config, Some(config()));
}

#[test]
fn machines_change_the_configuration_that_they_share() {
    let mut vmm = running(features());
    let grown = VmConfig { iommu: true, ..config() };
    vmm.reconfigured(&Action::BootVm, grown.clone());
    assert_eq!(vmm.vm_config, Some(grown.clone()));
    vmm.vm = Some(Machine { config: Some(config()) });
    let other = VmConfig { pvpanic: true, ..config() };
    vmm.reconfigured(&Action::BootVm, other.clone());
    assert_eq!(vmm.vm, Some(Machine { config: Some(other) }));
    assert_eq!(vmm.vm_config, Some(grown));
    let mut empty = monitor(features());
    empty.reconfigured(&Action::CreateConsole, config());
    assert_eq!(empty.vm_config, None);
}

#[test]
fn consoles_change_the_stored_configuration() {
    let terminal = || {
        let console = ConsoleConfig { file: Some("/dev/pts/3".to_string()), ..config().console };
        VmConfig { console, ..config() }
    };
    let mut vmm = monitor(features());
    let step = vmm.vm_create(config());
    assert_eq!(step, Step::Perform(Action::CreateConsole));
    vmm.reconfigured(&Action::CreateConsole, terminal());
    assert_eq!(vmm.resume(Outcome::Done), Step::Done(Ok(Reply::Done)));
    assert_eq!(vmm.vm_config, Some(terminal()));
    let step = vmm.vm_info();
    assert_eq!(step, Step::Perform(Action::MeasureMemory));
    match vmm.resume(Outcome::Number(1)) {
        Step::Done(Ok(Reply::Info(info))) => assert_eq!(info.config, terminal()),
        step => panic!("{:?}", step),
    }
}

#[test]
fn a_machine_to_come_changes_its_own_configuration() {
    let mut vmm = running(features());
    let own = VmConfig { watchdog: true, ..config() };
    let changed = VmConfig { pvpanic: true, ..config() };
    vmm.vm = Some(Machine { config: Some(own.clone()) });
    let step = vmm.vm_reboot();
    assert_eq!(step, Step::Perform(Action::ShutdownVm));
    vmm.reconfigured(&Action::CreateVm(VmSource::Fresh), changed.clone());
    assert_eq!(vmm.creation_config(), Some(&changed));
    assert_eq!(vmm.vm_config, Some(config()));
    vmm.reconfigured(&Action::CreateConsole, own.clone());
    assert_eq!(vmm.creation_config(), Some(&changed));
    assert_eq!(vmm.vm_config, Some(own));
}

fn restore() -> RestoreConfig {
    RestoreConfig {
        source_url: Some("file:///tmp/s".to_string()),
        prefault: true,
        net_fds: Some(vec![RestoredNetConfig { id: "n".to_string(), fds: Some(vec![7]) }]),
    }
}

fn stored_config() -> VmConfig {
    let net = NetConfig {
        id: Some("n".to_string()),
        mac: None,
        host_mac: None,
        vhost_user: false,
        vhost_socket: None,
        fds: Some(vec![3]),
        options: String::new(),
    };
    VmConfig { net: Some(vec![net]), ..config() }
}

#[test]
fn restore_refuses_what_it_cannot_do() {
    let mut vmm = created(features());
    assert_eq!(vmm.vm_restore(restore()), refusal(VmError::VmAlreadyCreated));
    let mut vmm = monitor(features());
    let nowhere = RestoreConfig { source_url: None, ..restore() };
    assert_eq!(vmm.vm_restore(nowhere), refusal(VmError::InvalidRestoreSourceUrl));
    assert!(vmm.is_idle());
}

#[test]
fn restore_makes_the_stored_machine() {
    let mut vmm = monitor(Features { kvm: true, ..features() });
    let step = vmm.vm_restore(restore());
    let (asked, step) = play(&mut vmm, step, vec![Outcome::Config(stored_config())]);
    assert_eq!(asked, vec!["FetchConfig(\"file:///tmp/s\")"]);
    assert_eq!(step, Step::Perform(Action::ValidateRestore));
    assert!(vmm.vm_config.is_none());
    let (asked, result) = succeed(&mut vmm, step);
    assert_eq!(
        asked,
        vec![
            "ValidateRestore",
            "FetchState(\"file:///tmp/s\")",
            "ReadVmSnapshot",
            "GenerateCpuid(CpuidRequest { max_phys_bits: 46, kvm_hyperv: false, amx: true })",
            "CheckCpuid",
            "CreateConsole",
            "CloneEvent(Exit)",
            "CloneEvent(Reset)",
            "CloneEvent(Activate)",
            "CreateVm(Snapshot { url: \"file:///tmp/s\", prefault: true })",
            "RestoreVm",
        ]
    );
    assert_eq!(result, Ok(Reply::Done));
    assert_eq!(vmm.vm, Some(Machine { config: None }));
    let net = vmm.vm_config.unwrap().net.unwrap();
    assert_eq!(net[0].fds, Some(vec![7]));
}

#[test]
fn a_failed_restore_leaves_nothing() {
    let mut vmm = monitor(features());
    let step = vmm.vm_restore(restore());
    let (_, step) = play(&mut vmm, step, vec![failed("no file")]);
    assert_eq!(
        step,
        refusal(VmError::Restore(MigratableError::Machine("no file".to_string())))
    );
    let step = vmm.vm_restore(restore());
    let (_, step) = play(
        &mut vmm,
        step,
        vec![Outcome::Config(stored_config()), failed("unknown id")],
    );
    assert_eq!(step, refusal(VmError::ConfigValidation("unknown id".to_string())));
    assert!(vmm.vm_config.is_none());

    let step = vmm.vm_restore(restore());
    let (asked, step) = play(
        &mut vmm,
        step,
        vec![
            Outcome::Config(stored_config()),
            Outcome::Done,
            Outcome::Done,
            Outcome::Done,
            Outcome::Done,
            Outcome::Done,
            Outcome::Done,
            Outcome::Done,
            failed("bad state"),
            Outcome::Done,
        ],
    );
    assert_eq!(asked[asked.len() - 2..], ["RestoreVm", "ShutdownVm"]);
    assert_eq!(step, refusal(VmError::Machine("bad state".to_string())));
    assert!(vmm.vm.is_none());
    assert!(vmm.vm_config.is_none());
    assert_eq!(vmm.notices, vec![Notice::Shutdown, Notice::Deleted]);
}

#[test]
fn a_restore_that_cannot_be_undone_reports_that() {
    let mut vmm = monitor(features());
    let step = vmm.vm_restore(restore());
    let done = || Outcome::Done;
    let (_, step) = play(
        &mut vmm,
        step,
        vec![
            Outcome::Config(stored_config()),
            done(),
            done(),
            done(),
            done(),
            done(),
            done(),
            done(),
            failed("bad state"),
            failed("stuck"),
        ],
    );
    assert_eq!(step, refusal(VmError::Machine("stuck".to_string())));
    assert!(vmm.vm.is_none());
    assert!(vmm.vm_config.is_some());
}

#[test]
fn tdx_machines_are_not_restored() {
    let mut vmm = monitor(Features { kvm: true, tdx: true, ..features() });
    let step = vmm.vm_restore(restore());
    let tdx = VmConfig { tdx: true, ..stored_config() };
    let (_, step) = play(
        &mut vmm,
        step,
        vec![Outcome::Config(tdx), Outcome::Done, Outcome::Done, Outcome::Done],
    );
    let cause = Cause { context: Context::Tdx, detail: None };
    assert_eq!(
        step,
        refusal(VmError::Restore(MigratableError::MigrateReceive(cause)))
    );
    assert!(vmm.vm_config.is_none());
}

#[test]
fn reports_without_a_machine_are_of_the_configuration() {
    let mut vmm = monitor(features());
    assert_eq!(vmm.vm_info(), refusal(VmError::VmNotCreated));
    let mut vmm = created(features());
    let step = vmm.vm_info();
    let (asked, step) = play(&mut vmm, step, vec![Outcome::Number(1 << 29)]);
    assert_eq!(asked, vec!["MeasureMemory"]);
    assert_eq!(
        step,
        Step::Done(Ok(Reply::Info(VmInfoResponse {
            config: config(),
            state: VmState::Created,
            memory_actual_size: 1 << 29,
            device_tree: None,
        })))
    );
}

#[test]
fn reports_of_a_machine_leave_out_its_balloon() {
    let mut vmm = running(features());
    let step = vmm.vm_info();
    let (asked, step) = play(
        &mut vmm,
        step,
        vec![Outcome::State(VmState::Paused), Outcome::Number(1000)],
    );
    assert_eq!(asked, vec!["ReadState", "MeasureMemory"]);
    assert_eq!(step, Step::Perform(Action::ReadBalloon));
    assert!(!vmm.accepts(&Outcome::Number(1001)));
    assert!(!vmm.accepts(&failed("unheard of")));
    let (asked, step) = play(
        &mut vmm,
        step,
        vec![Outcome::Number(400), Outcome::Text("{\"tree\":1}".to_string())],
    );
    assert_eq!(asked, vec!["ReadBalloon", "ReadDeviceTree"]);
    assert_eq!(
        step,
        Step::Done(Ok(Reply::Info(VmInfoResponse {
            config: config(),
            state: VmState::Paused,
            memory_actual_size: 600,
            device_tree: Some("{\"tree\":1}".to_string()),
        })))
    );
    let step = vmm.vm_info();
    let (_, step) = play(&mut vmm, step, vec![failed("poisoned")]);
    assert_eq!(step, refusal(VmError::Machine("poisoned".to_string())));
}

#[test]
fn sizes_go_to_the_machine_or_to_the_configuration() {
    let mut vmm = monitor(features());
    assert_eq!(vmm.vm_resize(Some(2), None, None), refusal(VmError::VmNotCreated));
    let mut vmm = created(features());
    assert_eq!(vmm.vm_resize(Some(2), Some(9), Some(3)), Step::Done(Ok(Reply::Done)));
    let resized = vmm.vm_config.as_ref().unwrap();
    assert_eq!(resized.cpus.boot_vcpus, 2);
    assert_eq!(resized.memory.size, 9);
    assert_eq!(resized.balloon, None);
    let mut vmm = running(features());
    let step = vmm.vm_resize(None, Some(9), None);
    let sizes = Sizes { vcpus: None, ram: Some(9), balloon: None };
    assert_eq!(step, Step::Perform(Action::ResizeVm(sizes)));
    let (_, step) = play(&mut vmm, step, vec![failed("too much")]);
    assert_eq!(step, refusal(VmError::Machine("too much".to_string())));
    assert_eq!(vmm.vm_config, Some(config()));
}

#[test]
fn zones_go_to_the_machine_or_to_the_configuration() {
    let id = || "z".to_string();
    let mut vmm = monitor(features());
    assert_eq!(vmm.vm_resize_zone(id(), 5), refusal(VmError::VmNotCreated));
    let mut vmm = created(features());
    assert_eq!(vmm.vm_resize_zone(id(), 5), refusal(VmError::ResizeZone));
    let zone = |size| MemoryZoneConfig { id: id(), size, options: String::new() };
    vmm.vm_config.as_mut().unwrap().memory.zones = Some(vec![zone(1)]);
    assert_eq!(vmm.vm_resize_zone(id(), 5), Step::Done(Ok(Reply::Done)));
    assert_eq!(vmm.vm_config.as_ref().unwrap().memory.zones, Some(vec![zone(5)]));
    let mut vmm = running(features());
    assert_eq!(vmm.vm_resize_zone(id(), 5), Step::Perform(Action::ResizeZone(id(), 5)));
}

#[test]
fn devices_of_a_machine_are_answered_in_json() {
    let mut vmm = running(features());
    let disk = DiskConfig { path: Some("/d".to_string()), options: String::new() };
    let step = vmm.vm_add_disk(disk);
    assert_eq!(vmm.job.candidate.as_ref().unwrap().disks.as_ref().unwrap().len(), 1);
    let info = PciDeviceInfo { id: "_disk1".to_string(), bdf: "0000:00:06.0".to_string() };
    let (asked, step) = play(&mut vmm, step, vec![Outcome::Done, Outcome::Device(info)]);
    assert_eq!(asked[0], "Validate");
    assert!(asked[1].starts_with("AddDevice(Disk("));
    let json = b"{\"id\":\"_disk1\",\"bdf\":\"0000:00:06.0\"}".to_vec();
    assert_eq!(step, Step::Done(Ok(Reply::Data(Some(json)))));
    assert_eq!(vmm.vm_config, Some(config()));
    assert!(vmm.is_idle());
}

#[test]
fn devices_that_do_not_pass_are_not_added() {
    let mut vmm = created(features());
    let disk = || DiskConfig { path: Some("/d".to_string()), options: String::new() };
    let step = vmm.vm_add_disk(disk());
    let (_, step) = play(&mut vmm, step, vec![failed("same id")]);
    assert_eq!(step, refusal(VmError::ConfigValidation("same id".to_string())));
    assert_eq!(vmm.vm_config, Some(config()));
    let mut vmm = running(features());
    let step = vmm.vm_add_disk(disk());
    let (_, step) = play(&mut vmm, step, vec![Outcome::Done, failed("no slot")]);
    assert_eq!(step, refusal(VmError::Machine("no slot".to_string())));
}

#[test]
fn there_is_one_vsock_device() {
    let vsock = |cid| VsockConfig {
        cid,
        socket: "/tmp/v".to_string(),
        iommu: false,
        options: String::new(),
    };
    let mut vmm = created(features());
    let step = vmm.vm_add_vsock(vsock(3));
    assert_eq!(succeed(&mut vmm, step).1, Ok(Reply::Data(None)));
    assert_eq!(vmm.vm_add_vsock(vsock(4)), refusal(VmError::TooManyVsockDevices));
    assert_eq!(vmm.vm_config.unwrap().vsock, Some(vsock(3)));
}

#[test]
fn devices_are_removed_where_they_are() {
    let id = || "_disk0".to_string();
    let mut vmm = monitor(features());
    assert_eq!(vmm.vm_remove_device(id()), refusal(VmError::VmNotCreated));
    let mut vmm = created(features());
    let step = vmm.vm_remove_device(id());
    let (asked, step) = play(&mut vmm, step, vec![Outcome::Missing]);
    assert_eq!(asked, vec!["RemoveFromConfig(\"_disk0\")"]);
    assert_eq!(step, refusal(VmError::NoDeviceToRemove(id())));
    let step = vmm.vm_remove_device(id());
    let without = VmConfig { watchdog: true, ..config() };
    let (_, step) = play(&mut vmm, step, vec![Outcome::Removed(without.clone())]);
    assert_eq!(step, Step::Done(Ok(Reply::Done)));
    assert_eq!(vmm.vm_config, Some(without));
    let mut vmm = running(features());
    let step = vmm.vm_remove_device(id());
    let (asked, step) = play(&mut vmm, step, vec![failed("unknown")]);
    assert_eq!(asked, vec!["RemoveDevice(\"_disk0\")"]);
    assert_eq!(step, refusal(VmError::Machine("unknown".to_string())));
}

#[test]
fn counters_are_answered_as_they_are_encoded() {
    let mut vmm = running(features());
    let step = vmm.vm_counters();
    let (asked, step) = play(
        &mut vmm,
        step,
        vec![Outcome::Done, Outcome::Bytes(b"{\"_disk0\":{}}".to_vec())],
    );
    assert_eq!(asked, vec!["ReadCounters", "EncodeCounters"]);
    assert_eq!(
        step,
        Step::Done(Ok(Reply::Data(Some(b"{\"_disk0\":{}}".to_vec()))))
    );
    let step = vmm.vm_counters();
    let (_, step) = play(&mut vmm, step, vec![Outcome::Done, failed("number")]);
    assert_eq!(step, refusal(VmError::SerializeJson("number".to_string())));
    let step = vmm.vm_counters();
    let (_, step) = play(&mut vmm, step, vec![failed("busy")]);
    assert_eq!(step, refusal(VmError::Machine("busy".to_string())));
}

#[test]
fn machines_are_made_from_what_the_request_says() {
    let mut vmm = created(features());
    let step = vmm.vm_boot();
    assert_eq!(vmm.creation_config(), Some(&config()));
    let (_, step) = play(&mut vmm, step, vec![Outcome::Done, Outcome::Done, Outcome::Done]);
    assert_eq!(step, Step::Perform(Action::CreateVm(VmSource::Fresh)));
}
