use std::collections::HashMap;
use vmm::config::{
    ConsoleConfig, ConsoleOutputMode, CpuFeatures, CpuTopology, CpusConfig, HotplugMethod,
    MemoryConfig, RngConfig, VmConfig,
};
use vmm::error::{Cause, Context, Failure, MigratableError};
use vmm::features::{Build, Features, VmmVersionInfo};
use vmm::plan::{
    Action, Command, Outcome, Reply, Step, VmReceiveMigrationData, VmSendMigrationData, VmState,
};
use vmm::vmm::{Machine, Vmm};

fn features() -> Features {
    Features {
        dbus_api: false,
        dhat_heap: false,
        guest_debug: false,
        igvm: false,
        io_uring: false,
        kvm: false,
        mshv: false,
        sev_snp: false,
        tdx: false,
        tracing: false,
    }
}

fn monitor(features: Features) -> Vmm {
    let build = Build { features, x86_64: true };
    Vmm::new(VmmVersionInfo::new("build", "version"), build)
}

fn config() -> VmConfig {
    VmConfig {
        cpus: CpusConfig {
            boot_vcpus: 1,
            max_vcpus: 4,
            topology: None,
            kvm_hyperv: false,
            max_phys_bits: 46,
            features: CpuFeatures { amx: true },
        },
        memory: MemoryConfig {
            size: 1 << 29,
            mergeable: false,
            hotplug_method: HotplugMethod::Acpi,
            hotplug_size: None,
            hotplugged_size: None,
            shared: true,
            hugepages: false,
            hugepage_size: None,
            prefault: false,
            zones: None,
            thp: true,
        },
        payload: None,
        disks: None,
        net: None,
        rng: RngConfig { src: "/dev/urandom".to_string(), iommu: false },
        balloon: None,
        fs: None,
        pmem: None,
        serial: ConsoleConfig {
            file: None,
            mode: ConsoleOutputMode::Null,
            iommu: false,
            socket: None,
        },
        console: ConsoleConfig {
            file: None,
            mode: ConsoleOutputMode::Tty,
            iommu: false,
            socket: None,
        },
        devices: None,
        user_devices: None,
        vdpa: None,
        vsock: None,
        pvpanic: false,
        iommu: false,
        watchdog: false,
        tdx: false,
        landlock_enable: false,
        options: String::new(),
    }
}

fn failed(fault: &str) -> Outcome {
    Outcome::Failed(fault.to_string())
}

/// Hands over outcomes one after the other. Returns what was asked for, and
/// what comes next.
fn play(vmm: &mut Vmm, first: Step, outcomes: Vec<Outcome>) -> (Vec<String>, Step) {
    let mut asked = Vec::new();
    let mut step = first;
    for outcome in outcomes {
        match step {
            Step::Perform(action) => asked.push(format!("{:?}", action)),
            Step::Done(_) => panic!("over before {:?}", outcome),
        }
        assert!(vmm.accepts(&outcome));
        step = vmm.resume(outcome);
    }
    (asked, step)
}

/// Lets the host succeed until the request is over.
fn succeed(vmm: &mut Vmm, first: Step) -> (Vec<String>, Result<Reply, Failure>) {
    let mut asked = Vec::new();
    let mut step = first;
    loop {
        match step {
            Step::Perform(action) => {
                asked.push(format!("{:?}", action));
                assert!(vmm.accepts(&Outcome::Done));
                step = vmm.resume(Outcome::Done);
            }
            Step::Done(result) => return (asked, result),
        }
    }
}

fn running(features: Features) -> Vmm {
    let mut vmm = monitor(features);
    let step = vmm.vm_create(config());
    assert_eq!(succeed(&mut vmm, step).1, Ok(Reply::Done));
    let step = vmm.vm_boot();
    assert_eq!(succeed(&mut vmm, step).1, Ok(Reply::Done));
    vmm.notices.clear();
    vmm
}

fn failure(error: MigratableError) -> Step {
    Step::Done(Err(Failure::Migration(error)))
}

fn sending(context: Context, detail: Option<&str>) -> MigratableError {
    MigratableError::MigrateSend(Cause { context, detail: detail.map(|s| s.to_string()) })
}

fn receiving(context: Context, detail: Option<&str>) -> MigratableError {
    MigratableError::MigrateReceive(Cause { context, detail: detail.map(|s| s.to_string()) })
}

fn receive(vmm: &mut Vmm, url: &str) -> Step {
    vmm.vm_receive_migration(VmReceiveMigrationData { receiver_url: url.to_string() })
}

/// A receiver that has accepted a connection over a UNIX socket.
fn accepted(vmm: &mut Vmm) -> Step {
    let step = receive(vmm, "unix:/tmp/m");
    let (asked, step) = play(vmm, step, vec![Outcome::Done, Outcome::Done, Outcome::Done]);
    assert_eq!(asked, vec!["Bind", "Accept", "RemoveSocketFile"]);
    step
}

fn request(command: Command, length: u64) -> Outcome {
    Outcome::Request(command, length)
}

/// A receiver whose peer has started.
fn started(vmm: &mut Vmm) -> Step {
    let step = accepted(vmm);
    let (asked, step) = play(vmm, step, vec![request(Command::Start, 0), Outcome::Done]);
    assert_eq!(asked, vec!["ReadRequest", "Answer(true)"]);
    step
}

/// A receiver that has taken in a configuration.
fn configured(vmm: &mut Vmm) -> Step {
    let step = started(vmm);
    let done = || Outcome::Done;
    let (_, step) = play(
        vmm,
        step,
        vec![
            request(Command::Config, 10),
            done(),
            Outcome::Config(config()),
            done(),
            done(),
            done(),
            done(),
        ],
    );
    assert_eq!(step, Step::Perform(Action::ReadRequest));
    step
}

#[test]
fn a_receiver_needs_a_socket() {
    let mut vmm = monitor(features());
    assert_eq!(
        receive(&mut vmm, "/tmp/m"),
        failure(sending(Context::ExtractPath, Some("/tmp/m")))
    );
    let step = receive(&mut vmm, "tcp:0.0.0.0:1");
    let (asked, step) = play(&mut vmm, step, vec![failed("EADDRINUSE")]);
    assert_eq!(asked, vec!["Bind"]);
    assert_eq!(step, failure(receiving(Context::BindTcp, Some("EADDRINUSE"))));
    let step = receive(&mut vmm, "tcp:0.0.0.0:1");
    let (_, step) = play(&mut vmm, step, vec![Outcome::Done, failed("EINTR")]);
    assert_eq!(step, failure(receiving(Context::AcceptTcp, Some("EINTR"))));
    let step = receive(&mut vmm, "tcp:0.0.0.0:1");
    let (_, step) = play(&mut vmm, step, vec![Outcome::Done, Outcome::Done]);
    assert_eq!(step, Step::Perform(Action::ReadRequest));
    let mut vmm = monitor(features());
    let step = receive(&mut vmm, "unix:/tmp/m");
    let (_, step) = play(&mut vmm, step, vec![Outcome::Done, Outcome::Done, failed("EACCES")]);
    assert_eq!(step, failure(receiving(Context::RemoveSocketFile, Some("EACCES"))));
}

#[test]
fn nothing_is_taken_before_the_start() {
    let mut vmm = monitor(features());
    let mut step = accepted(&mut vmm);
    for command in [Command::Config, Command::State, Command::Memory, Command::MemoryFd] {
        let (_, next) = play(&mut vmm, step, vec![request(command, 3)]);
        assert_eq!(next, Step::Perform(Action::Answer(false)));
        let (_, next) = play(&mut vmm, next, vec![Outcome::Done]);
        assert_eq!(next, Step::Perform(Action::ReadRequest));
        step = next;
    }
    let (_, step) = play(&mut vmm, step, vec![request(Command::Invalid, 0)]);
    assert_eq!(step, Step::Perform(Action::ReadRequest));
    assert!(vmm.vm_config.is_none());
    let (_, step) = play(&mut vmm, step, vec![failed("EPIPE")]);
    assert_eq!(step, failure(MigratableError::Machine("EPIPE".to_string())));
}

#[test]
fn state_and_memory_need_a_configuration() {
    let mut vmm = monitor(features());
    let mut step = started(&mut vmm);
    for command in [Command::State, Command::Memory] {
        let (asked, next) =
            play(&mut vmm, step, vec![request(command, 3), Outcome::Done]);
        assert_eq!(asked, vec!["ReadRequest", "Answer(false)"]);
        step = next;
    }
    assert_eq!(step, Step::Perform(Action::ReadRequest));
}

#[test]
fn a_configuration_is_taken_in() {
    let mut vmm = monitor(Features { kvm: true, ..features() });
    let step = started(&mut vmm);
    let topology = CpuTopology {
        threads_per_core: 2,
        cores_per_die: 200,
        dies_per_package: 1,
        packages: 1,
    };
    let cpus = CpusConfig { topology: Some(topology), ..config().cpus };
    let incoming = VmConfig { cpus, landlock_enable: true, ..config() };
    let done = || Outcome::Done;
    let (asked, step) = play(
        &mut vmm,
        step,
        vec![
            request(Command::Config, 77),
            done(),
            Outcome::Config(incoming.clone()),
            done(),
            done(),
            done(),
            done(),
            done(),
            Outcome::Number(399),
            done(),
            done(),
            done(),
        ],
    );
    assert_eq!(
        asked,
        vec![
            "ReadRequest",
            "ReadPayload(77)",
            "DecodeConfig",
            "GenerateCpuid(CpuidRequest { max_phys_bits: 46, kvm_hyperv: false, amx: true })",
            "CheckCpuid",
            "CreateConsole",
            "ApplyLandlock",
            "CreateHypervisorVm",
            "MaxApicId(CpuTopology { threads_per_core: 2, cores_per_die: 200, \
             dies_per_package: 1, packages: 1 })",
            "EnableX2Apic",
            "CreateMemoryManager(46)",
            "Answer(true)",
        ]
    );
    assert_eq!(step, Step::Perform(Action::ReadRequest));
    assert_eq!(vmm.vm_config, Some(incoming));
    assert!(vmm.job.session.memory_manager);
    assert!(vmm.vm.is_none());
}

#[test]
fn narrow_apic_numbers_need_no_switch() {
    let mut vmm = monitor(Features { kvm: true, ..features() });
    let step = started(&mut vmm);
    let topology = CpuTopology {
        threads_per_core: 1,
        cores_per_die: 4,
        dies_per_package: 1,
        packages: 1,
    };
    let cpus = CpusConfig { topology: Some(topology), ..config().cpus };
    let done = || Outcome::Done;
    let (_, step) = play(
        &mut vmm,
        step,
        vec![
            request(Command::Config, 77),
            done(),
            Outcome::Config(VmConfig { cpus, ..config() }),
            done(),
            done(),
            done(),
            done(),
            Outcome::Number(254),
        ],
    );
    assert_eq!(step, Step::Perform(Action::CreateMemoryManager(46)));
}

#[test]
fn a_configuration_that_cannot_be_taken_in_ends_the_migration() {
    let mut vmm = monitor(features());
    let step = started(&mut vmm);
    let (_, step) = play(&mut vmm, step, vec![request(Command::Config, 7), failed("short")]);
    assert_eq!(step, failure(MigratableError::MigrateSocket("short".to_string())));
    let step = started(&mut vmm);
    let (_, step) = play(
        &mut vmm,
        step,
        vec![request(Command::Config, 7), Outcome::Done, failed("no json")],
    );
    assert_eq!(step, failure(receiving(Context::DecodeConfig, Some("no json"))));
    let step = started(&mut vmm);
    let (_, step) = play(
        &mut vmm,
        step,
        vec![
            request(Command::Config, 7),
            Outcome::Done,
            Outcome::Config(config()),
            failed("no tty"),
        ],
    );
    assert_eq!(step, failure(receiving(Context::CreateConsole, Some("no tty"))));
    assert_eq!(vmm.vm_config, Some(config()));
}

#[test]
fn tdx_machines_are_not_received() {
    let mut vmm = monitor(Features { kvm: true, tdx: true, ..features() });
    let step = started(&mut vmm);
    let (_, step) = play(
        &mut vmm,
        step,
        vec![
            request(Command::Config, 7),
            Outcome::Done,
            Outcome::Config(VmConfig { tdx: true, ..config() }),
        ],
    );
    assert_eq!(step, failure(receiving(Context::Tdx, None)));
    assert!(vmm.vm_config.is_none());
}

#[test]
fn a_machine_is_taken_in() {
    let mut vmm = monitor(Features { guest_debug: true, ..features() });
    let step = configured(&mut vmm);
    let done = || Outcome::Done;
    let (asked, step) = play(
        &mut vmm,
        step,
        vec![request(Command::Memory, 32), done(), done(), done()],
    );
    assert_eq!(asked, vec!["ReadRequest", "ReadTable(32)", "ReceiveRegions", "Answer(true)"]);
    let (asked, step) = play(
        &mut vmm,
        step,
        vec![
            request(Command::State, 64),
            done(),
            done(),
            done(),
            done(),
            done(),
            done(),
            done(),
            done(),
            done(),
        ],
    );
    assert_eq!(
        asked,
        vec![
            "ReadRequest",
            "ReadPayload(64)",
            "DecodeSnapshot",
            "CloneEvent(Exit)",
            "CloneEvent(Reset)",
            "CloneEvent(Debug)",
            "CloneEvent(Activate)",
            "CreateVm(Migration)",
            "RestoreVm",
            "Answer(true)",
        ]
    );
    assert_eq!(vmm.vm, Some(Machine { config: None }));
    let (asked, step) = play(&mut vmm, step, vec![request(Command::State, 64), done()]);
    assert_eq!(asked, vec!["ReadRequest", "Answer(false)"]);
    let (asked, step) = play(&mut vmm, step, vec![request(Command::Complete, 0), done(), done()]);
    assert_eq!(asked, vec!["ReadRequest", "ResumeVm", "Answer(true)"]);
    assert_eq!(step, Step::Done(Ok(Reply::Done)));
    assert!(vmm.is_idle());
    assert_eq!(vmm.vm_config, Some(config()));
}

#[test]
fn the_peer_is_told_of_a_failure() {
    let mut vmm = monitor(features());
    let step = configured(&mut vmm);
    let done = || Outcome::Done;
    let (asked, step) = play(
        &mut vmm,
        step,
        vec![request(Command::Memory, 32), done(), failed("EIO"), failed("EPIPE")],
    );
    assert_eq!(asked.last().unwrap(), "Answer(false)");
    assert_eq!(step, failure(MigratableError::Machine("EIO".to_string())));
    let mut vmm = monitor(features());
    let step = configured(&mut vmm);
    let (asked, step) = play(
        &mut vmm,
        step,
        vec![
            request(Command::State, 32),
            done(),
            done(),
            done(),
            done(),
            done(),
            done(),
            failed("bad"),
            done(),
        ],
    );
    assert_eq!(asked[asked.len() - 2..], ["RestoreVm", "Answer(false)"]);
    assert_eq!(step, failure(receiving(Context::RestoreVm, Some("bad"))));
    assert!(vmm.vm.is_none());
}

#[test]
fn state_failures_name_what_failed() {
    let contexts = [
        (3, Context::DecodeSnapshot),
        (4, Context::CloneExit),
        (5, Context::CloneReset),
        (6, Context::CloneDebug),
        (7, Context::CloneActivate),
        (8, Context::CreateVm),
    ];
    for (count, context) in contexts {
        let mut vmm = monitor(Features { guest_debug: true, ..features() });
        let step = configured(&mut vmm);
        let mut outcomes = vec![request(Command::State, 1)];
        for _ in 2..count {
            outcomes.push(Outcome::Done);
        }
        outcomes.push(failed("f"));
        let (_, step) = play(&mut vmm, step, outcomes);
        assert_eq!(step, failure(receiving(context, Some("f"))));
    }
}

#[test]
fn memory_files_belong_to_the_next_configuration() {
    let mut vmm = monitor(features());
    let step = started(&mut vmm);
    let done = || Outcome::Done;
    let (asked, step) = play(
        &mut vmm,
        step,
        vec![
            request(Command::MemoryFd, 4),
            Outcome::File([2, 1, 0, 0], 30),
            done(),
            request(Command::MemoryFd, 4),
            Outcome::File([2, 1, 0, 0], 31),
            done(),
        ],
    );
    assert_eq!(asked[..3], ["ReadRequest", "ReceiveFile", "Answer(true)"]);
    assert_eq!(vmm.job.session.memory_files, Some(HashMap::from([(258, 31)])));
    let (_, step) = play(&mut vmm, step, vec![request(Command::Config, 4)]);
    assert_eq!(vmm.job.session.memory_files, None);
    assert_eq!(vmm.job.session.granted_files, Some(HashMap::from([(258, 31)])));
    let (_, _) = play(&mut vmm, step, vec![failed("short")]);
    assert!(vmm.is_idle());
}

#[test]
fn memory_files_do_not_come_over_tcp() {
    let mut vmm = monitor(features());
    let step = receive(&mut vmm, "tcp:h:1");
    let done = || Outcome::Done;
    let (asked, _) = play(
        &mut vmm,
        step,
        vec![
            done(),
            done(),
            request(Command::Start, 0),
            done(),
            request(Command::MemoryFd, 4),
            done(),
        ],
    );
    assert_eq!(asked.last().unwrap(), "Answer(false)");
    let mut vmm = monitor(features());
    let step = started(&mut vmm);
    let (_, step) = play(&mut vmm, step, vec![request(Command::MemoryFd, 4), failed("EBADF")]);
    assert_eq!(step, failure(receiving(Context::ReceiveSlot, Some("EBADF"))));
}

#[test]
fn a_migration_that_is_given_up_leaves_nothing() {
    let mut vmm = monitor(features());
    let step = configured(&mut vmm);
    assert!(vmm.vm_config.is_some());
    let (asked, step) = play(&mut vmm, step, vec![request(Command::Abandon, 0), failed("EPIPE")]);
    assert_eq!(asked, vec!["ReadRequest", "Answer(true)"]);
    assert_eq!(step, Step::Done(Ok(Reply::Done)));
    assert!(vmm.vm_config.is_none());
    assert!(vmm.is_idle());
}

#[test]
fn a_migration_does_not_complete_without_a_machine() {
    let mut vmm = monitor(features());
    let step = started(&mut vmm);
    let (asked, step) = play(&mut vmm, step, vec![request(Command::Complete, 0), Outcome::Done]);
    assert_eq!(asked, vec!["ReadRequest", "Answer(false)"]);
    assert_eq!(step, Step::Done(Ok(Reply::Done)));
    assert!(vmm.vm.is_none());
}

#[test]
fn a_configuration_detaches_a_machine_that_is_there() {
    let mut vmm = running(features());
    let step = started(&mut vmm);
    let incoming = VmConfig { watchdog: true, ..config() };
    let (_, _) = play(
        &mut vmm,
        step,
        vec![
            request(Command::Config, 1),
            Outcome::Done,
            Outcome::Config(incoming.clone()),
        ],
    );
    assert_eq!(vmm.vm, Some(Machine { config: Some(config()) }));
    assert_eq!(vmm.vm_config, Some(incoming));
    assert_eq!(vmm.machine_config(), Some(&config()));
}

fn send(vmm: &mut Vmm, url: &str, local: bool) -> Step {
    let step = vmm.vm_send_migration(VmSendMigrationData {
        destination_url: url.to_string(),
        local,
    });
    assert_eq!(step, Step::Perform(Action::ReadSharedMemory));
    step
}

#[test]
fn a_sender_needs_a_machine_and_shared_memory() {
    let mut vmm = running(features());
    let step = send(&mut vmm, "unix:/tmp/m", true);
    let (_, step) = play(&mut vmm, step, vec![Outcome::Flag(false)]);
    assert_eq!(step, failure(sending(Context::LocalNeedsSharedMemory, None)));
    let step = vmm.vm_shutdown();
    assert!(succeed(&mut vmm, step).1.is_ok());
    let step = send(&mut vmm, "unix:/tmp/m", false);
    let (_, step) = play(&mut vmm, step, vec![Outcome::Flag(false)]);
    assert_eq!(step, failure(sending(Context::NotRunning, None)));
}

#[test]
fn a_local_machine_is_sent_by_its_descriptors() {
    let mut vmm = running(Features { kvm: true, ..features() });
    let step = send(&mut vmm, "unix:/tmp/m", true);
    let done = || Outcome::Done;
    let (asked, step) = play(
        &mut vmm,
        step,
        vec![
            Outcome::Flag(true),
            done(),
            done(),
            done(),
            done(),
            done(),
            Outcome::Number(500),
            done(),
            done(),
            done(),
            done(),
            done(),
            done(),
            done(),
            Outcome::Number(900),
            done(),
            done(),
            done(),
            done(),
            done(),
            done(),
            done(),
        ],
    );
    assert_eq!(
        asked,
        vec![
            "ReadSharedMemory",
            "Connect",
            "SendRequest(Start, 0)",
            "AwaitAnswer",
            "GenerateCpuid(CpuidRequest { max_phys_bits: 46, kvm_hyperv: false, amx: true })",
            "SendMemoryFds",
            "EncodeConfig",
            "SendRequest(Config, 500)",
            "SendPayload",
            "AwaitAnswer",
            "StartMigration",
            "PauseVm",
            "ReleaseDiskLocks",
            "SnapshotVm",
            "EncodeSnapshot",
            "SendRequest(State, 900)",
            "SendPayload",
            "AwaitAnswer",
            "SendRequest(Complete, 0)",
            "AwaitAnswer",
            "CompleteMigration",
            "SignalExit",
        ]
    );
    assert_eq!(step, Step::Done(Ok(Reply::Done)));
    assert!(vmm.vm.is_some());
    assert!(vmm.notices.is_empty());
}

/// Answers a sender that dirties memory for ever, and counts the readings of
/// the dirty log before and after the machine is paused.
fn send_dirty(
    regions_at: &dyn Fn(usize) -> u64,
) -> (usize, usize, usize, Result<Reply, Failure>) {
    let mut vmm = running(features());
    let mut step = send(&mut vmm, "tcp:h:1", false);
    let (mut before, mut after, mut sent, mut paused) = (0, 0, 0, false);
    loop {
        let outcome = match step {
            Step::Done(result) => return (before, after, sent, result),
            Step::Perform(Action::SendRequest(Command::Memory, 16)) => {
                sent += 1;
                Outcome::Done
            }
            Step::Perform(Action::ReadSharedMemory) => Outcome::Flag(false),
            Step::Perform(Action::EncodeConfig) => Outcome::Number(5),
            Step::Perform(Action::EncodeSnapshot) => Outcome::Number(6),
            Step::Perform(Action::ReadMemoryTable) => Outcome::Table(1, 16),
            Step::Perform(Action::ReadDirtyLog) => {
                if paused {
                    after += 1;
                } else {
                    before += 1;
                }
                Outcome::Table(regions_at(before), 16)
            }
            Step::Perform(Action::PauseVm) => {
                paused = true;
                Outcome::Done
            }
            Step::Perform(_) => Outcome::Done,
        };
        assert!(vmm.accepts(&outcome));
        step = vmm.resume(outcome);
    }
}

#[test]
fn dirty_memory_is_sent_in_five_passes_at_most() {
    assert_eq!(send_dirty(&|_| 3), (5, 1, 7, Ok(Reply::Done)));
    assert_eq!(send_dirty(&|pass| if pass < 3 { 1 } else { 0 }), (3, 1, 3, Ok(Reply::Done)));
    assert_eq!(send_dirty(&|_| 0), (1, 1, 1, Ok(Reply::Done)));
}

#[test]
fn a_failed_sender_runs_on() {
    let mut vmm = running(features());
    let step = send(&mut vmm, "tcp:h:1", false);
    let done = || Outcome::Done;
    let (asked, step) = play(
        &mut vmm,
        step,
        vec![
            Outcome::Flag(false),
            done(),
            done(),
            Outcome::Refused,
            done(),
            Outcome::State(VmState::Running),
        ],
    );
    assert_eq!(asked[asked.len() - 2..], ["StopDirtyLog", "ReadState"]);
    assert_eq!(step, failure(sending(Context::Start, None)));
    assert!(vmm.vm.is_some());
    let step = send(&mut vmm, "unix:/tmp/m", true);
    let (asked, step) = play(
        &mut vmm,
        step,
        vec![
            Outcome::Flag(true),
            done(),
            done(),
            done(),
            done(),
            Outcome::Number(1),
            done(),
            done(),
            done(),
            done(),
            done(),
            failed("locked"),
            Outcome::State(VmState::Paused),
            done(),
        ],
    );
    assert_eq!(
        asked[asked.len() - 4..],
        ["PauseVm", "ReleaseDiskLocks", "ReadState", "ResumeVm"]
    );
    assert_eq!(step, failure(MigratableError::UnlockError("locked".to_string())));
    assert_eq!(vmm.vm_config, Some(config()));
}

#[test]
fn a_failed_clean_up_is_reported_instead() {
    let mut vmm = running(features());
    let step = send(&mut vmm, "tcp:h:1", false);
    let (_, step) = play(
        &mut vmm,
        step,
        vec![Outcome::Flag(false), failed("ECONNREFUSED"), failed("no log")],
    );
    assert_eq!(step, failure(MigratableError::Machine("no log".to_string())));
    let step = send(&mut vmm, "tcp:h:1", false);
    let (_, step) = play(
        &mut vmm,
        step,
        vec![
            Outcome::Flag(false),
            failed("ECONNREFUSED"),
            Outcome::Done,
            Outcome::State(VmState::Running),
        ],
    );
    assert_eq!(step, failure(sending(Context::ConnectTcp, Some("ECONNREFUSED"))));
}

#[test]
fn senders_know_what_they_cannot_send() {
    let mut vmm = running(features());
    let step = send(&mut vmm, "file:/x", true);
    let (asked, step) = play(
        &mut vmm,
        step,
        vec![Outcome::Flag(true), Outcome::State(VmState::Running)],
    );
    assert_eq!(asked, vec!["ReadSharedMemory", "ReadState"]);
    assert_eq!(step, failure(sending(Context::ExtractPath, Some("file:/x"))));
    let step = send(&mut vmm, "tcp:h:1", true);
    let done = || Outcome::Done;
    let (_, step) = play(
        &mut vmm,
        step,
        vec![Outcome::Flag(true), done(), done(), done(), Outcome::State(VmState::Running)],
    );
    assert_eq!(step, failure(sending(Context::LocalOverTcp, None)));
    let mut vmm = running(Features { kvm: true, tdx: true, ..features() });
    vmm.reconfigured(&Action::PauseVm, VmConfig { tdx: true, ..config() });
    let step = send(&mut vmm, "unix:/tmp/m", true);
    let (_, step) = play(
        &mut vmm,
        step,
        vec![Outcome::Flag(true), done(), done(), done(), Outcome::State(VmState::Running)],
    );
    assert_eq!(step, failure(sending(Context::Tdx, None)));
}

#[test]
fn a_monitor_that_cannot_exit_reports_it() {
    let mut vmm = running(features());
    let mut step = send(&mut vmm, "unix:/tmp/m", true);
    loop {
        let outcome = match step {
            Step::Done(result) => {
                assert_eq!(
                    result,
                    Err(Failure::Migration(sending(Context::SignalExit, Some("EBADF"))))
                );
                break;
            }
            Step::Perform(Action::ReadSharedMemory) => Outcome::Flag(true),
            Step::Perform(Action::EncodeConfig) => Outcome::Number(5),
            Step::Perform(Action::EncodeSnapshot) => Outcome::Number(6),
            Step::Perform(Action::SignalExit) => failed("EBADF"),
            Step::Perform(_) => Outcome::Done,
        };
        step = vmm.resume(outcome);
    }
}

/// The milestones among some actions.
fn milestones(asked: &[String]) -> Vec<&str> {
    let marks = [
        "SendRequest", "AwaitAnswer", "SendMemoryFds", "StartMigration", "StartDirtyLog", "PauseVm",
        "ReleaseDiskLocks", "SnapshotVm", "StopDirtyLog", "CompleteMigration", "SignalExit",
    ];
    let is_mark = |action: &&str| marks.iter().any(|mark| action.starts_with(mark));
    asked.iter().map(|action| action.as_str()).filter(is_mark).collect()
}

#[test]
fn a_sending_goes_through_its_stages_in_order() {
    let mut vmm = running(features());
    let mut step = send(&mut vmm, "unix:/tmp/m", false);
    let mut asked = Vec::new();
    let result = loop {
        let action = match step {
            Step::Perform(action) => action,
            Step::Done(result) => break result,
        };
        asked.push(format!("{:?}", action));
        let outcome = match action {
            Action::ReadSharedMemory => Outcome::Flag(true),
            Action::EncodeConfig | Action::EncodeSnapshot => Outcome::Number(9),
            Action::ReadMemoryTable => Outcome::Table(1, 8),
            Action::ReadDirtyLog => Outcome::Table(0, 0),
            _ => Outcome::Done,
        };
        assert!(vmm.accepts(&outcome));
        step = vmm.resume(outcome);
    };
    assert_eq!(result, Ok(Reply::Done));
    assert_eq!(
        milestones(&asked),
        vec![
            "SendRequest(Start, 0)",
            "AwaitAnswer",
            "SendRequest(Config, 9)",
            "AwaitAnswer",
            "StartMigration",
            "StartDirtyLog",
            "SendRequest(Memory, 8)",
            "AwaitAnswer",
            "PauseVm",
            "ReleaseDiskLocks",
            "SnapshotVm",
            "SendRequest(State, 9)",
            "AwaitAnswer",
            "SendRequest(Complete, 0)",
            "AwaitAnswer",
            "StopDirtyLog",
            "CompleteMigration",
            "SignalExit",
        ]
    );
}

#[test]
fn nothing_follows_a_refused_configuration() {
    let mut vmm = running(features());
    let step = send(&mut vmm, "unix:/tmp/m", false);
    let done = || Outcome::Done;
    let (_, step) = play(
        &mut vmm,
        step,
        vec![
            Outcome::Flag(true),
            done(),
            done(),
            done(),
            Outcome::Number(9),
            done(),
            done(),
            Outcome::Refused,
        ],
    );
    let (asked, step) =
        play(&mut vmm, step, vec![done(), Outcome::State(VmState::Paused), done()]);
    assert_eq!(asked, vec!["StopDirtyLog", "ReadState", "ResumeVm"]);
    assert_eq!(step, failure(sending(Context::Config, None)));
}

#[test]
fn every_request_of_a_session_is_answered_once() {
    let mut vmm = monitor(features());
    let step = accepted(&mut vmm);
    let done = || Outcome::Done;
    let (asked, step) = play(
        &mut vmm,
        step,
        vec![
            request(Command::Invalid, 0),
            request(Command::Memory, 8),
            done(),
            request(Command::Start, 0),
            done(),
            request(Command::State, 8),
            done(),
            request(Command::Abandon, 0),
            failed("gone"),
        ],
    );
    assert_eq!(
        asked,
        vec![
            "ReadRequest",
            "ReadRequest",
            "Answer(false)",
            "ReadRequest",
            "Answer(true)",
            "ReadRequest",
            "Answer(false)",
            "ReadRequest",
            "Answer(true)",
        ]
    );
    assert_eq!(step, Step::Done(Ok(Reply::Done)));
    assert_eq!((&vmm.vm, &vmm.vm_config), (&None, &None));
    assert_eq!(vmm.vm_create(config()), Step::Perform(Action::CreateConsole));
}

#[test]
fn a_machine_that_cannot_be_resumed_ends_the_session() {
    let mut vmm = running(features());
    let step = accepted(&mut vmm);
    let (asked, step) =
        play(&mut vmm, step, vec![request(Command::Complete, 0), failed("stuck")]);
    assert_eq!(asked, vec!["ReadRequest", "ResumeVm"]);
    assert_eq!(step, failure(MigratableError::Machine("stuck".to_string())));
}
